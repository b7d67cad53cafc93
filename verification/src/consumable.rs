//! Components of food, potions and other items that are consumed.
use vstd::prelude::*;
use crate::codec::{count_as_i32, AsF32, AsI32, AsText, AsVarInt, Both, Coded, Context, DataComponentCodec, ListOf, ListRule, Numbered, Opt};
use crate::elements::{equal_sounds, id_set_val, put_any_sound, sound_val, AsEffect, IDSet, IdOr, KnownSoundThenFlag, RenamedSound, SetOf, SoundEvent, StatusEffectInstance, Wording};
use crate::errors::{cannot_write, message, ReadingError, WritingError};
use crate::format::{pair, read_val, write_val, Blame, Check, CountRule, Format, Limit, Sink, Val};
use crate::equipment::OfEffect;
use crate::registry::position_of;
use crate::registry::Registries;
use crate::same::val_same;
use crate::text::same_text;
use crate::wire::{count_of, done, get_var_int, write_bool, write_var_int};

verus! {

/// How status effects are counted.
pub struct EffectCount;

impl ListRule for EffectCount {
    open spec fn rule() -> CountRule {
        CountRule::Capped { max: 128, exceeds: Blame { text: "Too many status effects", number: false } }
    }

    open spec fn limit() -> Limit {
        Limit::Unlimited
    }

    fn count(seq: &mut &[u8]) -> (r: Result<u64, ReadingError>) {
        let v: i32 = get_var_int(seq)?;
        let n: u64 = count_of(v);
        if n > 128 {
            return Err(message("Too many status effects"));
        }
        Ok(n)
    }

    fn allowed(n: usize) -> (r: Result<(), WritingError>) {
        Ok(())
    }
}

/// A sound of an effect that cannot be read.
pub struct UnreadableSound;

impl Wording for UnreadableSound {
    open spec fn spec_text() -> &'static str {
        "No sound IdOr<SoundEvent> in ConsumeEffect"
    }

    fn text() -> (r: &'static str) {
        "No sound IdOr<SoundEvent> in ConsumeEffect"
    }
}

/// A sound of an effect that is not known.
pub struct UnknownSound;

impl Wording for UnknownSound {
    open spec fn spec_text() -> &'static str {
        "Invalid sound in ConsumeEffect"
    }

    fn text() -> (r: &'static str) {
        "Invalid sound in ConsumeEffect"
    }
}

/// Status effects.
pub type AsEffects = ListOf<EffectCount, AsEffect>;

/// What consuming an item does.
#[derive(Debug, PartialEq)]
pub enum ConsumeEffect {
    /// Applies status effects, with a probability given as the bit pattern of a 32-bit
    /// floating-point number.
    ApplyEffects((Vec<StatusEffectInstance>, u32)),
    RemoveEffects(IDSet),
    ClearAllEffects,
    /// Teleports within a diameter, given as the bit pattern of a 32-bit floating-point number.
    TeleportRandomly(u32),
    PlaySound(IdOr<SoundEvent>),
}

impl DataComponentCodec for ConsumeEffect {
    type Value = ConsumeEffect;

    open spec fn format() -> Format {
        Format::Choice(
            seq![
                <Both<AsEffects, AsF32> as DataComponentCodec>::format(),
                <SetOf<OfEffect> as DataComponentCodec>::format(),
                Format::Unit,
                AsF32::format(),
                <RenamedSound<UnreadableSound, UnknownSound> as DataComponentCodec>::format(),
            ],
            Blame { text: "Invalid effect_type in ConsumeEffect", number: false },
        )
    }

    open spec fn val(v: ConsumeEffect) -> Val {
        match v {
            ConsumeEffect::ApplyEffects(e) => pair(Val::Int(0), <Both<AsEffects, AsF32> as DataComponentCodec>::val(e)),
            ConsumeEffect::RemoveEffects(s) => pair(Val::Int(1), id_set_val(s)),
            ConsumeEffect::ClearAllEffects => pair(Val::Int(2), Val::Unit),
            ConsumeEffect::TeleportRandomly(d) => pair(Val::Int(3), Val::Float(4, d as nat)),
            ConsumeEffect::PlaySound(s) => pair(Val::Int(4), sound_val(s)),
        }
    }

    fn deserialize(seq: &mut &[u8], ctx: &Context) -> (r: Result<ConsumeEffect, ReadingError>) {
        proof {
            reveal(read_val);
        }
        let v: i32 = get_var_int(seq)?;
        match v {
            0 => Ok(ConsumeEffect::ApplyEffects(<Both<AsEffects, AsF32> as DataComponentCodec>::deserialize(seq, ctx)?)),
            1 => Ok(ConsumeEffect::RemoveEffects(<SetOf<OfEffect> as DataComponentCodec>::deserialize(seq, ctx)?)),
            2 => {
                assert(read_val(Format::Unit, ctx@, seq@) == done(Val::Unit, seq@));
                Ok(ConsumeEffect::ClearAllEffects)
            },
            3 => Ok(ConsumeEffect::TeleportRandomly(AsF32::deserialize(seq, ctx)?)),
            4 => Ok(
                ConsumeEffect::PlaySound(
                    <RenamedSound<UnreadableSound, UnknownSound> as DataComponentCodec>::deserialize(seq, ctx)?,
                ),
            ),
            _ => Err(message("Invalid effect_type in ConsumeEffect")),
        }
    }

    fn serialize(value: &ConsumeEffect, out: &mut Vec<u8>, ctx: &Context) -> (r: Result<(), WritingError>) {
        proof {
            reveal(write_val);
        }
        match value {
            ConsumeEffect::ApplyEffects(e) => {
                write_var_int(out, 0);
                <Both<AsEffects, AsF32> as DataComponentCodec>::serialize(e, out, ctx)
            },
            ConsumeEffect::RemoveEffects(s) => {
                write_var_int(out, 1);
                <SetOf<OfEffect> as DataComponentCodec>::serialize(s, out, ctx)
            },
            ConsumeEffect::ClearAllEffects => {
                write_var_int(out, 2);
                assert(write_val(Format::Unit, ctx@, out@, Val::Unit) == (Sink { result: Ok(()), out: out@ }));
                Ok(())
            },
            ConsumeEffect::TeleportRandomly(d) => {
                write_var_int(out, 3);
                AsF32::serialize(d, out, ctx)
            },
            ConsumeEffect::PlaySound(s) => {
                write_var_int(out, 4);
                <RenamedSound<UnreadableSound, UnknownSound> as DataComponentCodec>::serialize(s, out, ctx)
            },
        }
    }

    fn equal(a: &ConsumeEffect, b: &ConsumeEffect) -> (r: bool) {
        proof {
            reveal_with_fuel(val_same, 2);
        }
        match (a, b) {
            (ConsumeEffect::ApplyEffects(x), ConsumeEffect::ApplyEffects(y)) => <Both<AsEffects, AsF32> as DataComponentCodec>::equal(
                x,
                y,
            ),
            (ConsumeEffect::RemoveEffects(x), ConsumeEffect::RemoveEffects(y)) => <SetOf<OfEffect> as DataComponentCodec>::equal(x, y),
            (ConsumeEffect::ClearAllEffects, ConsumeEffect::ClearAllEffects) => true,
            (ConsumeEffect::TeleportRandomly(x), ConsumeEffect::TeleportRandomly(y)) => AsF32::equal(x, y),
            (ConsumeEffect::PlaySound(x), ConsumeEffect::PlaySound(y)) => equal_sounds(x, y),
            _ => false,
        }
    }
}

/// How consuming an item looks.
#[derive(Clone, Copy, Debug, PartialEq, Eq, Structural)]
pub enum ConsumeAnimation {
    NoAnimation,
    Eat,
    Drink,
    Block,
    Bow,
    Trident,
    Crossbow,
    Spyglass,
    TootHorn,
    Brush,
    Bundle,
    Spear,
}

/// The number of a value.
pub open spec fn consume_animation_id(v: ConsumeAnimation) -> int {
    match v {
        ConsumeAnimation::NoAnimation => 0,
        ConsumeAnimation::Eat => 1,
        ConsumeAnimation::Drink => 2,
        ConsumeAnimation::Block => 3,
        ConsumeAnimation::Bow => 4,
        ConsumeAnimation::Trident => 5,
        ConsumeAnimation::Crossbow => 6,
        ConsumeAnimation::Spyglass => 7,
        ConsumeAnimation::TootHorn => 8,
        ConsumeAnimation::Brush => 9,
        ConsumeAnimation::Bundle => 10,
        ConsumeAnimation::Spear => 11,
    }
}

impl ConsumeAnimation {
    /// The value with a number.
    pub fn from_id(id: i32) -> (r: Option<Self>)
        ensures
            match r {
                Some(v) => consume_animation_id(v) == id,
                None => !(0 <= id < 12),
            },
    {
        match id {
            0 => Some(ConsumeAnimation::NoAnimation),
            1 => Some(ConsumeAnimation::Eat),
            2 => Some(ConsumeAnimation::Drink),
            3 => Some(ConsumeAnimation::Block),
            4 => Some(ConsumeAnimation::Bow),
            5 => Some(ConsumeAnimation::Trident),
            6 => Some(ConsumeAnimation::Crossbow),
            7 => Some(ConsumeAnimation::Spyglass),
            8 => Some(ConsumeAnimation::TootHorn),
            9 => Some(ConsumeAnimation::Brush),
            10 => Some(ConsumeAnimation::Bundle),
            11 => Some(ConsumeAnimation::Spear),
            _ => None,
        }
    }

    /// The number of the value.
    pub fn to_id(self) -> (r: i32)
        ensures
            r == consume_animation_id(self),
    {
        match self {
            ConsumeAnimation::NoAnimation => 0,
            ConsumeAnimation::Eat => 1,
            ConsumeAnimation::Drink => 2,
            ConsumeAnimation::Block => 3,
            ConsumeAnimation::Bow => 4,
            ConsumeAnimation::Trident => 5,
            ConsumeAnimation::Crossbow => 6,
            ConsumeAnimation::Spyglass => 7,
            ConsumeAnimation::TootHorn => 8,
            ConsumeAnimation::Brush => 9,
            ConsumeAnimation::Bundle => 10,
            ConsumeAnimation::Spear => 11,
        }
    }
}

/// A value by its number.
pub struct AsAnimation;

impl Numbered for AsAnimation {
    type Value = ConsumeAnimation;

    open spec fn check() -> Check {
        Check::UpTo { max: 11, out: Blame { text: "Invalid ConsumableImpl animation id!", number: false } }
    }

    open spec fn val(v: ConsumeAnimation) -> Val {
        Val::Int(consume_animation_id(v))
    }

    fn decode(regs: &Registries, v: i32) -> (r: Result<ConsumeAnimation, ReadingError>) {
        match ConsumeAnimation::from_id(v) {
            Some(x) => Ok(x),
            None => Err(message("Invalid ConsumableImpl animation id!")),
        }
    }

    fn encode(regs: &Registries, value: &ConsumeAnimation) -> (r: Result<i32, WritingError>) {
        Ok(value.to_id())
    }

    fn alike(a: &ConsumeAnimation, b: &ConsumeAnimation) -> (r: bool) {
        a.to_id() == b.to_id()
    }
}

/// An unknown sound of consuming an item.
pub struct InvalidConsumeSound;

impl Wording for InvalidConsumeSound {
    open spec fn spec_text() -> &'static str {
        "Invalid sound in ConsumableImpl"
    }

    fn text() -> (r: &'static str) {
        "Invalid sound in ConsumableImpl"
    }
}

/// How the effects of consuming an item are counted.
pub struct ConsumeEffectCount;

impl ListRule for ConsumeEffectCount {
    open spec fn rule() -> CountRule {
        CountRule::Range { max: 256, out: Blame { text: "Invalid consume effect count", number: false } }
    }

    open spec fn limit() -> Limit {
        Limit::Unlimited
    }

    fn count(seq: &mut &[u8]) -> (r: Result<u64, ReadingError>) {
        let v: i32 = get_var_int(seq)?;
        if v < 0 || v > 256 {
            return Err(message("Invalid consume effect count"));
        }
        Ok(v as u64)
    }

    fn allowed(n: usize) -> (r: Result<(), WritingError>) {
        Ok(())
    }
}

/// How an item is consumed.
#[derive(Debug, PartialEq)]
pub struct ConsumableImpl {
    /// The seconds that it takes, as the bit pattern of a 32-bit floating-point number.
    pub consume_seconds: u32,
    pub animation: ConsumeAnimation,
    pub sound_event: IdOr<SoundEvent>,
    pub consume_particles: bool,
    pub effects: Vec<ConsumeEffect>,
}

impl DataComponentCodec for ConsumableImpl {
    type Value = ConsumableImpl;

    open spec fn format() -> Format {
        Format::Pair(
            Box::new(AsF32::format()),
            Box::new(
                Format::Pair(
                    Box::new(<Coded<AsAnimation> as DataComponentCodec>::format()),
                    Box::new(Format::Pair(Box::new(<KnownSoundThenFlag<InvalidConsumeSound> as DataComponentCodec>::format()), Box::new(<ListOf<ConsumeEffectCount, ConsumeEffect> as DataComponentCodec>::format()))),
                ),
            ),
        )
    }

    open spec fn val(v: ConsumableImpl) -> Val {
        pair(
            AsF32::val(v.consume_seconds),
            pair(
                <Coded<AsAnimation> as DataComponentCodec>::val(v.animation),
                pair(pair(sound_val(v.sound_event), Val::Bool(v.consume_particles)), <ListOf<ConsumeEffectCount, ConsumeEffect> as DataComponentCodec>::val(v.effects)),
            ),
        )
    }

    fn deserialize(seq: &mut &[u8], ctx: &Context) -> (r: Result<ConsumableImpl, ReadingError>) {
        proof {
            reveal_with_fuel(read_val, 4);
        }
        let consume_seconds: u32 = AsF32::deserialize(seq, ctx)?;
        let animation = <Coded<AsAnimation> as DataComponentCodec>::deserialize(seq, ctx)?;
        let (sound_event, consume_particles) = <KnownSoundThenFlag<InvalidConsumeSound> as DataComponentCodec>::deserialize(seq, ctx)?;
        let effects = <ListOf<ConsumeEffectCount, ConsumeEffect> as DataComponentCodec>::deserialize(seq, ctx)?;
        Ok(ConsumableImpl { consume_seconds, animation, sound_event, consume_particles, effects })
    }

    fn serialize(value: &ConsumableImpl, out: &mut Vec<u8>, ctx: &Context) -> (r: Result<(), WritingError>) {
        proof {
            reveal_with_fuel(write_val, 4);
        }
        AsF32::serialize(&value.consume_seconds, out, ctx)?;
        <Coded<AsAnimation> as DataComponentCodec>::serialize(&value.animation, out, ctx)?;
        put_any_sound(&value.sound_event, out)?;
        write_bool(out, value.consume_particles);
        <ListOf<ConsumeEffectCount, ConsumeEffect> as DataComponentCodec>::serialize(&value.effects, out, ctx)
    }

    fn equal(a: &ConsumableImpl, b: &ConsumableImpl) -> (r: bool) {
        proof {
            reveal_with_fuel(val_same, 5);
        }
        AsF32::equal(&a.consume_seconds, &b.consume_seconds) && <Coded<AsAnimation> as DataComponentCodec>::equal(&a.animation, &b.animation) && equal_sounds(&a.sound_event, &b.sound_event) && a.consume_particles
            == b.consume_particles && <ListOf<ConsumeEffectCount, ConsumeEffect> as DataComponentCodec>::equal(&a.effects, &b.effects)
    }
}

/// How the effects of escaping death are counted.
pub struct DeathEffectCount;

impl ListRule for DeathEffectCount {
    open spec fn rule() -> CountRule {
        CountRule::Range { max: 256, out: Blame { text: "Invalid death effect count", number: false } }
    }

    open spec fn limit() -> Limit {
        Limit::AtMost { max: 256, over: "Too many death effects" }
    }

    fn count(seq: &mut &[u8]) -> (r: Result<u64, ReadingError>) {
        let v: i32 = get_var_int(seq)?;
        if v < 0 || v > 256 {
            return Err(message("Invalid death effect count"));
        }
        Ok(v as u64)
    }

    fn allowed(n: usize) -> (r: Result<(), WritingError>) {
        if n > 256 {
            return Err(cannot_write("Too many death effects"));
        }
        Ok(())
    }
}

/// What an item does when it saves its holder from death.
#[derive(Debug, PartialEq)]
pub struct DeathProtectionImpl {
    pub death_effects: Vec<ConsumeEffect>,
}

impl DataComponentCodec for DeathProtectionImpl {
    type Value = DeathProtectionImpl;

    open spec fn format() -> Format {
        <ListOf<DeathEffectCount, ConsumeEffect> as DataComponentCodec>::format()
    }

    open spec fn val(v: DeathProtectionImpl) -> Val {
        <ListOf<DeathEffectCount, ConsumeEffect> as DataComponentCodec>::val(v.death_effects)
    }

    fn deserialize(seq: &mut &[u8], ctx: &Context) -> (r: Result<DeathProtectionImpl, ReadingError>) {
        let death_effects = <ListOf<DeathEffectCount, ConsumeEffect> as DataComponentCodec>::deserialize(seq, ctx)?;
        Ok(DeathProtectionImpl { death_effects })
    }

    fn serialize(value: &DeathProtectionImpl, out: &mut Vec<u8>, ctx: &Context) -> (r: Result<(), WritingError>) {
        <ListOf<DeathEffectCount, ConsumeEffect> as DataComponentCodec>::serialize(&value.death_effects, out, ctx)
    }

    fn equal(a: &DeathProtectionImpl, b: &DeathProtectionImpl) -> (r: bool) {
        <ListOf<DeathEffectCount, ConsumeEffect> as DataComponentCodec>::equal(&a.death_effects, &b.death_effects)
    }
}

/// What a potion holds.
#[derive(Debug, PartialEq)]
pub struct PotionContentsImpl {
    pub potion_id: Option<i32>,
    pub custom_color: Option<i32>,
    pub custom_effects: Vec<StatusEffectInstance>,
    pub custom_name: Option<String>,
}

impl DataComponentCodec for PotionContentsImpl {
    type Value = PotionContentsImpl;

    open spec fn format() -> Format {
        Format::Pair(Box::new(<Opt<AsVarInt> as DataComponentCodec>::format()), Box::new(Format::Pair(Box::new(<Opt<AsI32> as DataComponentCodec>::format()), Box::new(Format::Pair(Box::new(AsEffects::format()), Box::new(<Opt<AsText> as DataComponentCodec>::format()))))))
    }

    open spec fn val(v: PotionContentsImpl) -> Val {
        pair(<Opt<AsVarInt> as DataComponentCodec>::val(v.potion_id), pair(<Opt<AsI32> as DataComponentCodec>::val(v.custom_color), pair(AsEffects::val(v.custom_effects), <Opt<AsText> as DataComponentCodec>::val(v.custom_name))))
    }

    fn deserialize(seq: &mut &[u8], ctx: &Context) -> (r: Result<PotionContentsImpl, ReadingError>) {
        proof {
            reveal_with_fuel(read_val, 4);
        }
        let potion_id = <Opt<AsVarInt> as DataComponentCodec>::deserialize(seq, ctx)?;
        let custom_color = <Opt<AsI32> as DataComponentCodec>::deserialize(seq, ctx)?;
        let custom_effects = AsEffects::deserialize(seq, ctx)?;
        let custom_name = <Opt<AsText> as DataComponentCodec>::deserialize(seq, ctx)?;
        Ok(PotionContentsImpl { potion_id, custom_color, custom_effects, custom_name })
    }

    fn serialize(value: &PotionContentsImpl, out: &mut Vec<u8>, ctx: &Context) -> (r: Result<(), WritingError>) {
        proof {
            reveal_with_fuel(write_val, 4);
        }
        <Opt<AsVarInt> as DataComponentCodec>::serialize(&value.potion_id, out, ctx)?;
        <Opt<AsI32> as DataComponentCodec>::serialize(&value.custom_color, out, ctx)?;
        AsEffects::serialize(&value.custom_effects, out, ctx)?;
        <Opt<AsText> as DataComponentCodec>::serialize(&value.custom_name, out, ctx)
    }

    fn equal(a: &PotionContentsImpl, b: &PotionContentsImpl) -> (r: bool) {
        proof {
            reveal_with_fuel(val_same, 4);
        }
        <Opt<AsVarInt> as DataComponentCodec>::equal(&a.potion_id, &b.potion_id) && <Opt<AsI32> as DataComponentCodec>::equal(&a.custom_color, &b.custom_color) && AsEffects::equal(&a.custom_effects, &b.custom_effects) && <Opt<AsText> as DataComponentCodec>::equal(&a.custom_name, &b.custom_name)
    }
}

/// How much longer or shorter the effects of a potion last.
#[derive(Debug, PartialEq)]
pub struct PotionDurationScaleImpl {
    /// The factor, as the bit pattern of a 32-bit floating-point number.
    pub scale: u32,
}

impl DataComponentCodec for PotionDurationScaleImpl {
    type Value = PotionDurationScaleImpl;

    open spec fn format() -> Format {
        AsF32::format()
    }

    open spec fn val(v: PotionDurationScaleImpl) -> Val {
        AsF32::val(v.scale)
    }

    fn deserialize(seq: &mut &[u8], ctx: &Context) -> (r: Result<PotionDurationScaleImpl, ReadingError>) {
        let scale = AsF32::deserialize(seq, ctx)?;
        Ok(PotionDurationScaleImpl { scale })
    }

    fn serialize(value: &PotionDurationScaleImpl, out: &mut Vec<u8>, ctx: &Context) -> (r: Result<(), WritingError>) {
        AsF32::serialize(&value.scale, out, ctx)
    }

    fn equal(a: &PotionDurationScaleImpl, b: &PotionDurationScaleImpl) -> (r: bool) {
        AsF32::equal(&a.scale, &b.scale)
    }
}

/// A status effect of a stew, by its name.
pub struct AsStewEffect;

impl Numbered for AsStewEffect {
    type Value = String;

    open spec fn check() -> Check {
        Check::Effect {
            range: Blame { text: "Invalid suspicious stew effect id", number: false },
            unknown: Blame { text: "Unknown suspicious stew effect id", number: false },
            unwritable: "Unknown suspicious stew effect",
        }
    }

    open spec fn val(v: String) -> Val {
        Val::Text(v@)
    }

    fn decode(regs: &Registries, v: i32) -> (r: Result<String, ReadingError>) {
        if v < 0 || v > 0xffff {
            return Err(message("Invalid suspicious stew effect id"));
        }
        if (v as usize) < regs.effects.len() {
            Ok(regs.effects[v as usize].clone())
        } else {
            Err(message("Unknown suspicious stew effect id"))
        }
    }

    fn encode(regs: &Registries, value: &String) -> (r: Result<i32, WritingError>) {
        match position_of(&regs.effects, value.as_str()) {
            Some(i) => Ok(count_as_i32(i)),
            None => Err(cannot_write("Unknown suspicious stew effect")),
        }
    }

    fn alike(a: &String, b: &String) -> (r: bool) {
        same_text(a.as_str(), b.as_str())
    }
}

/// How the effects of a stew are counted.
pub struct StewEffectCount;

impl ListRule for StewEffectCount {
    open spec fn rule() -> CountRule {
        CountRule::Range { max: 128, out: Blame { text: "Invalid suspicious stew effect count", number: false } }
    }

    open spec fn limit() -> Limit {
        Limit::AtMost { max: 0x7fff_ffff, over: "Too many suspicious stew effects" }
    }

    fn count(seq: &mut &[u8]) -> (r: Result<u64, ReadingError>) {
        let v: i32 = get_var_int(seq)?;
        if v < 0 || v > 128 {
            return Err(message("Invalid suspicious stew effect count"));
        }
        Ok(v as u64)
    }

    fn allowed(n: usize) -> (r: Result<(), WritingError>) {
        if n > 0x7fff_ffff {
            return Err(cannot_write("Too many suspicious stew effects"));
        }
        Ok(())
    }
}

/// A status effect of a stew.
#[derive(Debug, PartialEq)]
pub struct SuspiciousStewEffect {
    pub effect: String,
    pub duration: i32,
}

impl DataComponentCodec for SuspiciousStewEffect {
    type Value = SuspiciousStewEffect;

    open spec fn format() -> Format {
        Format::Pair(Box::new(<Coded<AsStewEffect> as DataComponentCodec>::format()), Box::new(AsVarInt::format()))
    }

    open spec fn val(v: SuspiciousStewEffect) -> Val {
        pair(<Coded<AsStewEffect> as DataComponentCodec>::val(v.effect), AsVarInt::val(v.duration))
    }

    fn deserialize(seq: &mut &[u8], ctx: &Context) -> (r: Result<SuspiciousStewEffect, ReadingError>) {
        proof {
            reveal_with_fuel(read_val, 2);
        }
        let effect = <Coded<AsStewEffect> as DataComponentCodec>::deserialize(seq, ctx)?;
        let duration = AsVarInt::deserialize(seq, ctx)?;
        Ok(SuspiciousStewEffect { effect, duration })
    }

    fn serialize(value: &SuspiciousStewEffect, out: &mut Vec<u8>, ctx: &Context) -> (r: Result<(), WritingError>) {
        proof {
            reveal_with_fuel(write_val, 2);
        }
        <Coded<AsStewEffect> as DataComponentCodec>::serialize(&value.effect, out, ctx)?;
        AsVarInt::serialize(&value.duration, out, ctx)
    }

    fn equal(a: &SuspiciousStewEffect, b: &SuspiciousStewEffect) -> (r: bool) {
        proof {
            reveal_with_fuel(val_same, 2);
        }
        <Coded<AsStewEffect> as DataComponentCodec>::equal(&a.effect, &b.effect) && AsVarInt::equal(&a.duration, &b.duration)
    }
}

/// The status effects of a stew.
#[derive(Debug, PartialEq)]
pub struct SuspiciousStewEffectsImpl {
    pub effects: Vec<SuspiciousStewEffect>,
}

impl DataComponentCodec for SuspiciousStewEffectsImpl {
    type Value = SuspiciousStewEffectsImpl;

    open spec fn format() -> Format {
        <ListOf<StewEffectCount, SuspiciousStewEffect> as DataComponentCodec>::format()
    }

    open spec fn val(v: SuspiciousStewEffectsImpl) -> Val {
        <ListOf<StewEffectCount, SuspiciousStewEffect> as DataComponentCodec>::val(v.effects)
    }

    fn deserialize(seq: &mut &[u8], ctx: &Context) -> (r: Result<SuspiciousStewEffectsImpl, ReadingError>) {
        let effects = <ListOf<StewEffectCount, SuspiciousStewEffect> as DataComponentCodec>::deserialize(seq, ctx)?;
        Ok(SuspiciousStewEffectsImpl { effects })
    }

    fn serialize(value: &SuspiciousStewEffectsImpl, out: &mut Vec<u8>, ctx: &Context) -> (r: Result<(), WritingError>) {
        <ListOf<StewEffectCount, SuspiciousStewEffect> as DataComponentCodec>::serialize(&value.effects, out, ctx)
    }

    fn equal(a: &SuspiciousStewEffectsImpl, b: &SuspiciousStewEffectsImpl) -> (r: bool) {
        <ListOf<StewEffectCount, SuspiciousStewEffect> as DataComponentCodec>::equal(&a.effects, &b.effects)
    }
}

/// How strong an ominous bottle is.
#[derive(Debug, PartialEq)]
pub struct OminousBottleAmplifierImpl {
    pub amplifier: i32,
}

impl DataComponentCodec for OminousBottleAmplifierImpl {
    type Value = OminousBottleAmplifierImpl;

    open spec fn format() -> Format {
        AsVarInt::format()
    }

    open spec fn val(v: OminousBottleAmplifierImpl) -> Val {
        AsVarInt::val(v.amplifier)
    }

    fn deserialize(seq: &mut &[u8], ctx: &Context) -> (r: Result<OminousBottleAmplifierImpl, ReadingError>) {
        let amplifier = AsVarInt::deserialize(seq, ctx)?;
        Ok(OminousBottleAmplifierImpl { amplifier })
    }

    fn serialize(value: &OminousBottleAmplifierImpl, out: &mut Vec<u8>, ctx: &Context) -> (r: Result<(), WritingError>) {
        AsVarInt::serialize(&value.amplifier, out, ctx)
    }

    fn equal(a: &OminousBottleAmplifierImpl, b: &OminousBottleAmplifierImpl) -> (r: bool) {
        AsVarInt::equal(&a.amplifier, &b.amplifier)
    }
}

} // verus!
