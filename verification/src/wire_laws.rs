//! The bytes of components, field by field.
use vstd::prelude::*;
use crate::basic::{AsRarity, BreakSoundImpl, CreativeSlotLockImpl, CustomDataImpl, CustomModelDataImpl, CustomNameImpl, DamageImpl, EnchantmentGlintOverrideImpl, InstrumentImpl, ItemModelImpl, ItemNameImpl, LoreCount, LoreImpl, MaxDamageImpl, MaxStackSizeImpl, NoteBlockSoundImpl, ProvidesTrimMaterialImpl, Rarity, RarityImpl, StackSize, TooltipStyleImpl, UnbreakableImpl};
use crate::block_entity::BlockStateImpl;
use crate::book::{RawText, WritableBookContentImpl, WrittenBookContentImpl, WrittenPage};
use crate::bytes::{be_bytes, be_signed, lemma_pow256, lemma_regroup};
use crate::codec::{opt_val, vals, AsBool, AsF32, AsI32, AsText, AsVarInt, Both, Coded, DataComponentCodec, ListOf, ListRule, Numbered, Opt, RawCount};
use crate::consumable::{AsAnimation, AsEffects, AsStewEffect, ConsumableImpl, ConsumeAnimation, ConsumeEffect, ConsumeEffectCount, DeathEffectCount, DeathProtectionImpl, EffectCount, InvalidConsumeSound, OminousBottleAmplifierImpl, PotionContentsImpl, PotionDurationScaleImpl, StewEffectCount, SuspiciousStewEffect, SuspiciousStewEffectsImpl, UnknownSound, UnreadableSound};
use crate::elements::{Wording, effect_instance_val, id_set_val, id_vals, opt_sound_val, sound_val, AsEffect, AsLeveled, AsLine, IDSet, IdOr, KnownSound, OptionalSound, SetOf, SoundEvent, StatusEffectInstance};
use crate::equipment::{AdditionalTradeCostImpl, AsAttribute, AsDamageType, AsEquipmentSlot, AsModifierSlot, AsOperation, AsSwing, AttackRangeImpl, AttributeModifierSlot, AttributeModifiersImpl, DamageResistantImpl, DamageTypeImpl, EnchantableImpl, EnchantmentCount, EnchantmentsImpl, EquipmentSlot, EquippableImpl, FoodImpl, GliderImpl, InvalidEquipSound, InvalidShearingSound, KineticConditionImpl, KineticWeaponImpl, MinimumAttackChargeImpl, Modifier, ModifierCount, ModifierDisplay, NoSound, OfBlock, OfEntityType, Operation, PiercingWeaponImpl, RepairCostImpl, RepairableImpl, StoredEnchantmentsImpl, SwingAnimationImpl, SwingAnimationType, ToolImpl, ToolRule, UnknownEnchantment, UnknownStoredEnchantment, UseCooldownImpl, WeaponImpl};
use crate::format::{both, fixed, ids_bytes, is_component, opt, optional, pair, plain, put, write_any_sound, write_effect_details, Ctx, Format, NbtRole, SoundRule, Val, MAX_EFFECT_DEPTH};
use crate::identifier::{bare_name, identifier_of};
use crate::leaf_return::{effect_keeps, lemma_found_name, lemma_small_count, position_val, tag_returns};
use crate::nbt_codec::tag_bytes;
use crate::nbt_tag::Tag;
use crate::registry::{enchantment_known, find_name, kind_known, RegistryKind};
use crate::sent::{counted, in_turn, lemma_sent_absent, lemma_sent_bool, lemma_sent_choice, lemma_sent_f32, lemma_sent_f64, lemma_sent_fixed, lemma_sent_i32, lemma_sent_leaf, lemma_sent_list, lemma_sent_number, lemma_sent_pair, lemma_sent_present, lemma_sent_text, lemma_sent_unit, lemma_sent_var_int, lemma_sent_var_u32, maybe, sent};
use crate::utility::{AsProcessing, AsShape, AsSong, ColorCount, DyeImpl, DyedColorImpl, ExplosionCount, FadeColorCount, FireworkExplosionImpl, FireworkExplosionShape, FireworksImpl, FlightDuration, JukeboxPlayableImpl, LodestoneTarget, LodestoneTrackerImpl, MapColorImpl, MapIdImpl, MapPostProcessing, MapPostProcessingImpl, ProfileProperty};
use crate::variant::{AxolotlVariantImpl, CatCollarImpl, CatSoundVariantImpl, CatVariantImpl, ChickenSoundVariantImpl, ChickenVariantImpl, CowSoundVariantImpl, CowVariantImpl, FoxVariantImpl, FrogVariantImpl, HorseVariantImpl, LlamaVariantImpl, MooshroomVariantImpl, PaintingVariantImpl, ParrotVariantImpl, PigSoundVariantImpl, PigVariantImpl, RabbitVariantImpl, SalmonSizeImpl, SheepColorImpl, ShulkerColorImpl, TropicalFishBaseColorImpl, TropicalFishPatternColorImpl, TropicalFishPatternImpl, VillagerVariantImpl, WolfCollarImpl, WolfSoundVariantImpl, WolfVariantImpl, ZombieNautilusVariantImpl};
use crate::wire::{flag, groups, text, text_fits, var_int, MAX_TEXT_BYTES};

verus! {

/// The byte of a flag.
pub open spec fn byte_of(b: bool) -> Seq<u8> {
    seq![if b { 1u8 } else { 0u8 }]
}

/// The bytes of a sound: its number plus one, or zero, its name and its range.
pub open spec fn sound_bytes(s: IdOr<SoundEvent>) -> Seq<u8> {
    match s {
        IdOr::Id(i) => var_int(i + 1),
        IdOr::Value(s) => var_int(0) + (text(s.sound_name@) + maybe(s.range is Some, be_bytes(s.range->0 as nat, 4))),
    }
}

/// Whether a sound can be sent: its number is known, or its name is not too long.
pub open spec fn sound_fits(s: IdOr<SoundEvent>, c: Ctx) -> bool {
    match s {
        IdOr::Id(i) => i < c.regs.sounds@.len(),
        IdOr::Value(s) => text_fits(s.sound_name@, MAX_TEXT_BYTES as nat),
    }
}

/// The bytes of a set of registry entries: zero and the name of a tag, or one more than the count and
/// the numbers.
pub open spec fn set_bytes(s: IDSet) -> Seq<u8> {
    match s {
        IDSet::Tag(t) => var_int(0) + text(t@),
        IDSet::IDs(l) => var_int(l@.len() as int + 1) + in_turn(l@.len(), |k: int| var_int(l@[k] as int), 0),
    }
}

/// Whether a set of registry entries can be sent.
pub open spec fn set_fits(s: IDSet, kind: RegistryKind, c: Ctx) -> bool {
    match s {
        IDSet::Tag(t) => text_fits(t@, MAX_TEXT_BYTES as nat),
        IDSet::IDs(l) => l@.len() <= 256 && forall|k: int| 0 <= k < l@.len() ==> kind_known(c.regs, kind, #[trigger] l@[k] as int),
    }
}

/// The bytes of a status effect behind its number: amplifier, duration, flags, and the effect hidden
/// behind it.
pub open spec fn effect_bytes(v: StatusEffectInstance) -> Seq<u8>
    decreases v,
{
    var_int(v.amplifier as int) + (var_int(v.duration as int) + (byte_of(v.ambient) + (byte_of(v.show_particles) + (byte_of(v.show_icon)
        + match v.hidden_effect {
        Some(h) => seq![1u8] + effect_bytes(*h),
        None => seq![0u8],
    }))))
}

/// Whether a status effect and those hidden behind it, at most `left`, have the same name.
pub open spec fn effects_alike(v: StatusEffectInstance, name: Seq<char>, left: nat) -> bool
    decreases left,
{
    v.effect_id@ == name && match v.hidden_effect {
        Some(h) => left > 0 && effects_alike(*h, name, (left - 1) as nat),
        None => true,
    }
}

/// Whether a status effect is known and can be sent as the number `i`.
pub open spec fn effect_fits(v: StatusEffectInstance, c: Ctx) -> bool {
    find_name(c.regs.effects@, v.effect_id@) matches Some(i) && i <= 0xffff && effects_alike(v, v.effect_id@, 32)
}

/// The number of the status effect.
pub open spec fn effect_number(v: Seq<char>, c: Ctx) -> int {
    find_name(c.regs.effects@, v)->0
}

pub open spec fn rarity_number(v: Rarity) -> int {
    match v {
        Rarity::Common => 0,
        Rarity::Uncommon => 1,
        Rarity::Rare => 2,
        Rarity::Epic => 3,
    }
}

pub open spec fn slot_number(v: EquipmentSlot) -> int {
    match v {
        EquipmentSlot::MainHand => 0,
        EquipmentSlot::Feet => 1,
        EquipmentSlot::Legs => 2,
        EquipmentSlot::Chest => 3,
        EquipmentSlot::Head => 4,
        EquipmentSlot::OffHand => 5,
        EquipmentSlot::Body => 6,
        EquipmentSlot::Saddle => 7,
    }
}

pub open spec fn swing_number(v: SwingAnimationType) -> int {
    match v {
        SwingAnimationType::NoSwing => 0,
        SwingAnimationType::Whack => 1,
        SwingAnimationType::Stab => 2,
    }
}

pub open spec fn animation_number(v: ConsumeAnimation) -> int {
    match v {
        ConsumeAnimation::NoAnimation => 0,
        ConsumeAnimation::Eat => 1,
        ConsumeAnimation::Drink => 2,
        ConsumeAnimation::Block => 3,
        ConsumeAnimation::Bow => 4,
        ConsumeAnimation::Trident => 5,
        ConsumeAnimation::Crossbow => 6,
        ConsumeAnimation::Spyglass => 7,
        ConsumeAnimation::TootHorn => 8,
        ConsumeAnimation::Brush => 9,
        ConsumeAnimation::Bundle => 10,
        ConsumeAnimation::Spear => 11,
    }
}

pub open spec fn shape_number(v: FireworkExplosionShape) -> int {
    match v {
        FireworkExplosionShape::SmallBall => 0,
        FireworkExplosionShape::LargeBall => 1,
        FireworkExplosionShape::Star => 2,
        FireworkExplosionShape::Creeper => 3,
        FireworkExplosionShape::Burst => 4,
    }
}

/// The bytes of an explosion: its shape, its colours, those that it fades to, its trail and its twinkle.
pub open spec fn explosion_bytes(v: FireworkExplosionImpl) -> Seq<u8> {
    var_int(shape_number(v.shape)) + (counted(v.colors@.len(), |k: int| be_signed(v.colors@[k] as int, 4)) + (counted(
        v.fade_colors@.len(),
        |k: int| be_signed(v.fade_colors@[k] as int, 4),
    ) + (byte_of(v.has_trail) + byte_of(v.has_twinkle))))
}

/// Lists whose values look the same have values that look the same, one by one.
pub proof fn lemma_same_items<C: DataComponentCodec>(a: Seq<C::Value>, b: Seq<C::Value>)
    requires
        vals::<C>(a) == vals::<C>(b),
    ensures
        a.len() == b.len(),
        forall|k: int| 0 <= k < a.len() ==> C::val(#[trigger] a[k]) == C::val(b[k]),
{
    assert(vals::<C>(a).len() == a.len() && vals::<C>(b).len() == b.len());
    assert forall|k: int| 0 <= k < a.len() implies C::val(#[trigger] a[k]) == C::val(b[k]) by {
        assert(vals::<C>(a)[k] == C::val(a[k]));
        assert(vals::<C>(b)[k] == C::val(b[k]));
    }
}

proof fn lemma_sound_written(s: IdOr<SoundEvent>)
    requires
        s matches IdOr::Value(s) ==> text_fits(s.sound_name@, MAX_TEXT_BYTES as nat),
    ensures
        forall|out: Seq<u8>| #[trigger] write_any_sound(out, sound_val(s)) == put(out, sound_bytes(s)),
{
    assert forall|out: Seq<u8>| #[trigger] write_any_sound(out, sound_val(s)) == put(out, sound_bytes(s)) by {
        match s {
            IdOr::Id(_) => {},
            IdOr::Value(s) => {
                let tail = maybe(s.range is Some, be_bytes(s.range->0 as nat, 4));
                assert(flag(true) == seq![1u8] && flag(false) == seq![0u8]);
                assert(out + var_int(0) + text(s.sound_name@) + tail =~= out + (var_int(0) + (text(s.sound_name@) + tail)));
                if s.range is Some {
                    assert(out + var_int(0) + text(s.sound_name@) + flag(true) + be_bytes(s.range->0 as nat, 4) =~= out + var_int(0) + text(
                        s.sound_name@,
                    ) + tail);
                }
            },
        }
    }
}

/// A sound is sent as its bytes, under whatever rule.
pub proof fn lemma_sound_is_sent(s: IdOr<SoundEvent>, b: bool, t: &'static str, u: &'static str, c: Ctx)
    requires
        sound_fits(s, c),
    ensures
        sent(Format::Sound(SoundRule::Known(t)), c, sound_val(s), sound_bytes(s)),
        sent(Format::Sound(SoundRule::Renamed(t, u)), c, sound_val(s), sound_bytes(s)),
        sent(Format::Sound(SoundRule::Optional(t)), c, optional(Some(sound_val(s))), seq![1u8] + sound_bytes(s)),
        sent(Format::Sound(SoundRule::KnownThenFlag(t)), c, pair(sound_val(s), Val::Bool(b)), sound_bytes(s) + byte_of(b)),
{
    lemma_pow256();
    lemma_sound_written(s);
    let e = Seq::<u8>::empty();
    assert(e + sound_bytes(s) =~= sound_bytes(s));
    assert(flag(true) == seq![1u8] && flag(b) == byte_of(b));
    assert(e + flag(true) + sound_bytes(s) =~= seq![1u8] + sound_bytes(s));
    assert(e + sound_bytes(s) + flag(b) =~= sound_bytes(s) + byte_of(b));
    lemma_sent_leaf(Format::Sound(SoundRule::Known(t)), c, sound_val(s), sound_bytes(s));
    lemma_sent_leaf(Format::Sound(SoundRule::Renamed(t, u)), c, sound_val(s), sound_bytes(s));
    lemma_sent_leaf(Format::Sound(SoundRule::Optional(t)), c, optional(Some(sound_val(s))), seq![1u8] + sound_bytes(s));
    lemma_sent_leaf(Format::Sound(SoundRule::KnownThenFlag(t)), c, pair(sound_val(s), Val::Bool(b)), sound_bytes(s) + byte_of(b));
}

/// A sound that may be absent is sent as a flag and the sound.
pub proof fn lemma_optional_sound_is_sent(s: Option<IdOr<SoundEvent>>, t: &'static str, c: Ctx)
    requires
        s is Some ==> sound_fits(s->0, c),
    ensures
        sent(Format::Sound(SoundRule::Optional(t)), c, opt_sound_val(s), maybe(s is Some, sound_bytes(s->0))),
{
    match s {
        Some(x) => {
            lemma_sound_is_sent(x, true, t, t, c);
        },
        None => {
            assert(flag(false) == seq![0u8]);
            assert(Seq::<u8>::empty() + flag(false) =~= seq![0u8]);
            lemma_sent_leaf(Format::Sound(SoundRule::Optional(t)), c, Val::Absent, seq![0u8]);
        },
    }
}

proof fn lemma_ids_in_turn(l: Seq<u16>, i: nat)
    requires
        i <= l.len(),
    ensures
        ids_bytes(id_vals(l), i as int) == in_turn(l.len(), |k: int| var_int(l[k] as int), i),
    decreases l.len() - i,
{
    if i < l.len() {
        lemma_ids_in_turn(l, i + 1);
        assert(id_vals(l)[i as int] == Val::Int(l[i as int] as int));
    }
}

/// A set of registry entries is sent as its bytes.
pub proof fn lemma_set_is_sent(s: IDSet, kind: RegistryKind, c: Ctx)
    requires
        set_fits(s, kind, c),
    ensures
        sent(Format::IdSet(kind), c, id_set_val(s), set_bytes(s)),
{
    let e = Seq::<u8>::empty();
    match s {
        IDSet::Tag(t) => {
            assert(e + var_int(0) + text(t@) =~= set_bytes(s));
        },
        IDSet::IDs(l) => {
            lemma_ids_in_turn(l@, 0);
            assert(e + var_int(l@.len() as int + 1) + ids_bytes(id_vals(l@), 0) =~= set_bytes(s));
        },
    }
    lemma_sent_leaf(Format::IdSet(kind), c, id_set_val(s), set_bytes(s));
}

proof fn lemma_six(out: Seq<u8>, a: Seq<u8>, b: Seq<u8>, c: Seq<u8>, d: Seq<u8>, e: Seq<u8>, f: Seq<u8>)
    ensures
        out + a + b + c + d + e + f == out + (a + (b + (c + (d + (e + f))))),
{
    lemma_regroup(out + a + b + c + d, e, f);
    lemma_regroup(out + a + b + c, d, e + f);
    lemma_regroup(out + a + b, c, d + (e + f));
    lemma_regroup(out + a, b, c + (d + (e + f)));
    lemma_regroup(out, a, b + (c + (d + (e + f))));
}

proof fn lemma_effect_written(v: StatusEffectInstance, name: Seq<char>, left: nat, out: Seq<u8>)
    requires
        effects_alike(v, name, left),
    ensures
        write_effect_details(name, out, effect_instance_val(v)) == put(out, effect_bytes(v)),
    decreases left,
{
    let a = var_int(v.amplifier as int);
    let d = var_int(v.duration as int);
    let head = out + a + d + flag(v.ambient) + flag(v.show_particles) + flag(v.show_icon);
    assert(flag(v.ambient) == byte_of(v.ambient) && flag(v.show_particles) == byte_of(v.show_particles) && flag(v.show_icon) == byte_of(
        v.show_icon,
    ));
    assert(flag(true) == seq![1u8] && flag(false) == seq![0u8]);
    let tail = match v.hidden_effect {
        Some(h) => seq![1u8] + effect_bytes(*h),
        None => seq![0u8],
    };
    lemma_six(out, a, d, byte_of(v.ambient), byte_of(v.show_particles), byte_of(v.show_icon), tail);
    match v.hidden_effect {
        Some(h) => {
            lemma_effect_written(*h, name, (left - 1) as nat, head + flag(true));
            lemma_regroup(head, seq![1u8], effect_bytes(*h));
        },
        None => {},
    }
}

proof fn lemma_effect_kept(v: StatusEffectInstance, name: Seq<char>, left: nat)
    requires
        effects_alike(v, name, left),
    ensures
        effect_keeps(name, left, effect_instance_val(v)),
    decreases left,
{
    match v.hidden_effect {
        Some(h) => {
            lemma_effect_kept(*h, name, (left - 1) as nat);
        },
        None => {},
    }
}

/// A status effect is sent as its number and its details.
pub proof fn lemma_effect_is_sent(v: StatusEffectInstance, c: Ctx)
    requires
        effect_fits(v, c),
    ensures
        sent(AsEffect::format(), c, AsEffect::val(v), var_int(effect_number(v.effect_id@, c)) + effect_bytes(v)),
        forall|w: StatusEffectInstance|
            #[trigger] AsEffect::val(w) == AsEffect::val(v) ==> w.effect_id@ == v.effect_id@ && w.amplifier == v.amplifier && w.duration
                == v.duration && w.ambient == v.ambient && w.show_particles == v.show_particles && w.show_icon == v.show_icon && (
            w.hidden_effect is Some <==> v.hidden_effect is Some),
{
    let i = effect_number(v.effect_id@, c);
    let e = Seq::<u8>::empty();
    lemma_found_name(c.regs.effects@, v.effect_id@, 0);
    lemma_small_count(i as nat);
    lemma_effect_written(v, v.effect_id@, MAX_EFFECT_DEPTH as nat, e + var_int(i));
    lemma_effect_kept(v, v.effect_id@, MAX_EFFECT_DEPTH as nat);
    assert(e + var_int(i) + effect_bytes(v) =~= var_int(i) + effect_bytes(v));
    lemma_sent_leaf(Format::Effect, c, effect_instance_val(v), var_int(i) + effect_bytes(v));
}

/// An enchantment and its level are sent as two numbers.
pub proof fn lemma_leveled_is_sent(v: (u8, i32), t: &'static str, c: Ctx)
    requires
        enchantment_known(c.regs, v.0 as int),
    ensures
        sent(
            Format::Leveled(t),
            c,
            pair(Val::Int(v.0 as int), Val::Int(v.1 as int)),
            var_int(v.0 as int) + var_int(v.1 as int),
        ),
{
    let b = var_int(v.0 as int) + var_int(v.1 as int);
    assert(Seq::<u8>::empty() + var_int(v.0 as int) + var_int(v.1 as int) =~= b);
    lemma_sent_leaf(Format::Leveled(t), c, pair(Val::Int(v.0 as int), Val::Int(v.1 as int)), b);
}

/// The largest size of a stack is sent as a number.
pub proof fn lemma_max_stack_size_is_sent(v: MaxStackSizeImpl, c: Ctx)
    ensures
        sent(MaxStackSizeImpl::format(), c, MaxStackSizeImpl::val(v), var_int(v.size as int)),
        forall|w: MaxStackSizeImpl| #[trigger] MaxStackSizeImpl::val(w) == MaxStackSizeImpl::val(v) ==> w.size == v.size,
{
    lemma_sent_number(c, StackSize::check(), <Coded<StackSize> as DataComponentCodec>::val(v.size), v.size as int);
}
/// The durability of an item is sent as a number.
pub proof fn lemma_max_damage_is_sent(v: MaxDamageImpl, c: Ctx)
    ensures
        sent(MaxDamageImpl::format(), c, MaxDamageImpl::val(v), var_int(v.max_damage as int)),
        forall|w: MaxDamageImpl| #[trigger] MaxDamageImpl::val(w) == MaxDamageImpl::val(v) ==> w.max_damage == v.max_damage,
{
    lemma_sent_var_int(c, v.max_damage);
}
/// The damage of an item is sent as a number.
pub proof fn lemma_damage_is_sent(v: DamageImpl, c: Ctx)
    ensures
        sent(DamageImpl::format(), c, DamageImpl::val(v), var_int(v.damage as int)),
        forall|w: DamageImpl| #[trigger] DamageImpl::val(w) == DamageImpl::val(v) ==> w.damage == v.damage,
{
    lemma_sent_var_int(c, v.damage);
}
/// The model of an item is sent by its name.
pub proof fn lemma_item_model_is_sent(v: ItemModelImpl, c: Ctx)
    requires
        text_fits(v.id@, MAX_TEXT_BYTES as nat),
    ensures
        sent(ItemModelImpl::format(), c, ItemModelImpl::val(v), text(v.id@)),
        forall|w: ItemModelImpl| #[trigger] ItemModelImpl::val(w) == ItemModelImpl::val(v) ==> w.id@ == v.id@,
{
    lemma_sent_text(c, v.id@);
}
/// A rarity is sent as its number.
pub proof fn lemma_rarity_is_sent(v: RarityImpl, c: Ctx)
    ensures
        sent(RarityImpl::format(), c, RarityImpl::val(v), var_int(rarity_number(v.rarity))),
        forall|w: RarityImpl| #[trigger] RarityImpl::val(w) == RarityImpl::val(v) ==> w.rarity == v.rarity,
{
    lemma_sent_number(c, AsRarity::check(), <Coded<AsRarity> as DataComponentCodec>::val(v.rarity), rarity_number(v.rarity));
}
/// The data of a model is sent as four lists: floats, flags, strings and colours.
pub proof fn lemma_model_data_is_sent(v: CustomModelDataImpl, c: Ctx)
    requires
        v.floats@.len() <= i32::MAX,
        v.flags@.len() <= i32::MAX,
        v.strings@.len() <= i32::MAX,
        forall|k: int| 0 <= k < v.strings@.len() ==> text_fits((#[trigger] v.strings@[k])@, MAX_TEXT_BYTES as nat),
        v.colors@.len() <= i32::MAX,
    ensures
        sent(CustomModelDataImpl::format(), c, CustomModelDataImpl::val(v), counted(v.floats@.len(), |k: int| be_bytes(v.floats@[k] as nat, 4)) + (counted(v.flags@.len(), |k: int| byte_of(v.flags@[k])) + (counted(v.strings@.len(), |k: int| text(v.strings@[k]@)) + counted(v.colors@.len(), |k: int| be_signed(v.colors@[k] as int, 4))))),
        forall|w: CustomModelDataImpl| #[trigger] CustomModelDataImpl::val(w) == CustomModelDataImpl::val(v) ==> (w.floats@.len() == v.floats@.len() && forall|k: int| 0 <= k < w.floats@.len() ==> (#[trigger] w.floats@[k]) == v.floats@[k]) && (w.flags@.len() == v.flags@.len() && forall|k: int| 0 <= k < w.flags@.len() ==> (#[trigger] w.flags@[k]) == v.flags@[k]) && (w.strings@.len() == v.strings@.len() && forall|k: int| 0 <= k < w.strings@.len() ==> (#[trigger] w.strings@[k])@ == v.strings@[k]@) && (w.colors@.len() == v.colors@.len() && forall|k: int| 0 <= k < w.colors@.len() ==> (#[trigger] w.colors@[k]) == v.colors@[k]),
{
    assert forall|k: int| 0 <= k < vals::<AsF32>(v.floats@).len() implies sent(Format::Float(4), c, #[trigger] vals::<AsF32>(v.floats@)[k], be_bytes(v.floats@[k] as nat, 4)) by {
        lemma_sent_f32(c, v.floats@[k]);
    }
    lemma_sent_list(RawCount::rule(), RawCount::limit(), Format::Float(4), c, vals::<AsF32>(v.floats@), |k: int| be_bytes(v.floats@[k] as nat, 4));
    assert forall|k: int| 0 <= k < vals::<AsBool>(v.flags@).len() implies sent(Format::Bool, c, #[trigger] vals::<AsBool>(v.flags@)[k], byte_of(v.flags@[k])) by {
        lemma_sent_bool(c, v.flags@[k]);
    }
    lemma_sent_list(RawCount::rule(), RawCount::limit(), Format::Bool, c, vals::<AsBool>(v.flags@), |k: int| byte_of(v.flags@[k]));
    assert forall|k: int| 0 <= k < vals::<AsText>(v.strings@).len() implies sent(plain(), c, #[trigger] vals::<AsText>(v.strings@)[k], text(v.strings@[k]@)) by {
        lemma_sent_text(c, v.strings@[k]@);
    }
    lemma_sent_list(RawCount::rule(), RawCount::limit(), plain(), c, vals::<AsText>(v.strings@), |k: int| text(v.strings@[k]@));
    assert forall|k: int| 0 <= k < vals::<AsI32>(v.colors@).len() implies sent(Format::Signed(4), c, #[trigger] vals::<AsI32>(v.colors@)[k], be_signed(v.colors@[k] as int, 4)) by {
        lemma_sent_i32(c, v.colors@[k]);
    }
    lemma_sent_list(RawCount::rule(), RawCount::limit(), Format::Signed(4), c, vals::<AsI32>(v.colors@), |k: int| be_signed(v.colors@[k] as int, 4));
    lemma_sent_pair(<ListOf<RawCount, AsText> as DataComponentCodec>::format(), <ListOf<RawCount, AsI32> as DataComponentCodec>::format(), c, <ListOf<RawCount, AsText> as DataComponentCodec>::val(v.strings), <ListOf<RawCount, AsI32> as DataComponentCodec>::val(v.colors), counted(v.strings@.len(), |k: int| text(v.strings@[k]@)), counted(v.colors@.len(), |k: int| be_signed(v.colors@[k] as int, 4)));
    lemma_sent_pair(<ListOf<RawCount, AsBool> as DataComponentCodec>::format(), both(<ListOf<RawCount, AsText> as DataComponentCodec>::format(), <ListOf<RawCount, AsI32> as DataComponentCodec>::format()), c, <ListOf<RawCount, AsBool> as DataComponentCodec>::val(v.flags), pair(<ListOf<RawCount, AsText> as DataComponentCodec>::val(v.strings), <ListOf<RawCount, AsI32> as DataComponentCodec>::val(v.colors)), counted(v.flags@.len(), |k: int| byte_of(v.flags@[k])), counted(v.strings@.len(), |k: int| text(v.strings@[k]@)) + counted(v.colors@.len(), |k: int| be_signed(v.colors@[k] as int, 4)));
    lemma_sent_pair(<ListOf<RawCount, AsF32> as DataComponentCodec>::format(), both(<ListOf<RawCount, AsBool> as DataComponentCodec>::format(), both(<ListOf<RawCount, AsText> as DataComponentCodec>::format(), <ListOf<RawCount, AsI32> as DataComponentCodec>::format())), c, <ListOf<RawCount, AsF32> as DataComponentCodec>::val(v.floats), pair(<ListOf<RawCount, AsBool> as DataComponentCodec>::val(v.flags), pair(<ListOf<RawCount, AsText> as DataComponentCodec>::val(v.strings), <ListOf<RawCount, AsI32> as DataComponentCodec>::val(v.colors))), counted(v.floats@.len(), |k: int| be_bytes(v.floats@[k] as nat, 4)), counted(v.flags@.len(), |k: int| byte_of(v.flags@[k])) + (counted(v.strings@.len(), |k: int| text(v.strings@[k]@)) + counted(v.colors@.len(), |k: int| be_signed(v.colors@[k] as int, 4))));
    assert forall|w: CustomModelDataImpl| #[trigger] CustomModelDataImpl::val(w) == CustomModelDataImpl::val(v) implies (w.floats@.len() == v.floats@.len() && forall|k: int| 0 <= k < w.floats@.len() ==> (#[trigger] w.floats@[k]) == v.floats@[k]) && (w.flags@.len() == v.flags@.len() && forall|k: int| 0 <= k < w.flags@.len() ==> (#[trigger] w.flags@[k]) == v.flags@[k]) && (w.strings@.len() == v.strings@.len() && forall|k: int| 0 <= k < w.strings@.len() ==> (#[trigger] w.strings@[k])@ == v.strings@[k]@) && (w.colors@.len() == v.colors@.len() && forall|k: int| 0 <= k < w.colors@.len() ==> (#[trigger] w.colors@[k]) == v.colors@[k]) by {
        lemma_same_items::<AsF32>(w.floats@, v.floats@);
        lemma_same_items::<AsBool>(w.flags@, v.flags@);
        lemma_same_items::<AsText>(w.strings@, v.strings@);
        lemma_same_items::<AsI32>(w.colors@, v.colors@);
    }
}
/// The style of a tooltip is sent by its name.
pub proof fn lemma_tooltip_style_is_sent(v: TooltipStyleImpl, c: Ctx)
    requires
        text_fits(v.id@, MAX_TEXT_BYTES as nat),
    ensures
        sent(TooltipStyleImpl::format(), c, TooltipStyleImpl::val(v), text(v.id@)),
        forall|w: TooltipStyleImpl| #[trigger] TooltipStyleImpl::val(w) == TooltipStyleImpl::val(v) ==> w.id@ == v.id@,
{
    lemma_sent_text(c, v.id@);
}
/// The sound of a note block is sent by its name.
pub proof fn lemma_note_block_sound_is_sent(v: NoteBlockSoundImpl, c: Ctx)
    requires
        text_fits(v.sound@, MAX_TEXT_BYTES as nat),
    ensures
        sent(NoteBlockSoundImpl::format(), c, NoteBlockSoundImpl::val(v), text(v.sound@)),
        forall|w: NoteBlockSoundImpl| #[trigger] NoteBlockSoundImpl::val(w) == NoteBlockSoundImpl::val(v) ==> w.sound@ == v.sound@,
{
    lemma_sent_text(c, v.sound@);
}
/// The state of a block is sent as its properties, each with its name and its value.
pub proof fn lemma_block_state_is_sent(v: BlockStateImpl, c: Ctx)
    requires
        v.properties@.len() <= i32::MAX,
        forall|k: int| 0 <= k < v.properties@.len() ==> text_fits((#[trigger] v.properties@[k]).0@, MAX_TEXT_BYTES as nat),
        forall|k: int| 0 <= k < v.properties@.len() ==> text_fits((#[trigger] v.properties@[k]).1@, MAX_TEXT_BYTES as nat),
    ensures
        sent(BlockStateImpl::format(), c, BlockStateImpl::val(v), counted(v.properties@.len(), |k: int| text(v.properties@[k].0@) + text(v.properties@[k].1@))),
        forall|w: BlockStateImpl| #[trigger] BlockStateImpl::val(w) == BlockStateImpl::val(v) ==> (w.properties@.len() == v.properties@.len() && forall|k: int| 0 <= k < w.properties@.len() ==> (#[trigger] w.properties@[k]).0@ == v.properties@[k].0@ && (#[trigger] w.properties@[k]).1@ == v.properties@[k].1@),
{
    assert forall|k: int| 0 <= k < vals::<Both<AsText, AsText>>(v.properties@).len() implies sent(<Both<AsText, AsText> as DataComponentCodec>::format(), c, #[trigger] vals::<Both<AsText, AsText>>(v.properties@)[k], text(v.properties@[k].0@) + text(v.properties@[k].1@)) by {
        lemma_sent_text(c, v.properties@[k].0@);
        lemma_sent_text(c, v.properties@[k].1@);
        lemma_sent_pair(plain(), plain(), c, Val::Text(v.properties@[k].0@), Val::Text(v.properties@[k].1@), text(v.properties@[k].0@), text(v.properties@[k].1@));
    }
    lemma_sent_list(RawCount::rule(), RawCount::limit(), <Both<AsText, AsText> as DataComponentCodec>::format(), c, vals::<Both<AsText, AsText>>(v.properties@), |k: int| text(v.properties@[k].0@) + text(v.properties@[k].1@));
    assert forall|w: BlockStateImpl| #[trigger] BlockStateImpl::val(w) == BlockStateImpl::val(v) implies (w.properties@.len() == v.properties@.len() && forall|k: int| 0 <= k < w.properties@.len() ==> (#[trigger] w.properties@[k]).0@ == v.properties@[k].0@ && (#[trigger] w.properties@[k]).1@ == v.properties@[k].1@) by {
        lemma_same_items::<Both<AsText, AsText>>(w.properties@, v.properties@);
    }
}
/// The least charge of an attack is sent as its bits.
pub proof fn lemma_minimum_charge_is_sent(v: MinimumAttackChargeImpl, c: Ctx)
    ensures
        sent(MinimumAttackChargeImpl::format(), c, MinimumAttackChargeImpl::val(v), be_bytes(v.charge as nat, 4)),
        forall|w: MinimumAttackChargeImpl| #[trigger] MinimumAttackChargeImpl::val(w) == MinimumAttackChargeImpl::val(v) ==> w.charge == v.charge,
{
    lemma_sent_f32(c, v.charge);
}
/// A type of damage is sent as its number.
pub proof fn lemma_damage_type_is_sent(v: DamageTypeImpl, c: Ctx)
    requires
        v.damage_type < c.regs.damage_types@.len(),
    ensures
        sent(DamageTypeImpl::format(), c, DamageTypeImpl::val(v), var_int(v.damage_type as int)),
        forall|w: DamageTypeImpl| #[trigger] DamageTypeImpl::val(w) == DamageTypeImpl::val(v) ==> w.damage_type == v.damage_type,
{
    lemma_sent_number(c, AsDamageType::check(), <Coded<AsDamageType> as DataComponentCodec>::val(v.damage_type), v.damage_type as int);
}
/// Enchantments are sent as their numbers and levels.
pub proof fn lemma_enchantments_is_sent(v: EnchantmentsImpl, c: Ctx)
    requires
        v.enchantment@.len() <= 256,
        forall|k: int| 0 <= k < v.enchantment@.len() ==> enchantment_known(c.regs, (#[trigger] v.enchantment@[k]).0 as int),
    ensures
        sent(EnchantmentsImpl::format(), c, EnchantmentsImpl::val(v), counted(v.enchantment@.len(), |k: int| var_int(v.enchantment@[k].0 as int) + var_int(v.enchantment@[k].1 as int))),
        forall|w: EnchantmentsImpl| #[trigger] EnchantmentsImpl::val(w) == EnchantmentsImpl::val(v) ==> (w.enchantment@.len() == v.enchantment@.len() && forall|k: int| 0 <= k < w.enchantment@.len() ==> (#[trigger] w.enchantment@[k]) == v.enchantment@[k]),
{
    assert forall|k: int| 0 <= k < vals::<AsLeveled<UnknownEnchantment>>(v.enchantment@).len() implies sent(<AsLeveled<UnknownEnchantment> as DataComponentCodec>::format(), c, #[trigger] vals::<AsLeveled<UnknownEnchantment>>(v.enchantment@)[k], var_int(v.enchantment@[k].0 as int) + var_int(v.enchantment@[k].1 as int)) by {
        lemma_leveled_is_sent(v.enchantment@[k], UnknownEnchantment::spec_text(), c);
    }
    lemma_sent_list(EnchantmentCount::rule(), EnchantmentCount::limit(), <AsLeveled<UnknownEnchantment> as DataComponentCodec>::format(), c, vals::<AsLeveled<UnknownEnchantment>>(v.enchantment@), |k: int| var_int(v.enchantment@[k].0 as int) + var_int(v.enchantment@[k].1 as int));
    assert forall|w: EnchantmentsImpl| #[trigger] EnchantmentsImpl::val(w) == EnchantmentsImpl::val(v) implies (w.enchantment@.len() == v.enchantment@.len() && forall|k: int| 0 <= k < w.enchantment@.len() ==> (#[trigger] w.enchantment@[k]) == v.enchantment@[k]) by {
        lemma_same_items::<AsLeveled<UnknownEnchantment>>(w.enchantment@, v.enchantment@);
    }
}
/// Stored enchantments are sent as their numbers and levels.
pub proof fn lemma_stored_enchantments_is_sent(v: StoredEnchantmentsImpl, c: Ctx)
    requires
        v.enchantment@.len() <= 256,
        forall|k: int| 0 <= k < v.enchantment@.len() ==> enchantment_known(c.regs, (#[trigger] v.enchantment@[k]).0 as int),
    ensures
        sent(StoredEnchantmentsImpl::format(), c, StoredEnchantmentsImpl::val(v), counted(v.enchantment@.len(), |k: int| var_int(v.enchantment@[k].0 as int) + var_int(v.enchantment@[k].1 as int))),
        forall|w: StoredEnchantmentsImpl| #[trigger] StoredEnchantmentsImpl::val(w) == StoredEnchantmentsImpl::val(v) ==> (w.enchantment@.len() == v.enchantment@.len() && forall|k: int| 0 <= k < w.enchantment@.len() ==> (#[trigger] w.enchantment@[k]) == v.enchantment@[k]),
{
    assert forall|k: int| 0 <= k < vals::<AsLeveled<UnknownStoredEnchantment>>(v.enchantment@).len() implies sent(<AsLeveled<UnknownStoredEnchantment> as DataComponentCodec>::format(), c, #[trigger] vals::<AsLeveled<UnknownStoredEnchantment>>(v.enchantment@)[k], var_int(v.enchantment@[k].0 as int) + var_int(v.enchantment@[k].1 as int)) by {
        lemma_leveled_is_sent(v.enchantment@[k], UnknownStoredEnchantment::spec_text(), c);
    }
    lemma_sent_list(EnchantmentCount::rule(), EnchantmentCount::limit(), <AsLeveled<UnknownStoredEnchantment> as DataComponentCodec>::format(), c, vals::<AsLeveled<UnknownStoredEnchantment>>(v.enchantment@), |k: int| var_int(v.enchantment@[k].0 as int) + var_int(v.enchantment@[k].1 as int));
    assert forall|w: StoredEnchantmentsImpl| #[trigger] StoredEnchantmentsImpl::val(w) == StoredEnchantmentsImpl::val(v) implies (w.enchantment@.len() == v.enchantment@.len() && forall|k: int| 0 <= k < w.enchantment@.len() ==> (#[trigger] w.enchantment@[k]) == v.enchantment@[k]) by {
        lemma_same_items::<AsLeveled<UnknownStoredEnchantment>>(w.enchantment@, v.enchantment@);
    }
}
/// The cost of a repair is sent as a number.
pub proof fn lemma_repair_cost_is_sent(v: RepairCostImpl, c: Ctx)
    ensures
        sent(RepairCostImpl::format(), c, RepairCostImpl::val(v), var_int(v.cost as int)),
        forall|w: RepairCostImpl| #[trigger] RepairCostImpl::val(w) == RepairCostImpl::val(v) ==> w.cost == v.cost,
{
    lemma_sent_var_int(c, v.cost);
}
/// A food is sent as its nutrition, the bits of its saturation, and one byte that is one exactly where it
/// can always be eaten.
pub proof fn lemma_food_is_sent(v: FoodImpl, c: Ctx)
    ensures
        sent(FoodImpl::format(), c, FoodImpl::val(v), var_int(v.nutrition as int) + (be_bytes(v.saturation as nat, 4) + byte_of(v.can_always_eat))),
        forall|w: FoodImpl| #[trigger] FoodImpl::val(w) == FoodImpl::val(v) ==> w.nutrition == v.nutrition && w.saturation == v.saturation && w.can_always_eat == v.can_always_eat,
{
    lemma_sent_var_int(c, v.nutrition);
    lemma_sent_f32(c, v.saturation);
    lemma_sent_bool(c, v.can_always_eat);
    lemma_sent_pair(Format::Float(4), Format::Bool, c, Val::Float(4, v.saturation as nat), Val::Bool(v.can_always_eat), be_bytes(v.saturation as nat, 4), byte_of(v.can_always_eat));
    lemma_sent_pair(Format::VarInt, both(Format::Float(4), Format::Bool), c, Val::Int(v.nutrition as int), pair(Val::Float(4, v.saturation as nat), Val::Bool(v.can_always_eat)), var_int(v.nutrition as int), be_bytes(v.saturation as nat, 4) + byte_of(v.can_always_eat));
}
/// A cooldown is sent as the bits of its seconds and its group.
pub proof fn lemma_use_cooldown_is_sent(v: UseCooldownImpl, c: Ctx)
    requires
        v.cooldown_group is Some ==> text_fits(v.cooldown_group->0@, MAX_TEXT_BYTES as nat),
    ensures
        sent(UseCooldownImpl::format(), c, UseCooldownImpl::val(v), be_bytes(v.seconds as nat, 4) + maybe(v.cooldown_group is Some, text(v.cooldown_group->0@))),
        forall|w: UseCooldownImpl| #[trigger] UseCooldownImpl::val(w) == UseCooldownImpl::val(v) ==> w.seconds == v.seconds && ((w.cooldown_group is Some <==> v.cooldown_group is Some) && (w.cooldown_group is Some ==> w.cooldown_group->0@ == v.cooldown_group->0@)),
{
    lemma_sent_f32(c, v.seconds);
    if v.cooldown_group is Some {
        lemma_sent_text(c, v.cooldown_group->0@);
        lemma_sent_present(plain(), c, Val::Text(v.cooldown_group->0@), text(v.cooldown_group->0@));
    } else {
        lemma_sent_absent(plain(), c);
    }
    lemma_sent_pair(Format::Float(4), opt(plain()), c, Val::Float(4, v.seconds as nat), <Opt<AsText> as DataComponentCodec>::val(v.cooldown_group), be_bytes(v.seconds as nat, 4), maybe(v.cooldown_group is Some, text(v.cooldown_group->0@)));
}
/// What an item resists is sent by its name.
pub proof fn lemma_damage_resistant_is_sent(v: DamageResistantImpl, c: Ctx)
    requires
        text_fits(v.res_type@, MAX_TEXT_BYTES as nat),
    ensures
        sent(DamageResistantImpl::format(), c, DamageResistantImpl::val(v), text(v.res_type@)),
        forall|w: DamageResistantImpl| #[trigger] DamageResistantImpl::val(w) == DamageResistantImpl::val(v) ==> w.res_type@ == v.res_type@,
{
    lemma_sent_text(c, v.res_type@);
}
/// A rule of a tool is sent as its blocks, its speed, and whether the blocks drop.
pub proof fn lemma_tool_rule_is_sent(v: ToolRule, c: Ctx)
    requires
        set_fits(v.blocks, RegistryKind::Block, c),
    ensures
        sent(ToolRule::format(), c, ToolRule::val(v), set_bytes(v.blocks) + (maybe(v.speed is Some, be_bytes(v.speed->0 as nat, 4)) + maybe(v.correct_for_drops is Some, byte_of(v.correct_for_drops->0)))),
        forall|w: ToolRule| #[trigger] ToolRule::val(w) == ToolRule::val(v) ==> id_set_val(w.blocks) == id_set_val(v.blocks) && ((w.speed is Some <==> v.speed is Some) && (w.speed is Some ==> w.speed->0 == v.speed->0)) && ((w.correct_for_drops is Some <==> v.correct_for_drops is Some) && (w.correct_for_drops is Some ==> w.correct_for_drops->0 == v.correct_for_drops->0)),
{
    lemma_set_is_sent(v.blocks, RegistryKind::Block, c);
    if v.speed is Some {
        lemma_sent_f32(c, v.speed->0);
        lemma_sent_present(Format::Float(4), c, Val::Float(4, v.speed->0 as nat), be_bytes(v.speed->0 as nat, 4));
    } else {
        lemma_sent_absent(Format::Float(4), c);
    }
    if v.correct_for_drops is Some {
        lemma_sent_bool(c, v.correct_for_drops->0);
        lemma_sent_present(Format::Bool, c, Val::Bool(v.correct_for_drops->0), byte_of(v.correct_for_drops->0));
    } else {
        lemma_sent_absent(Format::Bool, c);
    }
    lemma_sent_pair(opt(Format::Float(4)), opt(Format::Bool), c, <Opt<AsF32> as DataComponentCodec>::val(v.speed), <Opt<AsBool> as DataComponentCodec>::val(v.correct_for_drops), maybe(v.speed is Some, be_bytes(v.speed->0 as nat, 4)), maybe(v.correct_for_drops is Some, byte_of(v.correct_for_drops->0)));
    lemma_sent_pair(<SetOf<OfBlock> as DataComponentCodec>::format(), both(opt(Format::Float(4)), opt(Format::Bool)), c, <SetOf<OfBlock> as DataComponentCodec>::val(v.blocks), pair(<Opt<AsF32> as DataComponentCodec>::val(v.speed), <Opt<AsBool> as DataComponentCodec>::val(v.correct_for_drops)), set_bytes(v.blocks), maybe(v.speed is Some, be_bytes(v.speed->0 as nat, 4)) + maybe(v.correct_for_drops is Some, byte_of(v.correct_for_drops->0)));
}
/// A tool is sent as its rules, its speed, its wear, and whether it breaks blocks in creative mode.
pub proof fn lemma_tool_is_sent(v: ToolImpl, c: Ctx)
    requires
        v.rules@.len() <= i32::MAX,
        forall|k: int| 0 <= k < v.rules@.len() ==> set_fits((#[trigger] v.rules@[k]).blocks, RegistryKind::Block, c),
    ensures
        sent(ToolImpl::format(), c, ToolImpl::val(v), counted(v.rules@.len(), |k: int| set_bytes(v.rules@[k].blocks) + (maybe(v.rules@[k].speed is Some, be_bytes(v.rules@[k].speed->0 as nat, 4)) + maybe(v.rules@[k].correct_for_drops is Some, byte_of(v.rules@[k].correct_for_drops->0)))) + (be_bytes(v.default_mining_speed as nat, 4) + (groups(v.damage_per_block as nat) + byte_of(v.can_destroy_blocks_in_creative)))),
        forall|w: ToolImpl| #[trigger] ToolImpl::val(w) == ToolImpl::val(v) ==> (w.rules@.len() == v.rules@.len() && forall|k: int| 0 <= k < w.rules@.len() ==> ToolRule::val((#[trigger] w.rules@[k])) == ToolRule::val(v.rules@[k])) && w.default_mining_speed == v.default_mining_speed && w.damage_per_block == v.damage_per_block && w.can_destroy_blocks_in_creative == v.can_destroy_blocks_in_creative,
{
    assert forall|k: int| 0 <= k < vals::<ToolRule>(v.rules@).len() implies sent(ToolRule::format(), c, #[trigger] vals::<ToolRule>(v.rules@)[k], set_bytes(v.rules@[k].blocks) + (maybe(v.rules@[k].speed is Some, be_bytes(v.rules@[k].speed->0 as nat, 4)) + maybe(v.rules@[k].correct_for_drops is Some, byte_of(v.rules@[k].correct_for_drops->0)))) by {
        lemma_tool_rule_is_sent(v.rules@[k], c);
    }
    lemma_sent_list(RawCount::rule(), RawCount::limit(), ToolRule::format(), c, vals::<ToolRule>(v.rules@), |k: int| set_bytes(v.rules@[k].blocks) + (maybe(v.rules@[k].speed is Some, be_bytes(v.rules@[k].speed->0 as nat, 4)) + maybe(v.rules@[k].correct_for_drops is Some, byte_of(v.rules@[k].correct_for_drops->0))));
    lemma_sent_f32(c, v.default_mining_speed);
    lemma_sent_var_u32(c, v.damage_per_block);
    lemma_sent_bool(c, v.can_destroy_blocks_in_creative);
    lemma_sent_pair(Format::VarU32, Format::Bool, c, Val::Int(v.damage_per_block as int), Val::Bool(v.can_destroy_blocks_in_creative), groups(v.damage_per_block as nat), byte_of(v.can_destroy_blocks_in_creative));
    lemma_sent_pair(Format::Float(4), both(Format::VarU32, Format::Bool), c, Val::Float(4, v.default_mining_speed as nat), pair(Val::Int(v.damage_per_block as int), Val::Bool(v.can_destroy_blocks_in_creative)), be_bytes(v.default_mining_speed as nat, 4), groups(v.damage_per_block as nat) + byte_of(v.can_destroy_blocks_in_creative));
    lemma_sent_pair(<ListOf<RawCount, ToolRule> as DataComponentCodec>::format(), both(Format::Float(4), both(Format::VarU32, Format::Bool)), c, <ListOf<RawCount, ToolRule> as DataComponentCodec>::val(v.rules), pair(Val::Float(4, v.default_mining_speed as nat), pair(Val::Int(v.damage_per_block as int), Val::Bool(v.can_destroy_blocks_in_creative))), counted(v.rules@.len(), |k: int| set_bytes(v.rules@[k].blocks) + (maybe(v.rules@[k].speed is Some, be_bytes(v.rules@[k].speed->0 as nat, 4)) + maybe(v.rules@[k].correct_for_drops is Some, byte_of(v.rules@[k].correct_for_drops->0)))), be_bytes(v.default_mining_speed as nat, 4) + (groups(v.damage_per_block as nat) + byte_of(v.can_destroy_blocks_in_creative)));
    assert forall|w: ToolImpl| #[trigger] ToolImpl::val(w) == ToolImpl::val(v) implies (w.rules@.len() == v.rules@.len() && forall|k: int| 0 <= k < w.rules@.len() ==> ToolRule::val((#[trigger] w.rules@[k])) == ToolRule::val(v.rules@[k])) && w.default_mining_speed == v.default_mining_speed && w.damage_per_block == v.damage_per_block && w.can_destroy_blocks_in_creative == v.can_destroy_blocks_in_creative by {
        lemma_same_items::<ToolRule>(w.rules@, v.rules@);
    }
}
/// The range of an attack is sent as the bits of six numbers.
pub proof fn lemma_attack_range_is_sent(v: AttackRangeImpl, c: Ctx)
    ensures
        sent(AttackRangeImpl::format(), c, AttackRangeImpl::val(v), be_bytes(v.min_reach as nat, 4) + (be_bytes(v.max_reach as nat, 4) + (be_bytes(v.min_creative_reach as nat, 4) + (be_bytes(v.max_creative_reach as nat, 4) + (be_bytes(v.hitbox_margin as nat, 4) + be_bytes(v.mob_factor as nat, 4)))))),
        forall|w: AttackRangeImpl| #[trigger] AttackRangeImpl::val(w) == AttackRangeImpl::val(v) ==> w.min_reach == v.min_reach && w.max_reach == v.max_reach && w.min_creative_reach == v.min_creative_reach && w.max_creative_reach == v.max_creative_reach && w.hitbox_margin == v.hitbox_margin && w.mob_factor == v.mob_factor,
{
    lemma_sent_f32(c, v.min_reach);
    lemma_sent_f32(c, v.max_reach);
    lemma_sent_f32(c, v.min_creative_reach);
    lemma_sent_f32(c, v.max_creative_reach);
    lemma_sent_f32(c, v.hitbox_margin);
    lemma_sent_f32(c, v.mob_factor);
    lemma_sent_pair(Format::Float(4), Format::Float(4), c, Val::Float(4, v.hitbox_margin as nat), Val::Float(4, v.mob_factor as nat), be_bytes(v.hitbox_margin as nat, 4), be_bytes(v.mob_factor as nat, 4));
    lemma_sent_pair(Format::Float(4), both(Format::Float(4), Format::Float(4)), c, Val::Float(4, v.max_creative_reach as nat), pair(Val::Float(4, v.hitbox_margin as nat), Val::Float(4, v.mob_factor as nat)), be_bytes(v.max_creative_reach as nat, 4), be_bytes(v.hitbox_margin as nat, 4) + be_bytes(v.mob_factor as nat, 4));
    lemma_sent_pair(Format::Float(4), both(Format::Float(4), both(Format::Float(4), Format::Float(4))), c, Val::Float(4, v.min_creative_reach as nat), pair(Val::Float(4, v.max_creative_reach as nat), pair(Val::Float(4, v.hitbox_margin as nat), Val::Float(4, v.mob_factor as nat))), be_bytes(v.min_creative_reach as nat, 4), be_bytes(v.max_creative_reach as nat, 4) + (be_bytes(v.hitbox_margin as nat, 4) + be_bytes(v.mob_factor as nat, 4)));
    lemma_sent_pair(Format::Float(4), both(Format::Float(4), both(Format::Float(4), both(Format::Float(4), Format::Float(4)))), c, Val::Float(4, v.max_reach as nat), pair(Val::Float(4, v.min_creative_reach as nat), pair(Val::Float(4, v.max_creative_reach as nat), pair(Val::Float(4, v.hitbox_margin as nat), Val::Float(4, v.mob_factor as nat)))), be_bytes(v.max_reach as nat, 4), be_bytes(v.min_creative_reach as nat, 4) + (be_bytes(v.max_creative_reach as nat, 4) + (be_bytes(v.hitbox_margin as nat, 4) + be_bytes(v.mob_factor as nat, 4))));
    lemma_sent_pair(Format::Float(4), both(Format::Float(4), both(Format::Float(4), both(Format::Float(4), both(Format::Float(4), Format::Float(4))))), c, Val::Float(4, v.min_reach as nat), pair(Val::Float(4, v.max_reach as nat), pair(Val::Float(4, v.min_creative_reach as nat), pair(Val::Float(4, v.max_creative_reach as nat), pair(Val::Float(4, v.hitbox_margin as nat), Val::Float(4, v.mob_factor as nat))))), be_bytes(v.min_reach as nat, 4), be_bytes(v.max_reach as nat, 4) + (be_bytes(v.min_creative_reach as nat, 4) + (be_bytes(v.max_creative_reach as nat, 4) + (be_bytes(v.hitbox_margin as nat, 4) + be_bytes(v.mob_factor as nat, 4)))));
}
/// How well an item is enchanted is sent as a number.
pub proof fn lemma_enchantable_is_sent(v: EnchantableImpl, c: Ctx)
    ensures
        sent(EnchantableImpl::format(), c, EnchantableImpl::val(v), var_int(v.value as int)),
        forall|w: EnchantableImpl| #[trigger] EnchantableImpl::val(w) == EnchantableImpl::val(v) ==> w.value == v.value,
{
    lemma_sent_var_int(c, v.value);
}
/// How an item is worn is sent as its place, its sound, its names, who can wear it, five flags in the
/// order of the fields, and the sound of shearing it off.
pub proof fn lemma_equippable_is_sent(v: EquippableImpl, c: Ctx)
    requires
        sound_fits(v.equip_sound, c),
        v.asset_id is Some ==> text_fits(v.asset_id->0@, MAX_TEXT_BYTES as nat),
        v.camera_overlay is Some ==> text_fits(v.camera_overlay->0@, MAX_TEXT_BYTES as nat),
        v.allowed_entities is Some ==> set_fits(v.allowed_entities->0, RegistryKind::EntityType, c),
        sound_fits(v.shearing_sound, c),
    ensures
        sent(EquippableImpl::format(), c, EquippableImpl::val(v), var_int(slot_number(v.slot)) + (sound_bytes(v.equip_sound) + (maybe(v.asset_id is Some, text(v.asset_id->0@)) + (maybe(v.camera_overlay is Some, text(v.camera_overlay->0@)) + (maybe(v.allowed_entities is Some, set_bytes(v.allowed_entities->0)) + (byte_of(v.dispensable) + (byte_of(v.swappable) + (byte_of(v.damage_on_hurt) + (byte_of(v.equip_on_interact) + (byte_of(v.can_be_sheared) + sound_bytes(v.shearing_sound))))))))))),
        forall|w: EquippableImpl| #[trigger] EquippableImpl::val(w) == EquippableImpl::val(v) ==> w.slot == v.slot && sound_val(w.equip_sound) == sound_val(v.equip_sound) && ((w.asset_id is Some <==> v.asset_id is Some) && (w.asset_id is Some ==> w.asset_id->0@ == v.asset_id->0@)) && ((w.camera_overlay is Some <==> v.camera_overlay is Some) && (w.camera_overlay is Some ==> w.camera_overlay->0@ == v.camera_overlay->0@)) && ((w.allowed_entities is Some <==> v.allowed_entities is Some) && (w.allowed_entities is Some ==> id_set_val(w.allowed_entities->0) == id_set_val(v.allowed_entities->0))) && w.dispensable == v.dispensable && w.swappable == v.swappable && w.damage_on_hurt == v.damage_on_hurt && w.equip_on_interact == v.equip_on_interact && w.can_be_sheared == v.can_be_sheared && sound_val(w.shearing_sound) == sound_val(v.shearing_sound),
{
    lemma_sent_number(c, AsEquipmentSlot::check(), <Coded<AsEquipmentSlot> as DataComponentCodec>::val(v.slot), slot_number(v.slot));
    lemma_sound_is_sent(v.equip_sound, true, InvalidEquipSound::spec_text(), "", c);
    if v.asset_id is Some {
        lemma_sent_text(c, v.asset_id->0@);
        lemma_sent_present(plain(), c, Val::Text(v.asset_id->0@), text(v.asset_id->0@));
    } else {
        lemma_sent_absent(plain(), c);
    }
    if v.camera_overlay is Some {
        lemma_sent_text(c, v.camera_overlay->0@);
        lemma_sent_present(plain(), c, Val::Text(v.camera_overlay->0@), text(v.camera_overlay->0@));
    } else {
        lemma_sent_absent(plain(), c);
    }
    if v.allowed_entities is Some {
        lemma_set_is_sent(v.allowed_entities->0, RegistryKind::EntityType, c);
        lemma_sent_present(<SetOf<OfEntityType> as DataComponentCodec>::format(), c, <SetOf<OfEntityType> as DataComponentCodec>::val(v.allowed_entities->0), set_bytes(v.allowed_entities->0));
    } else {
        lemma_sent_absent(<SetOf<OfEntityType> as DataComponentCodec>::format(), c);
    }
    lemma_sent_bool(c, v.dispensable);
    lemma_sent_bool(c, v.swappable);
    lemma_sent_bool(c, v.damage_on_hurt);
    lemma_sent_bool(c, v.equip_on_interact);
    lemma_sent_bool(c, v.can_be_sheared);
    lemma_sound_is_sent(v.shearing_sound, true, InvalidShearingSound::spec_text(), "", c);
    lemma_sent_pair(Format::Bool, <KnownSound<InvalidShearingSound> as DataComponentCodec>::format(), c, Val::Bool(v.can_be_sheared), <KnownSound<InvalidShearingSound> as DataComponentCodec>::val(v.shearing_sound), byte_of(v.can_be_sheared), sound_bytes(v.shearing_sound));
    lemma_sent_pair(Format::Bool, both(Format::Bool, <KnownSound<InvalidShearingSound> as DataComponentCodec>::format()), c, Val::Bool(v.equip_on_interact), pair(Val::Bool(v.can_be_sheared), <KnownSound<InvalidShearingSound> as DataComponentCodec>::val(v.shearing_sound)), byte_of(v.equip_on_interact), byte_of(v.can_be_sheared) + sound_bytes(v.shearing_sound));
    lemma_sent_pair(Format::Bool, both(Format::Bool, both(Format::Bool, <KnownSound<InvalidShearingSound> as DataComponentCodec>::format())), c, Val::Bool(v.damage_on_hurt), pair(Val::Bool(v.equip_on_interact), pair(Val::Bool(v.can_be_sheared), <KnownSound<InvalidShearingSound> as DataComponentCodec>::val(v.shearing_sound))), byte_of(v.damage_on_hurt), byte_of(v.equip_on_interact) + (byte_of(v.can_be_sheared) + sound_bytes(v.shearing_sound)));
    lemma_sent_pair(Format::Bool, both(Format::Bool, both(Format::Bool, both(Format::Bool, <KnownSound<InvalidShearingSound> as DataComponentCodec>::format()))), c, Val::Bool(v.swappable), pair(Val::Bool(v.damage_on_hurt), pair(Val::Bool(v.equip_on_interact), pair(Val::Bool(v.can_be_sheared), <KnownSound<InvalidShearingSound> as DataComponentCodec>::val(v.shearing_sound)))), byte_of(v.swappable), byte_of(v.damage_on_hurt) + (byte_of(v.equip_on_interact) + (byte_of(v.can_be_sheared) + sound_bytes(v.shearing_sound))));
    lemma_sent_pair(Format::Bool, both(Format::Bool, both(Format::Bool, both(Format::Bool, both(Format::Bool, <KnownSound<InvalidShearingSound> as DataComponentCodec>::format())))), c, Val::Bool(v.dispensable), pair(Val::Bool(v.swappable), pair(Val::Bool(v.damage_on_hurt), pair(Val::Bool(v.equip_on_interact), pair(Val::Bool(v.can_be_sheared), <KnownSound<InvalidShearingSound> as DataComponentCodec>::val(v.shearing_sound))))), byte_of(v.dispensable), byte_of(v.swappable) + (byte_of(v.damage_on_hurt) + (byte_of(v.equip_on_interact) + (byte_of(v.can_be_sheared) + sound_bytes(v.shearing_sound)))));
    lemma_sent_pair(opt(<SetOf<OfEntityType> as DataComponentCodec>::format()), both(Format::Bool, both(Format::Bool, both(Format::Bool, both(Format::Bool, both(Format::Bool, <KnownSound<InvalidShearingSound> as DataComponentCodec>::format()))))), c, <Opt<SetOf<OfEntityType>> as DataComponentCodec>::val(v.allowed_entities), pair(Val::Bool(v.dispensable), pair(Val::Bool(v.swappable), pair(Val::Bool(v.damage_on_hurt), pair(Val::Bool(v.equip_on_interact), pair(Val::Bool(v.can_be_sheared), <KnownSound<InvalidShearingSound> as DataComponentCodec>::val(v.shearing_sound)))))), maybe(v.allowed_entities is Some, set_bytes(v.allowed_entities->0)), byte_of(v.dispensable) + (byte_of(v.swappable) + (byte_of(v.damage_on_hurt) + (byte_of(v.equip_on_interact) + (byte_of(v.can_be_sheared) + sound_bytes(v.shearing_sound))))));
    lemma_sent_pair(opt(plain()), both(opt(<SetOf<OfEntityType> as DataComponentCodec>::format()), both(Format::Bool, both(Format::Bool, both(Format::Bool, both(Format::Bool, both(Format::Bool, <KnownSound<InvalidShearingSound> as DataComponentCodec>::format())))))), c, <Opt<AsText> as DataComponentCodec>::val(v.camera_overlay), pair(<Opt<SetOf<OfEntityType>> as DataComponentCodec>::val(v.allowed_entities), pair(Val::Bool(v.dispensable), pair(Val::Bool(v.swappable), pair(Val::Bool(v.damage_on_hurt), pair(Val::Bool(v.equip_on_interact), pair(Val::Bool(v.can_be_sheared), <KnownSound<InvalidShearingSound> as DataComponentCodec>::val(v.shearing_sound))))))), maybe(v.camera_overlay is Some, text(v.camera_overlay->0@)), maybe(v.allowed_entities is Some, set_bytes(v.allowed_entities->0)) + (byte_of(v.dispensable) + (byte_of(v.swappable) + (byte_of(v.damage_on_hurt) + (byte_of(v.equip_on_interact) + (byte_of(v.can_be_sheared) + sound_bytes(v.shearing_sound)))))));
    lemma_sent_pair(opt(plain()), both(opt(plain()), both(opt(<SetOf<OfEntityType> as DataComponentCodec>::format()), both(Format::Bool, both(Format::Bool, both(Format::Bool, both(Format::Bool, both(Format::Bool, <KnownSound<InvalidShearingSound> as DataComponentCodec>::format()))))))), c, <Opt<AsText> as DataComponentCodec>::val(v.asset_id), pair(<Opt<AsText> as DataComponentCodec>::val(v.camera_overlay), pair(<Opt<SetOf<OfEntityType>> as DataComponentCodec>::val(v.allowed_entities), pair(Val::Bool(v.dispensable), pair(Val::Bool(v.swappable), pair(Val::Bool(v.damage_on_hurt), pair(Val::Bool(v.equip_on_interact), pair(Val::Bool(v.can_be_sheared), <KnownSound<InvalidShearingSound> as DataComponentCodec>::val(v.shearing_sound)))))))), maybe(v.asset_id is Some, text(v.asset_id->0@)), maybe(v.camera_overlay is Some, text(v.camera_overlay->0@)) + (maybe(v.allowed_entities is Some, set_bytes(v.allowed_entities->0)) + (byte_of(v.dispensable) + (byte_of(v.swappable) + (byte_of(v.damage_on_hurt) + (byte_of(v.equip_on_interact) + (byte_of(v.can_be_sheared) + sound_bytes(v.shearing_sound))))))));
    lemma_sent_pair(<KnownSound<InvalidEquipSound> as DataComponentCodec>::format(), both(opt(plain()), both(opt(plain()), both(opt(<SetOf<OfEntityType> as DataComponentCodec>::format()), both(Format::Bool, both(Format::Bool, both(Format::Bool, both(Format::Bool, both(Format::Bool, <KnownSound<InvalidShearingSound> as DataComponentCodec>::format())))))))), c, <KnownSound<InvalidEquipSound> as DataComponentCodec>::val(v.equip_sound), pair(<Opt<AsText> as DataComponentCodec>::val(v.asset_id), pair(<Opt<AsText> as DataComponentCodec>::val(v.camera_overlay), pair(<Opt<SetOf<OfEntityType>> as DataComponentCodec>::val(v.allowed_entities), pair(Val::Bool(v.dispensable), pair(Val::Bool(v.swappable), pair(Val::Bool(v.damage_on_hurt), pair(Val::Bool(v.equip_on_interact), pair(Val::Bool(v.can_be_sheared), <KnownSound<InvalidShearingSound> as DataComponentCodec>::val(v.shearing_sound))))))))), sound_bytes(v.equip_sound), maybe(v.asset_id is Some, text(v.asset_id->0@)) + (maybe(v.camera_overlay is Some, text(v.camera_overlay->0@)) + (maybe(v.allowed_entities is Some, set_bytes(v.allowed_entities->0)) + (byte_of(v.dispensable) + (byte_of(v.swappable) + (byte_of(v.damage_on_hurt) + (byte_of(v.equip_on_interact) + (byte_of(v.can_be_sheared) + sound_bytes(v.shearing_sound)))))))));
    lemma_sent_pair(<Coded<AsEquipmentSlot> as DataComponentCodec>::format(), both(<KnownSound<InvalidEquipSound> as DataComponentCodec>::format(), both(opt(plain()), both(opt(plain()), both(opt(<SetOf<OfEntityType> as DataComponentCodec>::format()), both(Format::Bool, both(Format::Bool, both(Format::Bool, both(Format::Bool, both(Format::Bool, <KnownSound<InvalidShearingSound> as DataComponentCodec>::format()))))))))), c, <Coded<AsEquipmentSlot> as DataComponentCodec>::val(v.slot), pair(<KnownSound<InvalidEquipSound> as DataComponentCodec>::val(v.equip_sound), pair(<Opt<AsText> as DataComponentCodec>::val(v.asset_id), pair(<Opt<AsText> as DataComponentCodec>::val(v.camera_overlay), pair(<Opt<SetOf<OfEntityType>> as DataComponentCodec>::val(v.allowed_entities), pair(Val::Bool(v.dispensable), pair(Val::Bool(v.swappable), pair(Val::Bool(v.damage_on_hurt), pair(Val::Bool(v.equip_on_interact), pair(Val::Bool(v.can_be_sheared), <KnownSound<InvalidShearingSound> as DataComponentCodec>::val(v.shearing_sound)))))))))), var_int(slot_number(v.slot)), sound_bytes(v.equip_sound) + (maybe(v.asset_id is Some, text(v.asset_id->0@)) + (maybe(v.camera_overlay is Some, text(v.camera_overlay->0@)) + (maybe(v.allowed_entities is Some, set_bytes(v.allowed_entities->0)) + (byte_of(v.dispensable) + (byte_of(v.swappable) + (byte_of(v.damage_on_hurt) + (byte_of(v.equip_on_interact) + (byte_of(v.can_be_sheared) + sound_bytes(v.shearing_sound))))))))));
}
/// What repairs an item is sent as a set of items.
pub proof fn lemma_repairable_is_sent(v: RepairableImpl, c: Ctx)
    requires
        set_fits(v.items, RegistryKind::Item, c),
    ensures
        sent(RepairableImpl::format(), c, RepairableImpl::val(v), set_bytes(v.items)),
        forall|w: RepairableImpl| #[trigger] RepairableImpl::val(w) == RepairableImpl::val(v) ==> id_set_val(w.items) == id_set_val(v.items),
{
    lemma_set_is_sent(v.items, RegistryKind::Item, c);
}
/// A piercing weapon is sent as two flags and two sounds.
pub proof fn lemma_piercing_weapon_is_sent(v: PiercingWeaponImpl, c: Ctx)
    requires
        v.sound is Some ==> sound_fits(v.sound->0, c),
        v.hit_sound is Some ==> sound_fits(v.hit_sound->0, c),
    ensures
        sent(PiercingWeaponImpl::format(), c, PiercingWeaponImpl::val(v), byte_of(v.deals_knockback) + (byte_of(v.dismounts) + (maybe(v.sound is Some, sound_bytes(v.sound->0)) + maybe(v.hit_sound is Some, sound_bytes(v.hit_sound->0))))),
        forall|w: PiercingWeaponImpl| #[trigger] PiercingWeaponImpl::val(w) == PiercingWeaponImpl::val(v) ==> w.deals_knockback == v.deals_knockback && w.dismounts == v.dismounts && opt_sound_val(w.sound) == opt_sound_val(v.sound) && opt_sound_val(w.hit_sound) == opt_sound_val(v.hit_sound),
{
    lemma_sent_bool(c, v.deals_knockback);
    lemma_sent_bool(c, v.dismounts);
    lemma_optional_sound_is_sent(v.sound, NoSound::spec_text(), c);
    lemma_optional_sound_is_sent(v.hit_sound, NoSound::spec_text(), c);
    lemma_sent_pair(<OptionalSound<NoSound> as DataComponentCodec>::format(), <OptionalSound<NoSound> as DataComponentCodec>::format(), c, <OptionalSound<NoSound> as DataComponentCodec>::val(v.sound), <OptionalSound<NoSound> as DataComponentCodec>::val(v.hit_sound), maybe(v.sound is Some, sound_bytes(v.sound->0)), maybe(v.hit_sound is Some, sound_bytes(v.hit_sound->0)));
    lemma_sent_pair(Format::Bool, both(<OptionalSound<NoSound> as DataComponentCodec>::format(), <OptionalSound<NoSound> as DataComponentCodec>::format()), c, Val::Bool(v.dismounts), pair(<OptionalSound<NoSound> as DataComponentCodec>::val(v.sound), <OptionalSound<NoSound> as DataComponentCodec>::val(v.hit_sound)), byte_of(v.dismounts), maybe(v.sound is Some, sound_bytes(v.sound->0)) + maybe(v.hit_sound is Some, sound_bytes(v.hit_sound->0)));
    lemma_sent_pair(Format::Bool, both(Format::Bool, both(<OptionalSound<NoSound> as DataComponentCodec>::format(), <OptionalSound<NoSound> as DataComponentCodec>::format())), c, Val::Bool(v.deals_knockback), pair(Val::Bool(v.dismounts), pair(<OptionalSound<NoSound> as DataComponentCodec>::val(v.sound), <OptionalSound<NoSound> as DataComponentCodec>::val(v.hit_sound))), byte_of(v.deals_knockback), byte_of(v.dismounts) + (maybe(v.sound is Some, sound_bytes(v.sound->0)) + maybe(v.hit_sound is Some, sound_bytes(v.hit_sound->0))));
}
/// A condition of a kinetic weapon is sent as its duration and the bits of two speeds.
pub proof fn lemma_kinetic_condition_is_sent(v: KineticConditionImpl, c: Ctx)
    ensures
        sent(KineticConditionImpl::format(), c, KineticConditionImpl::val(v), var_int(v.max_duration_ticks as int) + (be_bytes(v.min_speed as nat, 4) + be_bytes(v.min_relative_speed as nat, 4))),
        forall|w: KineticConditionImpl| #[trigger] KineticConditionImpl::val(w) == KineticConditionImpl::val(v) ==> w.max_duration_ticks == v.max_duration_ticks && w.min_speed == v.min_speed && w.min_relative_speed == v.min_relative_speed,
{
    lemma_sent_var_int(c, v.max_duration_ticks);
    lemma_sent_f32(c, v.min_speed);
    lemma_sent_f32(c, v.min_relative_speed);
    lemma_sent_pair(Format::Float(4), Format::Float(4), c, Val::Float(4, v.min_speed as nat), Val::Float(4, v.min_relative_speed as nat), be_bytes(v.min_speed as nat, 4), be_bytes(v.min_relative_speed as nat, 4));
    lemma_sent_pair(Format::VarInt, both(Format::Float(4), Format::Float(4)), c, Val::Int(v.max_duration_ticks as int), pair(Val::Float(4, v.min_speed as nat), Val::Float(4, v.min_relative_speed as nat)), var_int(v.max_duration_ticks as int), be_bytes(v.min_speed as nat, 4) + be_bytes(v.min_relative_speed as nat, 4));
}
/// A kinetic weapon is sent as two durations, three conditions, the bits of two numbers, and two sounds.
pub proof fn lemma_kinetic_weapon_is_sent(v: KineticWeaponImpl, c: Ctx)
    requires
        v.sound is Some ==> sound_fits(v.sound->0, c),
        v.hit_sound is Some ==> sound_fits(v.hit_sound->0, c),
    ensures
        sent(KineticWeaponImpl::format(), c, KineticWeaponImpl::val(v), var_int(v.contact_cooldown_ticks as int) + (var_int(v.delay_ticks as int) + (maybe(v.dismount_conditions is Some, var_int(v.dismount_conditions->0.max_duration_ticks as int) + (be_bytes(v.dismount_conditions->0.min_speed as nat, 4) + be_bytes(v.dismount_conditions->0.min_relative_speed as nat, 4))) + (maybe(v.knockback_conditions is Some, var_int(v.knockback_conditions->0.max_duration_ticks as int) + (be_bytes(v.knockback_conditions->0.min_speed as nat, 4) + be_bytes(v.knockback_conditions->0.min_relative_speed as nat, 4))) + (maybe(v.damage_conditions is Some, var_int(v.damage_conditions->0.max_duration_ticks as int) + (be_bytes(v.damage_conditions->0.min_speed as nat, 4) + be_bytes(v.damage_conditions->0.min_relative_speed as nat, 4))) + (be_bytes(v.forward_movement as nat, 4) + (be_bytes(v.damage_multiplier as nat, 4) + (maybe(v.sound is Some, sound_bytes(v.sound->0)) + maybe(v.hit_sound is Some, sound_bytes(v.hit_sound->0)))))))))),
        forall|w: KineticWeaponImpl| #[trigger] KineticWeaponImpl::val(w) == KineticWeaponImpl::val(v) ==> w.contact_cooldown_ticks == v.contact_cooldown_ticks && w.delay_ticks == v.delay_ticks && ((w.dismount_conditions is Some <==> v.dismount_conditions is Some) && (w.dismount_conditions is Some ==> KineticConditionImpl::val(w.dismount_conditions->0) == KineticConditionImpl::val(v.dismount_conditions->0))) && ((w.knockback_conditions is Some <==> v.knockback_conditions is Some) && (w.knockback_conditions is Some ==> KineticConditionImpl::val(w.knockback_conditions->0) == KineticConditionImpl::val(v.knockback_conditions->0))) && ((w.damage_conditions is Some <==> v.damage_conditions is Some) && (w.damage_conditions is Some ==> KineticConditionImpl::val(w.damage_conditions->0) == KineticConditionImpl::val(v.damage_conditions->0))) && w.forward_movement == v.forward_movement && w.damage_multiplier == v.damage_multiplier && opt_sound_val(w.sound) == opt_sound_val(v.sound) && opt_sound_val(w.hit_sound) == opt_sound_val(v.hit_sound),
{
    lemma_sent_var_int(c, v.contact_cooldown_ticks);
    lemma_sent_var_int(c, v.delay_ticks);
    if v.dismount_conditions is Some {
        lemma_kinetic_condition_is_sent(v.dismount_conditions->0, c);
        lemma_sent_present(KineticConditionImpl::format(), c, KineticConditionImpl::val(v.dismount_conditions->0), var_int(v.dismount_conditions->0.max_duration_ticks as int) + (be_bytes(v.dismount_conditions->0.min_speed as nat, 4) + be_bytes(v.dismount_conditions->0.min_relative_speed as nat, 4)));
    } else {
        lemma_sent_absent(KineticConditionImpl::format(), c);
    }
    if v.knockback_conditions is Some {
        lemma_kinetic_condition_is_sent(v.knockback_conditions->0, c);
        lemma_sent_present(KineticConditionImpl::format(), c, KineticConditionImpl::val(v.knockback_conditions->0), var_int(v.knockback_conditions->0.max_duration_ticks as int) + (be_bytes(v.knockback_conditions->0.min_speed as nat, 4) + be_bytes(v.knockback_conditions->0.min_relative_speed as nat, 4)));
    } else {
        lemma_sent_absent(KineticConditionImpl::format(), c);
    }
    if v.damage_conditions is Some {
        lemma_kinetic_condition_is_sent(v.damage_conditions->0, c);
        lemma_sent_present(KineticConditionImpl::format(), c, KineticConditionImpl::val(v.damage_conditions->0), var_int(v.damage_conditions->0.max_duration_ticks as int) + (be_bytes(v.damage_conditions->0.min_speed as nat, 4) + be_bytes(v.damage_conditions->0.min_relative_speed as nat, 4)));
    } else {
        lemma_sent_absent(KineticConditionImpl::format(), c);
    }
    lemma_sent_f32(c, v.forward_movement);
    lemma_sent_f32(c, v.damage_multiplier);
    lemma_optional_sound_is_sent(v.sound, NoSound::spec_text(), c);
    lemma_optional_sound_is_sent(v.hit_sound, NoSound::spec_text(), c);
    lemma_sent_pair(<OptionalSound<NoSound> as DataComponentCodec>::format(), <OptionalSound<NoSound> as DataComponentCodec>::format(), c, <OptionalSound<NoSound> as DataComponentCodec>::val(v.sound), <OptionalSound<NoSound> as DataComponentCodec>::val(v.hit_sound), maybe(v.sound is Some, sound_bytes(v.sound->0)), maybe(v.hit_sound is Some, sound_bytes(v.hit_sound->0)));
    lemma_sent_pair(Format::Float(4), both(<OptionalSound<NoSound> as DataComponentCodec>::format(), <OptionalSound<NoSound> as DataComponentCodec>::format()), c, Val::Float(4, v.damage_multiplier as nat), pair(<OptionalSound<NoSound> as DataComponentCodec>::val(v.sound), <OptionalSound<NoSound> as DataComponentCodec>::val(v.hit_sound)), be_bytes(v.damage_multiplier as nat, 4), maybe(v.sound is Some, sound_bytes(v.sound->0)) + maybe(v.hit_sound is Some, sound_bytes(v.hit_sound->0)));
    lemma_sent_pair(Format::Float(4), both(Format::Float(4), both(<OptionalSound<NoSound> as DataComponentCodec>::format(), <OptionalSound<NoSound> as DataComponentCodec>::format())), c, Val::Float(4, v.forward_movement as nat), pair(Val::Float(4, v.damage_multiplier as nat), pair(<OptionalSound<NoSound> as DataComponentCodec>::val(v.sound), <OptionalSound<NoSound> as DataComponentCodec>::val(v.hit_sound))), be_bytes(v.forward_movement as nat, 4), be_bytes(v.damage_multiplier as nat, 4) + (maybe(v.sound is Some, sound_bytes(v.sound->0)) + maybe(v.hit_sound is Some, sound_bytes(v.hit_sound->0))));
    lemma_sent_pair(opt(KineticConditionImpl::format()), both(Format::Float(4), both(Format::Float(4), both(<OptionalSound<NoSound> as DataComponentCodec>::format(), <OptionalSound<NoSound> as DataComponentCodec>::format()))), c, <Opt<KineticConditionImpl> as DataComponentCodec>::val(v.damage_conditions), pair(Val::Float(4, v.forward_movement as nat), pair(Val::Float(4, v.damage_multiplier as nat), pair(<OptionalSound<NoSound> as DataComponentCodec>::val(v.sound), <OptionalSound<NoSound> as DataComponentCodec>::val(v.hit_sound)))), maybe(v.damage_conditions is Some, var_int(v.damage_conditions->0.max_duration_ticks as int) + (be_bytes(v.damage_conditions->0.min_speed as nat, 4) + be_bytes(v.damage_conditions->0.min_relative_speed as nat, 4))), be_bytes(v.forward_movement as nat, 4) + (be_bytes(v.damage_multiplier as nat, 4) + (maybe(v.sound is Some, sound_bytes(v.sound->0)) + maybe(v.hit_sound is Some, sound_bytes(v.hit_sound->0)))));
    lemma_sent_pair(opt(KineticConditionImpl::format()), both(opt(KineticConditionImpl::format()), both(Format::Float(4), both(Format::Float(4), both(<OptionalSound<NoSound> as DataComponentCodec>::format(), <OptionalSound<NoSound> as DataComponentCodec>::format())))), c, <Opt<KineticConditionImpl> as DataComponentCodec>::val(v.knockback_conditions), pair(<Opt<KineticConditionImpl> as DataComponentCodec>::val(v.damage_conditions), pair(Val::Float(4, v.forward_movement as nat), pair(Val::Float(4, v.damage_multiplier as nat), pair(<OptionalSound<NoSound> as DataComponentCodec>::val(v.sound), <OptionalSound<NoSound> as DataComponentCodec>::val(v.hit_sound))))), maybe(v.knockback_conditions is Some, var_int(v.knockback_conditions->0.max_duration_ticks as int) + (be_bytes(v.knockback_conditions->0.min_speed as nat, 4) + be_bytes(v.knockback_conditions->0.min_relative_speed as nat, 4))), maybe(v.damage_conditions is Some, var_int(v.damage_conditions->0.max_duration_ticks as int) + (be_bytes(v.damage_conditions->0.min_speed as nat, 4) + be_bytes(v.damage_conditions->0.min_relative_speed as nat, 4))) + (be_bytes(v.forward_movement as nat, 4) + (be_bytes(v.damage_multiplier as nat, 4) + (maybe(v.sound is Some, sound_bytes(v.sound->0)) + maybe(v.hit_sound is Some, sound_bytes(v.hit_sound->0))))));
    lemma_sent_pair(opt(KineticConditionImpl::format()), both(opt(KineticConditionImpl::format()), both(opt(KineticConditionImpl::format()), both(Format::Float(4), both(Format::Float(4), both(<OptionalSound<NoSound> as DataComponentCodec>::format(), <OptionalSound<NoSound> as DataComponentCodec>::format()))))), c, <Opt<KineticConditionImpl> as DataComponentCodec>::val(v.dismount_conditions), pair(<Opt<KineticConditionImpl> as DataComponentCodec>::val(v.knockback_conditions), pair(<Opt<KineticConditionImpl> as DataComponentCodec>::val(v.damage_conditions), pair(Val::Float(4, v.forward_movement as nat), pair(Val::Float(4, v.damage_multiplier as nat), pair(<OptionalSound<NoSound> as DataComponentCodec>::val(v.sound), <OptionalSound<NoSound> as DataComponentCodec>::val(v.hit_sound)))))), maybe(v.dismount_conditions is Some, var_int(v.dismount_conditions->0.max_duration_ticks as int) + (be_bytes(v.dismount_conditions->0.min_speed as nat, 4) + be_bytes(v.dismount_conditions->0.min_relative_speed as nat, 4))), maybe(v.knockback_conditions is Some, var_int(v.knockback_conditions->0.max_duration_ticks as int) + (be_bytes(v.knockback_conditions->0.min_speed as nat, 4) + be_bytes(v.knockback_conditions->0.min_relative_speed as nat, 4))) + (maybe(v.damage_conditions is Some, var_int(v.damage_conditions->0.max_duration_ticks as int) + (be_bytes(v.damage_conditions->0.min_speed as nat, 4) + be_bytes(v.damage_conditions->0.min_relative_speed as nat, 4))) + (be_bytes(v.forward_movement as nat, 4) + (be_bytes(v.damage_multiplier as nat, 4) + (maybe(v.sound is Some, sound_bytes(v.sound->0)) + maybe(v.hit_sound is Some, sound_bytes(v.hit_sound->0)))))));
    lemma_sent_pair(Format::VarInt, both(opt(KineticConditionImpl::format()), both(opt(KineticConditionImpl::format()), both(opt(KineticConditionImpl::format()), both(Format::Float(4), both(Format::Float(4), both(<OptionalSound<NoSound> as DataComponentCodec>::format(), <OptionalSound<NoSound> as DataComponentCodec>::format())))))), c, Val::Int(v.delay_ticks as int), pair(<Opt<KineticConditionImpl> as DataComponentCodec>::val(v.dismount_conditions), pair(<Opt<KineticConditionImpl> as DataComponentCodec>::val(v.knockback_conditions), pair(<Opt<KineticConditionImpl> as DataComponentCodec>::val(v.damage_conditions), pair(Val::Float(4, v.forward_movement as nat), pair(Val::Float(4, v.damage_multiplier as nat), pair(<OptionalSound<NoSound> as DataComponentCodec>::val(v.sound), <OptionalSound<NoSound> as DataComponentCodec>::val(v.hit_sound))))))), var_int(v.delay_ticks as int), maybe(v.dismount_conditions is Some, var_int(v.dismount_conditions->0.max_duration_ticks as int) + (be_bytes(v.dismount_conditions->0.min_speed as nat, 4) + be_bytes(v.dismount_conditions->0.min_relative_speed as nat, 4))) + (maybe(v.knockback_conditions is Some, var_int(v.knockback_conditions->0.max_duration_ticks as int) + (be_bytes(v.knockback_conditions->0.min_speed as nat, 4) + be_bytes(v.knockback_conditions->0.min_relative_speed as nat, 4))) + (maybe(v.damage_conditions is Some, var_int(v.damage_conditions->0.max_duration_ticks as int) + (be_bytes(v.damage_conditions->0.min_speed as nat, 4) + be_bytes(v.damage_conditions->0.min_relative_speed as nat, 4))) + (be_bytes(v.forward_movement as nat, 4) + (be_bytes(v.damage_multiplier as nat, 4) + (maybe(v.sound is Some, sound_bytes(v.sound->0)) + maybe(v.hit_sound is Some, sound_bytes(v.hit_sound->0))))))));
    lemma_sent_pair(Format::VarInt, both(Format::VarInt, both(opt(KineticConditionImpl::format()), both(opt(KineticConditionImpl::format()), both(opt(KineticConditionImpl::format()), both(Format::Float(4), both(Format::Float(4), both(<OptionalSound<NoSound> as DataComponentCodec>::format(), <OptionalSound<NoSound> as DataComponentCodec>::format()))))))), c, Val::Int(v.contact_cooldown_ticks as int), pair(Val::Int(v.delay_ticks as int), pair(<Opt<KineticConditionImpl> as DataComponentCodec>::val(v.dismount_conditions), pair(<Opt<KineticConditionImpl> as DataComponentCodec>::val(v.knockback_conditions), pair(<Opt<KineticConditionImpl> as DataComponentCodec>::val(v.damage_conditions), pair(Val::Float(4, v.forward_movement as nat), pair(Val::Float(4, v.damage_multiplier as nat), pair(<OptionalSound<NoSound> as DataComponentCodec>::val(v.sound), <OptionalSound<NoSound> as DataComponentCodec>::val(v.hit_sound)))))))), var_int(v.contact_cooldown_ticks as int), var_int(v.delay_ticks as int) + (maybe(v.dismount_conditions is Some, var_int(v.dismount_conditions->0.max_duration_ticks as int) + (be_bytes(v.dismount_conditions->0.min_speed as nat, 4) + be_bytes(v.dismount_conditions->0.min_relative_speed as nat, 4))) + (maybe(v.knockback_conditions is Some, var_int(v.knockback_conditions->0.max_duration_ticks as int) + (be_bytes(v.knockback_conditions->0.min_speed as nat, 4) + be_bytes(v.knockback_conditions->0.min_relative_speed as nat, 4))) + (maybe(v.damage_conditions is Some, var_int(v.damage_conditions->0.max_duration_ticks as int) + (be_bytes(v.damage_conditions->0.min_speed as nat, 4) + be_bytes(v.damage_conditions->0.min_relative_speed as nat, 4))) + (be_bytes(v.forward_movement as nat, 4) + (be_bytes(v.damage_multiplier as nat, 4) + (maybe(v.sound is Some, sound_bytes(v.sound->0)) + maybe(v.hit_sound is Some, sound_bytes(v.hit_sound->0)))))))));
}
/// How an item is swung is sent as the number of the animation and its duration.
pub proof fn lemma_swing_animation_is_sent(v: SwingAnimationImpl, c: Ctx)
    ensures
        sent(SwingAnimationImpl::format(), c, SwingAnimationImpl::val(v), var_int(swing_number(v.animation_type)) + var_int(v.duration as int)),
        forall|w: SwingAnimationImpl| #[trigger] SwingAnimationImpl::val(w) == SwingAnimationImpl::val(v) ==> w.animation_type == v.animation_type && w.duration == v.duration,
{
    lemma_sent_number(c, AsSwing::check(), <Coded<AsSwing> as DataComponentCodec>::val(v.animation_type), swing_number(v.animation_type));
    lemma_sent_var_int(c, v.duration);
    lemma_sent_pair(<Coded<AsSwing> as DataComponentCodec>::format(), Format::VarInt, c, <Coded<AsSwing> as DataComponentCodec>::val(v.animation_type), Val::Int(v.duration as int), var_int(swing_number(v.animation_type)), var_int(v.duration as int));
}
/// A dye is sent as the four bytes of its colour.
pub proof fn lemma_dyed_color_is_sent(v: DyedColorImpl, c: Ctx)
    ensures
        sent(DyedColorImpl::format(), c, DyedColorImpl::val(v), be_signed(v.rgb as int, 4)),
        forall|w: DyedColorImpl| #[trigger] DyedColorImpl::val(w) == DyedColorImpl::val(v) ==> w.rgb == v.rgb,
{
    lemma_sent_i32(c, v.rgb);
}
/// A map is sent as its number.
pub proof fn lemma_map_id_is_sent(v: MapIdImpl, c: Ctx)
    ensures
        sent(MapIdImpl::format(), c, MapIdImpl::val(v), var_int(v.id as int)),
        forall|w: MapIdImpl| #[trigger] MapIdImpl::val(w) == MapIdImpl::val(v) ==> w.id == v.id,
{
    lemma_sent_var_int(c, v.id);
}
/// The factor of the duration of a potion is sent as its bits.
pub proof fn lemma_potion_duration_scale_is_sent(v: PotionDurationScaleImpl, c: Ctx)
    ensures
        sent(PotionDurationScaleImpl::format(), c, PotionDurationScaleImpl::val(v), be_bytes(v.scale as nat, 4)),
        forall|w: PotionDurationScaleImpl| #[trigger] PotionDurationScaleImpl::val(w) == PotionDurationScaleImpl::val(v) ==> w.scale == v.scale,
{
    lemma_sent_f32(c, v.scale);
}
/// The amplifier of an ominous bottle is sent as a number.
pub proof fn lemma_ominous_bottle_is_sent(v: OminousBottleAmplifierImpl, c: Ctx)
    ensures
        sent(OminousBottleAmplifierImpl::format(), c, OminousBottleAmplifierImpl::val(v), var_int(v.amplifier as int)),
        forall|w: OminousBottleAmplifierImpl| #[trigger] OminousBottleAmplifierImpl::val(w) == OminousBottleAmplifierImpl::val(v) ==> w.amplifier == v.amplifier,
{
    lemma_sent_var_int(c, v.amplifier);
}
/// What a potion holds is sent as its number, its colour, its effects and its name.
pub proof fn lemma_potion_contents_is_sent(v: PotionContentsImpl, c: Ctx)
    requires
        v.custom_effects@.len() <= 128,
        forall|k: int| 0 <= k < v.custom_effects@.len() ==> effect_fits((#[trigger] v.custom_effects@[k]), c),
        v.custom_name is Some ==> text_fits(v.custom_name->0@, MAX_TEXT_BYTES as nat),
    ensures
        sent(PotionContentsImpl::format(), c, PotionContentsImpl::val(v), maybe(v.potion_id is Some, var_int(v.potion_id->0 as int)) + (maybe(v.custom_color is Some, be_signed(v.custom_color->0 as int, 4)) + (counted(v.custom_effects@.len(), |k: int| var_int(effect_number(v.custom_effects@[k].effect_id@, c)) + effect_bytes(v.custom_effects@[k])) + maybe(v.custom_name is Some, text(v.custom_name->0@))))),
        forall|w: PotionContentsImpl| #[trigger] PotionContentsImpl::val(w) == PotionContentsImpl::val(v) ==> ((w.potion_id is Some <==> v.potion_id is Some) && (w.potion_id is Some ==> w.potion_id->0 == v.potion_id->0)) && ((w.custom_color is Some <==> v.custom_color is Some) && (w.custom_color is Some ==> w.custom_color->0 == v.custom_color->0)) && (w.custom_effects@.len() == v.custom_effects@.len() && forall|k: int| 0 <= k < w.custom_effects@.len() ==> effect_instance_val((#[trigger] w.custom_effects@[k])) == effect_instance_val(v.custom_effects@[k])) && ((w.custom_name is Some <==> v.custom_name is Some) && (w.custom_name is Some ==> w.custom_name->0@ == v.custom_name->0@)),
{
    if v.potion_id is Some {
        lemma_sent_var_int(c, v.potion_id->0);
        lemma_sent_present(Format::VarInt, c, Val::Int(v.potion_id->0 as int), var_int(v.potion_id->0 as int));
    } else {
        lemma_sent_absent(Format::VarInt, c);
    }
    if v.custom_color is Some {
        lemma_sent_i32(c, v.custom_color->0);
        lemma_sent_present(Format::Signed(4), c, Val::Int(v.custom_color->0 as int), be_signed(v.custom_color->0 as int, 4));
    } else {
        lemma_sent_absent(Format::Signed(4), c);
    }
    assert forall|k: int| 0 <= k < vals::<AsEffect>(v.custom_effects@).len() implies sent(AsEffect::format(), c, #[trigger] vals::<AsEffect>(v.custom_effects@)[k], var_int(effect_number(v.custom_effects@[k].effect_id@, c)) + effect_bytes(v.custom_effects@[k])) by {
        lemma_effect_is_sent(v.custom_effects@[k], c);
    }
    lemma_sent_list(EffectCount::rule(), EffectCount::limit(), AsEffect::format(), c, vals::<AsEffect>(v.custom_effects@), |k: int| var_int(effect_number(v.custom_effects@[k].effect_id@, c)) + effect_bytes(v.custom_effects@[k]));
    if v.custom_name is Some {
        lemma_sent_text(c, v.custom_name->0@);
        lemma_sent_present(plain(), c, Val::Text(v.custom_name->0@), text(v.custom_name->0@));
    } else {
        lemma_sent_absent(plain(), c);
    }
    lemma_sent_pair(<ListOf<EffectCount, AsEffect> as DataComponentCodec>::format(), opt(plain()), c, <ListOf<EffectCount, AsEffect> as DataComponentCodec>::val(v.custom_effects), <Opt<AsText> as DataComponentCodec>::val(v.custom_name), counted(v.custom_effects@.len(), |k: int| var_int(effect_number(v.custom_effects@[k].effect_id@, c)) + effect_bytes(v.custom_effects@[k])), maybe(v.custom_name is Some, text(v.custom_name->0@)));
    lemma_sent_pair(opt(Format::Signed(4)), both(<ListOf<EffectCount, AsEffect> as DataComponentCodec>::format(), opt(plain())), c, <Opt<AsI32> as DataComponentCodec>::val(v.custom_color), pair(<ListOf<EffectCount, AsEffect> as DataComponentCodec>::val(v.custom_effects), <Opt<AsText> as DataComponentCodec>::val(v.custom_name)), maybe(v.custom_color is Some, be_signed(v.custom_color->0 as int, 4)), counted(v.custom_effects@.len(), |k: int| var_int(effect_number(v.custom_effects@[k].effect_id@, c)) + effect_bytes(v.custom_effects@[k])) + maybe(v.custom_name is Some, text(v.custom_name->0@)));
    lemma_sent_pair(opt(Format::VarInt), both(opt(Format::Signed(4)), both(<ListOf<EffectCount, AsEffect> as DataComponentCodec>::format(), opt(plain()))), c, <Opt<AsVarInt> as DataComponentCodec>::val(v.potion_id), pair(<Opt<AsI32> as DataComponentCodec>::val(v.custom_color), pair(<ListOf<EffectCount, AsEffect> as DataComponentCodec>::val(v.custom_effects), <Opt<AsText> as DataComponentCodec>::val(v.custom_name))), maybe(v.potion_id is Some, var_int(v.potion_id->0 as int)), maybe(v.custom_color is Some, be_signed(v.custom_color->0 as int, 4)) + (counted(v.custom_effects@.len(), |k: int| var_int(effect_number(v.custom_effects@[k].effect_id@, c)) + effect_bytes(v.custom_effects@[k])) + maybe(v.custom_name is Some, text(v.custom_name->0@))));
    assert forall|w: PotionContentsImpl| #[trigger] PotionContentsImpl::val(w) == PotionContentsImpl::val(v) implies ((w.potion_id is Some <==> v.potion_id is Some) && (w.potion_id is Some ==> w.potion_id->0 == v.potion_id->0)) && ((w.custom_color is Some <==> v.custom_color is Some) && (w.custom_color is Some ==> w.custom_color->0 == v.custom_color->0)) && (w.custom_effects@.len() == v.custom_effects@.len() && forall|k: int| 0 <= k < w.custom_effects@.len() ==> effect_instance_val((#[trigger] w.custom_effects@[k])) == effect_instance_val(v.custom_effects@[k])) && ((w.custom_name is Some <==> v.custom_name is Some) && (w.custom_name is Some ==> w.custom_name->0@ == v.custom_name->0@)) by {
        lemma_same_items::<AsEffect>(w.custom_effects@, v.custom_effects@);
    }
}
/// An effect of a stew is sent as its number and its duration.
pub proof fn lemma_stew_effect_is_sent(v: SuspiciousStewEffect, c: Ctx)
    requires
        find_name(c.regs.effects@, v.effect@) is Some,
        effect_number(v.effect@, c) <= 0xffff,
    ensures
        sent(SuspiciousStewEffect::format(), c, SuspiciousStewEffect::val(v), var_int(effect_number(v.effect@, c)) + var_int(v.duration as int)),
        forall|w: SuspiciousStewEffect| #[trigger] SuspiciousStewEffect::val(w) == SuspiciousStewEffect::val(v) ==> w.effect@ == v.effect@ && w.duration == v.duration,
{
    lemma_found_name(c.regs.effects@, v.effect@, 0);
    lemma_small_count(effect_number(v.effect@, c) as nat);
    lemma_sent_number(c, AsStewEffect::check(), <Coded<AsStewEffect> as DataComponentCodec>::val(v.effect), effect_number(v.effect@, c));
    lemma_sent_var_int(c, v.duration);
    lemma_sent_pair(<Coded<AsStewEffect> as DataComponentCodec>::format(), Format::VarInt, c, <Coded<AsStewEffect> as DataComponentCodec>::val(v.effect), Val::Int(v.duration as int), var_int(effect_number(v.effect@, c)), var_int(v.duration as int));
}
/// The effects of a stew are sent one behind the other.
pub proof fn lemma_stew_effects_is_sent(v: SuspiciousStewEffectsImpl, c: Ctx)
    requires
        v.effects@.len() <= 128,
        forall|k: int| 0 <= k < v.effects@.len() ==> find_name(c.regs.effects@, (#[trigger] v.effects@[k]).effect@) is Some,
        forall|k: int| 0 <= k < v.effects@.len() ==> effect_number((#[trigger] v.effects@[k]).effect@, c) <= 0xffff,
    ensures
        sent(SuspiciousStewEffectsImpl::format(), c, SuspiciousStewEffectsImpl::val(v), counted(v.effects@.len(), |k: int| var_int(effect_number(v.effects@[k].effect@, c)) + var_int(v.effects@[k].duration as int))),
        forall|w: SuspiciousStewEffectsImpl| #[trigger] SuspiciousStewEffectsImpl::val(w) == SuspiciousStewEffectsImpl::val(v) ==> (w.effects@.len() == v.effects@.len() && forall|k: int| 0 <= k < w.effects@.len() ==> SuspiciousStewEffect::val((#[trigger] w.effects@[k])) == SuspiciousStewEffect::val(v.effects@[k])),
{
    assert forall|k: int| 0 <= k < vals::<SuspiciousStewEffect>(v.effects@).len() implies sent(SuspiciousStewEffect::format(), c, #[trigger] vals::<SuspiciousStewEffect>(v.effects@)[k], var_int(effect_number(v.effects@[k].effect@, c)) + var_int(v.effects@[k].duration as int)) by {
        lemma_stew_effect_is_sent(v.effects@[k], c);
    }
    lemma_sent_list(StewEffectCount::rule(), StewEffectCount::limit(), SuspiciousStewEffect::format(), c, vals::<SuspiciousStewEffect>(v.effects@), |k: int| var_int(effect_number(v.effects@[k].effect@, c)) + var_int(v.effects@[k].duration as int));
    assert forall|w: SuspiciousStewEffectsImpl| #[trigger] SuspiciousStewEffectsImpl::val(w) == SuspiciousStewEffectsImpl::val(v) implies (w.effects@.len() == v.effects@.len() && forall|k: int| 0 <= k < w.effects@.len() ==> SuspiciousStewEffect::val((#[trigger] w.effects@[k])) == SuspiciousStewEffect::val(v.effects@[k])) by {
        lemma_same_items::<SuspiciousStewEffect>(w.effects@, v.effects@);
    }
}
/// An explosion is sent as the number of its shape, its colours, the colours that it fades to, and the
/// flags for its trail and its twinkle.
pub proof fn lemma_explosion_is_sent(v: FireworkExplosionImpl, c: Ctx)
    requires
        v.colors@.len() <= 256,
        v.fade_colors@.len() <= 256,
    ensures
        sent(FireworkExplosionImpl::format(), c, FireworkExplosionImpl::val(v), var_int(shape_number(v.shape)) + (counted(v.colors@.len(), |k: int| be_signed(v.colors@[k] as int, 4)) + (counted(v.fade_colors@.len(), |k: int| be_signed(v.fade_colors@[k] as int, 4)) + (byte_of(v.has_trail) + byte_of(v.has_twinkle))))),
        forall|w: FireworkExplosionImpl| #[trigger] FireworkExplosionImpl::val(w) == FireworkExplosionImpl::val(v) ==> w.shape == v.shape && (w.colors@.len() == v.colors@.len() && forall|k: int| 0 <= k < w.colors@.len() ==> (#[trigger] w.colors@[k]) == v.colors@[k]) && (w.fade_colors@.len() == v.fade_colors@.len() && forall|k: int| 0 <= k < w.fade_colors@.len() ==> (#[trigger] w.fade_colors@[k]) == v.fade_colors@[k]) && w.has_trail == v.has_trail && w.has_twinkle == v.has_twinkle,
{
    lemma_sent_number(c, AsShape::check(), <Coded<AsShape> as DataComponentCodec>::val(v.shape), shape_number(v.shape));
    assert forall|k: int| 0 <= k < vals::<AsI32>(v.colors@).len() implies sent(Format::Signed(4), c, #[trigger] vals::<AsI32>(v.colors@)[k], be_signed(v.colors@[k] as int, 4)) by {
        lemma_sent_i32(c, v.colors@[k]);
    }
    lemma_sent_list(ColorCount::rule(), ColorCount::limit(), Format::Signed(4), c, vals::<AsI32>(v.colors@), |k: int| be_signed(v.colors@[k] as int, 4));
    assert forall|k: int| 0 <= k < vals::<AsI32>(v.fade_colors@).len() implies sent(Format::Signed(4), c, #[trigger] vals::<AsI32>(v.fade_colors@)[k], be_signed(v.fade_colors@[k] as int, 4)) by {
        lemma_sent_i32(c, v.fade_colors@[k]);
    }
    lemma_sent_list(FadeColorCount::rule(), FadeColorCount::limit(), Format::Signed(4), c, vals::<AsI32>(v.fade_colors@), |k: int| be_signed(v.fade_colors@[k] as int, 4));
    lemma_sent_bool(c, v.has_trail);
    lemma_sent_bool(c, v.has_twinkle);
    lemma_sent_pair(Format::Bool, Format::Bool, c, Val::Bool(v.has_trail), Val::Bool(v.has_twinkle), byte_of(v.has_trail), byte_of(v.has_twinkle));
    lemma_sent_pair(<ListOf<FadeColorCount, AsI32> as DataComponentCodec>::format(), both(Format::Bool, Format::Bool), c, <ListOf<FadeColorCount, AsI32> as DataComponentCodec>::val(v.fade_colors), pair(Val::Bool(v.has_trail), Val::Bool(v.has_twinkle)), counted(v.fade_colors@.len(), |k: int| be_signed(v.fade_colors@[k] as int, 4)), byte_of(v.has_trail) + byte_of(v.has_twinkle));
    lemma_sent_pair(<ListOf<ColorCount, AsI32> as DataComponentCodec>::format(), both(<ListOf<FadeColorCount, AsI32> as DataComponentCodec>::format(), both(Format::Bool, Format::Bool)), c, <ListOf<ColorCount, AsI32> as DataComponentCodec>::val(v.colors), pair(<ListOf<FadeColorCount, AsI32> as DataComponentCodec>::val(v.fade_colors), pair(Val::Bool(v.has_trail), Val::Bool(v.has_twinkle))), counted(v.colors@.len(), |k: int| be_signed(v.colors@[k] as int, 4)), counted(v.fade_colors@.len(), |k: int| be_signed(v.fade_colors@[k] as int, 4)) + (byte_of(v.has_trail) + byte_of(v.has_twinkle)));
    lemma_sent_pair(<Coded<AsShape> as DataComponentCodec>::format(), both(<ListOf<ColorCount, AsI32> as DataComponentCodec>::format(), both(<ListOf<FadeColorCount, AsI32> as DataComponentCodec>::format(), both(Format::Bool, Format::Bool))), c, <Coded<AsShape> as DataComponentCodec>::val(v.shape), pair(<ListOf<ColorCount, AsI32> as DataComponentCodec>::val(v.colors), pair(<ListOf<FadeColorCount, AsI32> as DataComponentCodec>::val(v.fade_colors), pair(Val::Bool(v.has_trail), Val::Bool(v.has_twinkle)))), var_int(shape_number(v.shape)), counted(v.colors@.len(), |k: int| be_signed(v.colors@[k] as int, 4)) + (counted(v.fade_colors@.len(), |k: int| be_signed(v.fade_colors@[k] as int, 4)) + (byte_of(v.has_trail) + byte_of(v.has_twinkle))));
    assert forall|w: FireworkExplosionImpl| #[trigger] FireworkExplosionImpl::val(w) == FireworkExplosionImpl::val(v) implies w.shape == v.shape && (w.colors@.len() == v.colors@.len() && forall|k: int| 0 <= k < w.colors@.len() ==> (#[trigger] w.colors@[k]) == v.colors@[k]) && (w.fade_colors@.len() == v.fade_colors@.len() && forall|k: int| 0 <= k < w.fade_colors@.len() ==> (#[trigger] w.fade_colors@[k]) == v.fade_colors@[k]) && w.has_trail == v.has_trail && w.has_twinkle == v.has_twinkle by {
        lemma_same_items::<AsI32>(w.colors@, v.colors@);
        lemma_same_items::<AsI32>(w.fade_colors@, v.fade_colors@);
    }
}
/// Fireworks are sent as their flight duration and their explosions.
pub proof fn lemma_fireworks_is_sent(v: FireworksImpl, c: Ctx)
    requires
        0 <= v.flight_duration <= 255,
        v.explosions@.len() <= 256,
        forall|k: int| 0 <= k < v.explosions@.len() ==> (#[trigger] v.explosions@[k]).colors@.len() <= 256,
        forall|k: int| 0 <= k < v.explosions@.len() ==> (#[trigger] v.explosions@[k]).fade_colors@.len() <= 256,
    ensures
        sent(FireworksImpl::format(), c, FireworksImpl::val(v), var_int(v.flight_duration as int) + counted(v.explosions@.len(), |k: int| explosion_bytes(v.explosions@[k]))),
        forall|w: FireworksImpl| #[trigger] FireworksImpl::val(w) == FireworksImpl::val(v) ==> w.flight_duration == v.flight_duration && (w.explosions@.len() == v.explosions@.len() && forall|k: int| 0 <= k < w.explosions@.len() ==> FireworkExplosionImpl::val((#[trigger] w.explosions@[k])) == FireworkExplosionImpl::val(v.explosions@[k])),
{
    lemma_sent_number(c, FlightDuration::check(), <Coded<FlightDuration> as DataComponentCodec>::val(v.flight_duration), v.flight_duration as int);
    assert forall|k: int| 0 <= k < vals::<FireworkExplosionImpl>(v.explosions@).len() implies sent(FireworkExplosionImpl::format(), c, #[trigger] vals::<FireworkExplosionImpl>(v.explosions@)[k], explosion_bytes(v.explosions@[k])) by {
        lemma_explosion_is_sent(v.explosions@[k], c);
    }
    lemma_sent_list(ExplosionCount::rule(), ExplosionCount::limit(), FireworkExplosionImpl::format(), c, vals::<FireworkExplosionImpl>(v.explosions@), |k: int| explosion_bytes(v.explosions@[k]));
    lemma_sent_pair(<Coded<FlightDuration> as DataComponentCodec>::format(), <ListOf<ExplosionCount, FireworkExplosionImpl> as DataComponentCodec>::format(), c, <Coded<FlightDuration> as DataComponentCodec>::val(v.flight_duration), <ListOf<ExplosionCount, FireworkExplosionImpl> as DataComponentCodec>::val(v.explosions), var_int(v.flight_duration as int), counted(v.explosions@.len(), |k: int| explosion_bytes(v.explosions@[k])));
    assert forall|w: FireworksImpl| #[trigger] FireworksImpl::val(w) == FireworksImpl::val(v) implies w.flight_duration == v.flight_duration && (w.explosions@.len() == v.explosions@.len() && forall|k: int| 0 <= k < w.explosions@.len() ==> FireworkExplosionImpl::val((#[trigger] w.explosions@[k])) == FireworkExplosionImpl::val(v.explosions@[k])) by {
        lemma_same_items::<FireworkExplosionImpl>(w.explosions@, v.explosions@);
    }
}
/// A property of a profile is sent as its name, its value and its signature.
pub proof fn lemma_profile_property_is_sent(v: ProfileProperty, c: Ctx)
    requires
        text_fits(v.name@, MAX_TEXT_BYTES as nat),
        text_fits(v.value@, MAX_TEXT_BYTES as nat),
        v.signature is Some ==> text_fits(v.signature->0@, MAX_TEXT_BYTES as nat),
    ensures
        sent(ProfileProperty::format(), c, ProfileProperty::val(v), text(v.name@) + (text(v.value@) + maybe(v.signature is Some, text(v.signature->0@)))),
        forall|w: ProfileProperty| #[trigger] ProfileProperty::val(w) == ProfileProperty::val(v) ==> w.name@ == v.name@ && w.value@ == v.value@ && ((w.signature is Some <==> v.signature is Some) && (w.signature is Some ==> w.signature->0@ == v.signature->0@)),
{
    lemma_sent_text(c, v.name@);
    lemma_sent_text(c, v.value@);
    if v.signature is Some {
        lemma_sent_text(c, v.signature->0@);
        lemma_sent_present(plain(), c, Val::Text(v.signature->0@), text(v.signature->0@));
    } else {
        lemma_sent_absent(plain(), c);
    }
    lemma_sent_pair(plain(), opt(plain()), c, Val::Text(v.value@), <Opt<AsText> as DataComponentCodec>::val(v.signature), text(v.value@), maybe(v.signature is Some, text(v.signature->0@)));
    lemma_sent_pair(plain(), both(plain(), opt(plain())), c, Val::Text(v.name@), pair(Val::Text(v.value@), <Opt<AsText> as DataComponentCodec>::val(v.signature)), text(v.name@), text(v.value@) + maybe(v.signature is Some, text(v.signature->0@)));
}
/// This component is sent by its name.
pub proof fn lemma_villager_variant_is_sent(v: VillagerVariantImpl, c: Ctx)
    requires
        text_fits(v.value@, MAX_TEXT_BYTES as nat),
    ensures
        sent(VillagerVariantImpl::format(), c, VillagerVariantImpl::val(v), text(v.value@)),
        forall|w: VillagerVariantImpl| #[trigger] VillagerVariantImpl::val(w) == VillagerVariantImpl::val(v) ==> w.value@ == v.value@,
{
    lemma_sent_text(c, v.value@);
}
/// This component is sent by its name.
pub proof fn lemma_wolf_variant_is_sent(v: WolfVariantImpl, c: Ctx)
    requires
        text_fits(v.value@, MAX_TEXT_BYTES as nat),
    ensures
        sent(WolfVariantImpl::format(), c, WolfVariantImpl::val(v), text(v.value@)),
        forall|w: WolfVariantImpl| #[trigger] WolfVariantImpl::val(w) == WolfVariantImpl::val(v) ==> w.value@ == v.value@,
{
    lemma_sent_text(c, v.value@);
}
/// This component is sent by its name.
pub proof fn lemma_wolf_sound_variant_is_sent(v: WolfSoundVariantImpl, c: Ctx)
    requires
        text_fits(v.value@, MAX_TEXT_BYTES as nat),
    ensures
        sent(WolfSoundVariantImpl::format(), c, WolfSoundVariantImpl::val(v), text(v.value@)),
        forall|w: WolfSoundVariantImpl| #[trigger] WolfSoundVariantImpl::val(w) == WolfSoundVariantImpl::val(v) ==> w.value@ == v.value@,
{
    lemma_sent_text(c, v.value@);
}
/// This component is sent by its name.
pub proof fn lemma_wolf_collar_is_sent(v: WolfCollarImpl, c: Ctx)
    requires
        text_fits(v.value@, MAX_TEXT_BYTES as nat),
    ensures
        sent(WolfCollarImpl::format(), c, WolfCollarImpl::val(v), text(v.value@)),
        forall|w: WolfCollarImpl| #[trigger] WolfCollarImpl::val(w) == WolfCollarImpl::val(v) ==> w.value@ == v.value@,
{
    lemma_sent_text(c, v.value@);
}
/// This component is sent by its name.
pub proof fn lemma_fox_variant_is_sent(v: FoxVariantImpl, c: Ctx)
    requires
        text_fits(v.value@, MAX_TEXT_BYTES as nat),
    ensures
        sent(FoxVariantImpl::format(), c, FoxVariantImpl::val(v), text(v.value@)),
        forall|w: FoxVariantImpl| #[trigger] FoxVariantImpl::val(w) == FoxVariantImpl::val(v) ==> w.value@ == v.value@,
{
    lemma_sent_text(c, v.value@);
}
/// This component is sent by its name.
pub proof fn lemma_salmon_size_is_sent(v: SalmonSizeImpl, c: Ctx)
    requires
        text_fits(v.value@, MAX_TEXT_BYTES as nat),
    ensures
        sent(SalmonSizeImpl::format(), c, SalmonSizeImpl::val(v), text(v.value@)),
        forall|w: SalmonSizeImpl| #[trigger] SalmonSizeImpl::val(w) == SalmonSizeImpl::val(v) ==> w.value@ == v.value@,
{
    lemma_sent_text(c, v.value@);
}
/// This component is sent by its name.
pub proof fn lemma_parrot_variant_is_sent(v: ParrotVariantImpl, c: Ctx)
    requires
        text_fits(v.value@, MAX_TEXT_BYTES as nat),
    ensures
        sent(ParrotVariantImpl::format(), c, ParrotVariantImpl::val(v), text(v.value@)),
        forall|w: ParrotVariantImpl| #[trigger] ParrotVariantImpl::val(w) == ParrotVariantImpl::val(v) ==> w.value@ == v.value@,
{
    lemma_sent_text(c, v.value@);
}
/// This component is sent by its name.
pub proof fn lemma_tropical_fish_pattern_is_sent(v: TropicalFishPatternImpl, c: Ctx)
    requires
        text_fits(v.value@, MAX_TEXT_BYTES as nat),
    ensures
        sent(TropicalFishPatternImpl::format(), c, TropicalFishPatternImpl::val(v), text(v.value@)),
        forall|w: TropicalFishPatternImpl| #[trigger] TropicalFishPatternImpl::val(w) == TropicalFishPatternImpl::val(v) ==> w.value@ == v.value@,
{
    lemma_sent_text(c, v.value@);
}
/// This component is sent by its name.
pub proof fn lemma_tropical_fish_base_color_is_sent(v: TropicalFishBaseColorImpl, c: Ctx)
    requires
        text_fits(v.value@, MAX_TEXT_BYTES as nat),
    ensures
        sent(TropicalFishBaseColorImpl::format(), c, TropicalFishBaseColorImpl::val(v), text(v.value@)),
        forall|w: TropicalFishBaseColorImpl| #[trigger] TropicalFishBaseColorImpl::val(w) == TropicalFishBaseColorImpl::val(v) ==> w.value@ == v.value@,
{
    lemma_sent_text(c, v.value@);
}
/// This component is sent by its name.
pub proof fn lemma_tropical_fish_pattern_color_is_sent(v: TropicalFishPatternColorImpl, c: Ctx)
    requires
        text_fits(v.value@, MAX_TEXT_BYTES as nat),
    ensures
        sent(TropicalFishPatternColorImpl::format(), c, TropicalFishPatternColorImpl::val(v), text(v.value@)),
        forall|w: TropicalFishPatternColorImpl| #[trigger] TropicalFishPatternColorImpl::val(w) == TropicalFishPatternColorImpl::val(v) ==> w.value@ == v.value@,
{
    lemma_sent_text(c, v.value@);
}
/// This component is sent by its name.
pub proof fn lemma_mooshroom_variant_is_sent(v: MooshroomVariantImpl, c: Ctx)
    requires
        text_fits(v.value@, MAX_TEXT_BYTES as nat),
    ensures
        sent(MooshroomVariantImpl::format(), c, MooshroomVariantImpl::val(v), text(v.value@)),
        forall|w: MooshroomVariantImpl| #[trigger] MooshroomVariantImpl::val(w) == MooshroomVariantImpl::val(v) ==> w.value@ == v.value@,
{
    lemma_sent_text(c, v.value@);
}
/// This component is sent by its name.
pub proof fn lemma_rabbit_variant_is_sent(v: RabbitVariantImpl, c: Ctx)
    requires
        text_fits(v.value@, MAX_TEXT_BYTES as nat),
    ensures
        sent(RabbitVariantImpl::format(), c, RabbitVariantImpl::val(v), text(v.value@)),
        forall|w: RabbitVariantImpl| #[trigger] RabbitVariantImpl::val(w) == RabbitVariantImpl::val(v) ==> w.value@ == v.value@,
{
    lemma_sent_text(c, v.value@);
}
/// This component is sent by its name.
pub proof fn lemma_pig_variant_is_sent(v: PigVariantImpl, c: Ctx)
    requires
        text_fits(v.value@, MAX_TEXT_BYTES as nat),
    ensures
        sent(PigVariantImpl::format(), c, PigVariantImpl::val(v), text(v.value@)),
        forall|w: PigVariantImpl| #[trigger] PigVariantImpl::val(w) == PigVariantImpl::val(v) ==> w.value@ == v.value@,
{
    lemma_sent_text(c, v.value@);
}
/// This component is sent by its name.
pub proof fn lemma_pig_sound_variant_is_sent(v: PigSoundVariantImpl, c: Ctx)
    requires
        text_fits(v.value@, MAX_TEXT_BYTES as nat),
    ensures
        sent(PigSoundVariantImpl::format(), c, PigSoundVariantImpl::val(v), text(v.value@)),
        forall|w: PigSoundVariantImpl| #[trigger] PigSoundVariantImpl::val(w) == PigSoundVariantImpl::val(v) ==> w.value@ == v.value@,
{
    lemma_sent_text(c, v.value@);
}
/// This component is sent by its name.
pub proof fn lemma_cow_variant_is_sent(v: CowVariantImpl, c: Ctx)
    requires
        text_fits(v.value@, MAX_TEXT_BYTES as nat),
    ensures
        sent(CowVariantImpl::format(), c, CowVariantImpl::val(v), text(v.value@)),
        forall|w: CowVariantImpl| #[trigger] CowVariantImpl::val(w) == CowVariantImpl::val(v) ==> w.value@ == v.value@,
{
    lemma_sent_text(c, v.value@);
}
/// This component is sent by its name.
pub proof fn lemma_cow_sound_variant_is_sent(v: CowSoundVariantImpl, c: Ctx)
    requires
        text_fits(v.value@, MAX_TEXT_BYTES as nat),
    ensures
        sent(CowSoundVariantImpl::format(), c, CowSoundVariantImpl::val(v), text(v.value@)),
        forall|w: CowSoundVariantImpl| #[trigger] CowSoundVariantImpl::val(w) == CowSoundVariantImpl::val(v) ==> w.value@ == v.value@,
{
    lemma_sent_text(c, v.value@);
}
/// This component is sent by its name.
pub proof fn lemma_chicken_variant_is_sent(v: ChickenVariantImpl, c: Ctx)
    requires
        text_fits(v.value@, MAX_TEXT_BYTES as nat),
    ensures
        sent(ChickenVariantImpl::format(), c, ChickenVariantImpl::val(v), text(v.value@)),
        forall|w: ChickenVariantImpl| #[trigger] ChickenVariantImpl::val(w) == ChickenVariantImpl::val(v) ==> w.value@ == v.value@,
{
    lemma_sent_text(c, v.value@);
}
/// This component is sent by its name.
pub proof fn lemma_chicken_sound_variant_is_sent(v: ChickenSoundVariantImpl, c: Ctx)
    requires
        text_fits(v.value@, MAX_TEXT_BYTES as nat),
    ensures
        sent(ChickenSoundVariantImpl::format(), c, ChickenSoundVariantImpl::val(v), text(v.value@)),
        forall|w: ChickenSoundVariantImpl| #[trigger] ChickenSoundVariantImpl::val(w) == ChickenSoundVariantImpl::val(v) ==> w.value@ == v.value@,
{
    lemma_sent_text(c, v.value@);
}
/// This component is sent by its name.
pub proof fn lemma_zombie_nautilus_variant_is_sent(v: ZombieNautilusVariantImpl, c: Ctx)
    requires
        text_fits(v.value@, MAX_TEXT_BYTES as nat),
    ensures
        sent(ZombieNautilusVariantImpl::format(), c, ZombieNautilusVariantImpl::val(v), text(v.value@)),
        forall|w: ZombieNautilusVariantImpl| #[trigger] ZombieNautilusVariantImpl::val(w) == ZombieNautilusVariantImpl::val(v) ==> w.value@ == v.value@,
{
    lemma_sent_text(c, v.value@);
}
/// This component is sent by its name.
pub proof fn lemma_frog_variant_is_sent(v: FrogVariantImpl, c: Ctx)
    requires
        text_fits(v.value@, MAX_TEXT_BYTES as nat),
    ensures
        sent(FrogVariantImpl::format(), c, FrogVariantImpl::val(v), text(v.value@)),
        forall|w: FrogVariantImpl| #[trigger] FrogVariantImpl::val(w) == FrogVariantImpl::val(v) ==> w.value@ == v.value@,
{
    lemma_sent_text(c, v.value@);
}
/// This component is sent by its name.
pub proof fn lemma_horse_variant_is_sent(v: HorseVariantImpl, c: Ctx)
    requires
        text_fits(v.value@, MAX_TEXT_BYTES as nat),
    ensures
        sent(HorseVariantImpl::format(), c, HorseVariantImpl::val(v), text(v.value@)),
        forall|w: HorseVariantImpl| #[trigger] HorseVariantImpl::val(w) == HorseVariantImpl::val(v) ==> w.value@ == v.value@,
{
    lemma_sent_text(c, v.value@);
}
/// This component is sent by its name.
pub proof fn lemma_painting_variant_is_sent(v: PaintingVariantImpl, c: Ctx)
    requires
        text_fits(v.value@, MAX_TEXT_BYTES as nat),
    ensures
        sent(PaintingVariantImpl::format(), c, PaintingVariantImpl::val(v), text(v.value@)),
        forall|w: PaintingVariantImpl| #[trigger] PaintingVariantImpl::val(w) == PaintingVariantImpl::val(v) ==> w.value@ == v.value@,
{
    lemma_sent_text(c, v.value@);
}
/// This component is sent by its name.
pub proof fn lemma_llama_variant_is_sent(v: LlamaVariantImpl, c: Ctx)
    requires
        text_fits(v.value@, MAX_TEXT_BYTES as nat),
    ensures
        sent(LlamaVariantImpl::format(), c, LlamaVariantImpl::val(v), text(v.value@)),
        forall|w: LlamaVariantImpl| #[trigger] LlamaVariantImpl::val(w) == LlamaVariantImpl::val(v) ==> w.value@ == v.value@,
{
    lemma_sent_text(c, v.value@);
}
/// This component is sent by its name.
pub proof fn lemma_axolotl_variant_is_sent(v: AxolotlVariantImpl, c: Ctx)
    requires
        text_fits(v.value@, MAX_TEXT_BYTES as nat),
    ensures
        sent(AxolotlVariantImpl::format(), c, AxolotlVariantImpl::val(v), text(v.value@)),
        forall|w: AxolotlVariantImpl| #[trigger] AxolotlVariantImpl::val(w) == AxolotlVariantImpl::val(v) ==> w.value@ == v.value@,
{
    lemma_sent_text(c, v.value@);
}
/// This component is sent by its name.
pub proof fn lemma_cat_variant_is_sent(v: CatVariantImpl, c: Ctx)
    requires
        text_fits(v.value@, MAX_TEXT_BYTES as nat),
    ensures
        sent(CatVariantImpl::format(), c, CatVariantImpl::val(v), text(v.value@)),
        forall|w: CatVariantImpl| #[trigger] CatVariantImpl::val(w) == CatVariantImpl::val(v) ==> w.value@ == v.value@,
{
    lemma_sent_text(c, v.value@);
}
/// This component is sent by its name.
pub proof fn lemma_cat_sound_variant_is_sent(v: CatSoundVariantImpl, c: Ctx)
    requires
        text_fits(v.value@, MAX_TEXT_BYTES as nat),
    ensures
        sent(CatSoundVariantImpl::format(), c, CatSoundVariantImpl::val(v), text(v.value@)),
        forall|w: CatSoundVariantImpl| #[trigger] CatSoundVariantImpl::val(w) == CatSoundVariantImpl::val(v) ==> w.value@ == v.value@,
{
    lemma_sent_text(c, v.value@);
}
/// This component is sent by its name.
pub proof fn lemma_cat_collar_is_sent(v: CatCollarImpl, c: Ctx)
    requires
        text_fits(v.value@, MAX_TEXT_BYTES as nat),
    ensures
        sent(CatCollarImpl::format(), c, CatCollarImpl::val(v), text(v.value@)),
        forall|w: CatCollarImpl| #[trigger] CatCollarImpl::val(w) == CatCollarImpl::val(v) ==> w.value@ == v.value@,
{
    lemma_sent_text(c, v.value@);
}
/// This component is sent by its name.
pub proof fn lemma_sheep_color_is_sent(v: SheepColorImpl, c: Ctx)
    requires
        text_fits(v.value@, MAX_TEXT_BYTES as nat),
    ensures
        sent(SheepColorImpl::format(), c, SheepColorImpl::val(v), text(v.value@)),
        forall|w: SheepColorImpl| #[trigger] SheepColorImpl::val(w) == SheepColorImpl::val(v) ==> w.value@ == v.value@,
{
    lemma_sent_text(c, v.value@);
}
/// This component is sent by its name.
pub proof fn lemma_shulker_color_is_sent(v: ShulkerColorImpl, c: Ctx)
    requires
        text_fits(v.value@, MAX_TEXT_BYTES as nat),
    ensures
        sent(ShulkerColorImpl::format(), c, ShulkerColorImpl::val(v), text(v.value@)),
        forall|w: ShulkerColorImpl| #[trigger] ShulkerColorImpl::val(w) == ShulkerColorImpl::val(v) ==> w.value@ == v.value@,
{
    lemma_sent_text(c, v.value@);
}
/// The number of an effect of consuming, and its bytes.
pub open spec fn consume_bytes(v: ConsumeEffect, c: Ctx) -> Seq<u8> {
    match v {
        ConsumeEffect::ApplyEffects((l, p)) => var_int(0) + (counted(
            l@.len(),
            |k: int| var_int(effect_number(l@[k].effect_id@, c)) + effect_bytes(l@[k]),
        ) + be_bytes(p as nat, 4)),
        ConsumeEffect::RemoveEffects(s) => var_int(1) + set_bytes(s),
        ConsumeEffect::ClearAllEffects => var_int(2) + Seq::empty(),
        ConsumeEffect::TeleportRandomly(d) => var_int(3) + be_bytes(d as nat, 4),
        ConsumeEffect::PlaySound(s) => var_int(4) + sound_bytes(s),
    }
}

/// Whether what consuming does can be sent.
pub open spec fn consume_fits(v: ConsumeEffect, c: Ctx) -> bool {
    match v {
        ConsumeEffect::ApplyEffects((l, p)) => l@.len() <= 128 && forall|k: int| 0 <= k < l@.len() ==> effect_fits(#[trigger] l@[k], c),
        ConsumeEffect::RemoveEffects(s) => set_fits(s, RegistryKind::Effect, c),
        ConsumeEffect::ClearAllEffects => true,
        ConsumeEffect::TeleportRandomly(_) => true,
        ConsumeEffect::PlaySound(s) => sound_fits(s, c),
    }
}

/// What consuming does is sent as its number and its details.
pub proof fn lemma_consume_effect_is_sent(v: ConsumeEffect, c: Ctx)
    requires
        consume_fits(v, c),
    ensures
        sent(ConsumeEffect::format(), c, ConsumeEffect::val(v), consume_bytes(v, c)),
{
    let alts = ConsumeEffect::format()->Choice_0;
    let other = ConsumeEffect::format()->Choice_1;
    match v {
        ConsumeEffect::ApplyEffects((l, p)) => {
            let x = vals::<AsEffect>(l@);
            assert forall|k: int| 0 <= k < x.len() implies sent(
                Format::Effect,
                c,
                #[trigger] x[k],
                var_int(effect_number(l@[k].effect_id@, c)) + effect_bytes(l@[k]),
            ) by {
                lemma_effect_is_sent(l@[k], c);
            }
            let b = counted(l@.len(), |k: int| var_int(effect_number(l@[k].effect_id@, c)) + effect_bytes(l@[k]));
            lemma_sent_list(
                EffectCount::rule(),
                EffectCount::limit(),
                Format::Effect,
                c,
                x,
                |k: int| var_int(effect_number(l@[k].effect_id@, c)) + effect_bytes(l@[k]),
            );
            lemma_sent_f32(c, p);
            lemma_sent_pair(AsEffects::format(), Format::Float(4), c, Val::List(x), Val::Float(4, p as nat), b, be_bytes(p as nat, 4));
            lemma_sent_choice(alts, other, c, 0, pair(Val::List(x), Val::Float(4, p as nat)), b + be_bytes(p as nat, 4));
        },
        ConsumeEffect::RemoveEffects(s) => {
            lemma_set_is_sent(s, RegistryKind::Effect, c);
            lemma_sent_choice(alts, other, c, 1, id_set_val(s), set_bytes(s));
        },
        ConsumeEffect::ClearAllEffects => {
            lemma_sent_unit(c);
            lemma_sent_choice(alts, other, c, 2, Val::Unit, Seq::empty());
        },
        ConsumeEffect::TeleportRandomly(d) => {
            lemma_sent_f32(c, d);
            lemma_sent_choice(alts, other, c, 3, Val::Float(4, d as nat), be_bytes(d as nat, 4));
        },
        ConsumeEffect::PlaySound(s) => {
            lemma_sound_is_sent(s, true, UnreadableSound::spec_text(), UnknownSound::spec_text(), c);
            lemma_sent_choice(alts, other, c, 4, sound_val(s), sound_bytes(s));
        },
    }
}

/// What saves from death is sent as what it does, one behind the other.
pub proof fn lemma_death_protection_is_sent(v: DeathProtectionImpl, c: Ctx)
    requires
        v.death_effects@.len() <= 256,
        forall|k: int| 0 <= k < v.death_effects@.len() ==> consume_fits(#[trigger] v.death_effects@[k], c),
    ensures
        sent(
            DeathProtectionImpl::format(),
            c,
            DeathProtectionImpl::val(v),
            counted(v.death_effects@.len(), |k: int| consume_bytes(v.death_effects@[k], c)),
        ),
{
    let x = vals::<ConsumeEffect>(v.death_effects@);
    assert forall|k: int| 0 <= k < x.len() implies sent(
        ConsumeEffect::format(),
        c,
        #[trigger] x[k],
        consume_bytes(v.death_effects@[k], c),
    ) by {
        lemma_consume_effect_is_sent(v.death_effects@[k], c);
    }
    lemma_sent_list(
        DeathEffectCount::rule(),
        DeathEffectCount::limit(),
        ConsumeEffect::format(),
        c,
        x,
        |k: int| consume_bytes(v.death_effects@[k], c),
    );
}

/// What can be consumed is sent as the bits of its seconds, the number of its look, its sound, a byte
/// that is one exactly where it has particles, and what it does.
pub proof fn lemma_consumable_is_sent(v: ConsumableImpl, c: Ctx)
    requires
        sound_fits(v.sound_event, c),
        v.effects@.len() <= 256,
        forall|k: int| 0 <= k < v.effects@.len() ==> consume_fits(#[trigger] v.effects@[k], c),
    ensures
        sent(
            ConsumableImpl::format(),
            c,
            ConsumableImpl::val(v),
            be_bytes(v.consume_seconds as nat, 4) + (var_int(animation_number(v.animation)) + ((sound_bytes(v.sound_event) + byte_of(
                v.consume_particles,
            )) + counted(v.effects@.len(), |k: int| consume_bytes(v.effects@[k], c)))),
        ),
{
    let x = vals::<ConsumeEffect>(v.effects@);
    assert forall|k: int| 0 <= k < x.len() implies sent(ConsumeEffect::format(), c, #[trigger] x[k], consume_bytes(v.effects@[k], c)) by {
        lemma_consume_effect_is_sent(v.effects@[k], c);
    }
    let piece = |k: int| consume_bytes(v.effects@[k], c);
    let list = <ListOf<ConsumeEffectCount, ConsumeEffect> as DataComponentCodec>::format();
    lemma_sent_list(ConsumeEffectCount::rule(), ConsumeEffectCount::limit(), ConsumeEffect::format(), c, x, piece);
    lemma_sent_f32(c, v.consume_seconds);
    let look = <Coded<AsAnimation> as DataComponentCodec>::val(v.animation);
    lemma_sent_number(c, AsAnimation::check(), look, animation_number(v.animation));
    lemma_sound_is_sent(v.sound_event, v.consume_particles, InvalidConsumeSound::spec_text(), "", c);
    let sound = Format::Sound(SoundRule::KnownThenFlag(InvalidConsumeSound::spec_text()));
    let heard = pair(sound_val(v.sound_event), Val::Bool(v.consume_particles));
    let b3 = sound_bytes(v.sound_event) + byte_of(v.consume_particles);
    let b4 = counted(v.effects@.len(), piece);
    lemma_sent_pair(sound, list, c, heard, Val::List(x), b3, b4);
    lemma_sent_pair(
        Format::Checked(AsAnimation::check()),
        both(sound, list),
        c,
        look,
        pair(heard, Val::List(x)),
        var_int(animation_number(v.animation)),
        b3 + b4,
    );
    lemma_sent_pair(
        Format::Float(4),
        both(Format::Checked(AsAnimation::check()), both(sound, list)),
        c,
        Val::Float(4, v.consume_seconds as nat),
        pair(look, pair(heard, Val::List(x))),
        be_bytes(v.consume_seconds as nat, 4),
        var_int(animation_number(v.animation)) + (b3 + b4),
    );
}

/// A text of a book is sent as itself and a zero, for no other text beside it.
pub proof fn lemma_book_text_is_sent(t: String, c: Ctx)
    requires
        text_fits(t@, MAX_TEXT_BYTES as nat),
    ensures
        sent(RawText::format(), c, RawText::val(t), text(t@) + seq![0u8]),
{
    lemma_sent_text(c, t@);
    lemma_sent_absent(plain(), c);
    lemma_sent_fixed(opt(plain()), c, Val::Absent, Val::Unit, seq![0u8]);
    lemma_sent_pair(plain(), fixed(opt(plain()), Val::Absent, Val::Unit), c, Val::Text(t@), Val::Unit, text(t@), seq![0u8]);
}

/// A book that can be written in is sent as its pages.
pub proof fn lemma_writable_book_is_sent(v: WritableBookContentImpl, c: Ctx)
    requires
        v.pages@.len() <= i32::MAX,
        forall|k: int| 0 <= k < v.pages@.len() ==> text_fits((#[trigger] v.pages@[k])@, MAX_TEXT_BYTES as nat),
    ensures
        sent(
            WritableBookContentImpl::format(),
            c,
            WritableBookContentImpl::val(v),
            counted(v.pages@.len(), |k: int| text(v.pages@[k]@) + seq![0u8]),
        ),
        forall|w: WritableBookContentImpl|
            #[trigger] WritableBookContentImpl::val(w) == WritableBookContentImpl::val(v) ==> w.pages@.len() == v.pages@.len() && forall|k: int|
                0 <= k < w.pages@.len() ==> (#[trigger] w.pages@[k])@ == v.pages@[k]@,
{
    let x = vals::<RawText>(v.pages@);
    assert forall|k: int| 0 <= k < x.len() implies sent(RawText::format(), c, #[trigger] x[k], text(v.pages@[k]@) + seq![0u8]) by {
        lemma_book_text_is_sent(v.pages@[k], c);
    }
    lemma_sent_list(RawCount::rule(), RawCount::limit(), RawText::format(), c, x, |k: int| text(v.pages@[k]@) + seq![0u8]);
    assert forall|w: WritableBookContentImpl| #[trigger] WritableBookContentImpl::val(w) == WritableBookContentImpl::val(v) implies w.pages@.len()
        == v.pages@.len() && forall|k: int| 0 <= k < w.pages@.len() ==> (#[trigger] w.pages@[k])@ == v.pages@[k]@ by {
        lemma_same_items::<RawText>(w.pages@, v.pages@);
    }
}

/// A page of a signed book is sent as the tag of its text and a zero.
pub proof fn lemma_page_is_sent(t: String, c: Ctx)
    requires
        tag_returns(Tag::String(t@)),
    ensures
        sent(WrittenPage::format(), c, WrittenPage::val(t), tag_bytes(Tag::String(t@)) + seq![0u8]),
{
    let any = Format::Nbt(NbtRole::Any);
    let b = tag_bytes(Tag::String(t@));
    assert(Seq::<u8>::empty() + b =~= b);
    lemma_sent_leaf(Format::Nbt(NbtRole::Page), c, Val::Text(t@), b);
    lemma_sent_absent(any, c);
    lemma_sent_fixed(opt(any), c, Val::Absent, Val::Unit, seq![0u8]);
    lemma_sent_pair(Format::Nbt(NbtRole::Page), fixed(opt(any), Val::Absent, Val::Unit), c, Val::Text(t@), Val::Unit, b, seq![0u8]);
}

/// A signed book is sent as its title, its author, generation zero, its pages, and a one, for a book
/// that is resolved.
pub proof fn lemma_written_book_is_sent(v: WrittenBookContentImpl, c: Ctx)
    requires
        text_fits(v.title@, MAX_TEXT_BYTES as nat),
        text_fits(v.author@, MAX_TEXT_BYTES as nat),
        v.pages@.len() <= i32::MAX,
        forall|k: int| 0 <= k < v.pages@.len() ==> tag_returns(Tag::String((#[trigger] v.pages@[k])@)),
    ensures
        sent(
            WrittenBookContentImpl::format(),
            c,
            WrittenBookContentImpl::val(v),
            (text(v.title@) + seq![0u8]) + (text(v.author@) + (var_int(0) + (counted(
                v.pages@.len(),
                |k: int| tag_bytes(Tag::String(v.pages@[k]@)) + seq![0u8],
            ) + seq![1u8]))),
        ),
        forall|w: WrittenBookContentImpl|
            #[trigger] WrittenBookContentImpl::val(w) == WrittenBookContentImpl::val(v) ==> w.title@ == v.title@ && w.author@ == v.author@,
{
    let x = vals::<WrittenPage>(v.pages@);
    let piece = |k: int| tag_bytes(Tag::String(v.pages@[k]@)) + seq![0u8];
    assert forall|k: int| 0 <= k < x.len() implies sent(WrittenPage::format(), c, #[trigger] x[k], piece(k)) by {
        lemma_page_is_sent(v.pages@[k], c);
    }
    let pages = <ListOf<RawCount, WrittenPage> as DataComponentCodec>::format();
    lemma_sent_list(RawCount::rule(), RawCount::limit(), WrittenPage::format(), c, x, piece);
    lemma_sent_bool(c, true);
    lemma_sent_fixed(Format::Bool, c, Val::Bool(true), Val::Unit, seq![1u8]);
    let resolved = fixed(Format::Bool, Val::Bool(true), Val::Unit);
    let b4 = counted(v.pages@.len(), piece);
    lemma_sent_pair(pages, resolved, c, Val::List(x), Val::Unit, b4, seq![1u8]);
    lemma_sent_var_int(c, 0);
    lemma_sent_fixed(Format::VarInt, c, Val::Int(0), Val::Unit, var_int(0));
    let generation = fixed(Format::VarInt, Val::Int(0), Val::Unit);
    lemma_sent_pair(generation, both(pages, resolved), c, Val::Unit, pair(Val::List(x), Val::Unit), var_int(0), b4 + seq![1u8]);
    lemma_sent_text(c, v.author@);
    lemma_sent_pair(
        plain(),
        both(generation, both(pages, resolved)),
        c,
        Val::Text(v.author@),
        pair(Val::Unit, pair(Val::List(x), Val::Unit)),
        text(v.author@),
        var_int(0) + (b4 + seq![1u8]),
    );
    lemma_book_text_is_sent(v.title, c);
    lemma_sent_pair(
        RawText::format(),
        both(plain(), both(generation, both(pages, resolved))),
        c,
        RawText::val(v.title),
        pair(Val::Text(v.author@), pair(Val::Unit, pair(Val::List(x), Val::Unit))),
        text(v.title@) + seq![0u8],
        text(v.author@) + (var_int(0) + (b4 + seq![1u8])),
    );
}

/// A weapon is sent as its wear and four zeros.
pub proof fn lemma_weapon_is_sent(v: WeaponImpl, c: Ctx)
    ensures
        sent(WeaponImpl::format(), c, WeaponImpl::val(v), groups(v.item_damage_per_attack as nat) + be_bytes(0, 4)),
        forall|w: WeaponImpl| #[trigger] WeaponImpl::val(w) == WeaponImpl::val(v) ==> w.item_damage_per_attack == v.item_damage_per_attack,
{
    lemma_sent_var_u32(c, v.item_damage_per_attack);
    lemma_sent_f32(c, 0);
    lemma_sent_fixed(Format::Float(4), c, Val::Float(4, 0), Val::Unit, be_bytes(0, 4));
    lemma_sent_pair(
        Format::VarU32,
        fixed(Format::Float(4), Val::Float(4, 0), Val::Unit),
        c,
        Val::Int(v.item_damage_per_attack as int),
        Val::Unit,
        groups(v.item_damage_per_attack as nat),
        be_bytes(0, 4),
    );
}

/// The bytes of a position: 26 bits of `x`, 26 of `z` and 12 of `y`.
pub open spec fn packed(x: int, y: int, z: int) -> Seq<u8> {
    be_bytes(((x % 0x400_0000) * 0x40_0000_0000 + (z % 0x400_0000) * 0x1000 + y % 0x1000) as nat, 8)
}

/// Whether a position can be sent.
pub open spec fn reachable(x: int, y: int, z: int) -> bool {
    -0x200_0000 <= x < 0x200_0000 && -0x800 <= y < 0x800 && -0x200_0000 <= z < 0x200_0000
}

/// What a compass points at is sent as its dimension and its packed position.
pub proof fn lemma_target_is_sent(v: LodestoneTarget, c: Ctx)
    requires
        text_fits(v.dimension@, MAX_TEXT_BYTES as nat),
        reachable(v.x as int, v.y as int, v.z as int),
    ensures
        sent(LodestoneTarget::format(), c, LodestoneTarget::val(v), text(v.dimension@) + packed(v.x as int, v.y as int, v.z as int)),
        forall|w: LodestoneTarget|
            #[trigger] LodestoneTarget::val(w) == LodestoneTarget::val(v) ==> w.dimension@ == v.dimension@ && w.x == v.x && w.y == v.y && w.z
                == v.z,
{
    let p = position_val(v.x as int, v.y as int, v.z as int);
    let b = packed(v.x as int, v.y as int, v.z as int);
    assert(Seq::<u8>::empty() + b =~= b);
    lemma_sent_text(c, v.dimension@);
    lemma_sent_leaf(Format::BlockPos, c, p, b);
    lemma_sent_pair(plain(), Format::BlockPos, c, Val::Text(v.dimension@), p, text(v.dimension@), b);
}

/// A compass is sent as what it points at and a byte that is one exactly where it is tracked.
pub proof fn lemma_lodestone_tracker_is_sent(v: LodestoneTrackerImpl, c: Ctx)
    requires
        v.target matches Some(t) ==> text_fits(t.dimension@, MAX_TEXT_BYTES as nat) && reachable(t.x as int, t.y as int, t.z as int),
    ensures
        sent(
            LodestoneTrackerImpl::format(),
            c,
            LodestoneTrackerImpl::val(v),
            maybe(
                v.target is Some,
                text(v.target->0.dimension@) + packed(v.target->0.x as int, v.target->0.y as int, v.target->0.z as int),
            ) + byte_of(v.is_tracked),
        ),
        forall|w: LodestoneTrackerImpl|
            #[trigger] LodestoneTrackerImpl::val(w) == LodestoneTrackerImpl::val(v) ==> w.is_tracked == v.is_tracked && (w.target is Some
                <==> v.target is Some),
{
    let t = v.target->0;
    let b = text(t.dimension@) + packed(t.x as int, t.y as int, t.z as int);
    if v.target is Some {
        lemma_target_is_sent(t, c);
        lemma_sent_present(LodestoneTarget::format(), c, LodestoneTarget::val(t), b);
    } else {
        lemma_sent_absent(LodestoneTarget::format(), c);
    }
    lemma_sent_bool(c, v.is_tracked);
    lemma_sent_pair(
        opt(LodestoneTarget::format()),
        Format::Bool,
        c,
        opt_val::<LodestoneTarget>(v.target),
        Val::Bool(v.is_tracked),
        maybe(v.target is Some, b),
        byte_of(v.is_tracked),
    );
}

pub open spec fn operation_number(v: Operation) -> int {
    match v {
        Operation::AddValue => 0,
        Operation::AddMultipliedBase => 1,
        Operation::AddMultipliedTotal => 2,
    }
}

pub open spec fn modifier_slot_number(v: AttributeModifierSlot) -> int {
    match v {
        AttributeModifierSlot::Any => 0,
        AttributeModifierSlot::MainHand => 1,
        AttributeModifierSlot::OffHand => 2,
        AttributeModifierSlot::Hand => 3,
        AttributeModifierSlot::Feet => 4,
        AttributeModifierSlot::Legs => 5,
        AttributeModifierSlot::Chest => 6,
        AttributeModifierSlot::Head => 7,
        AttributeModifierSlot::Armor => 8,
        AttributeModifierSlot::Body => 9,
        AttributeModifierSlot::Saddle => 10,
    }
}

/// The bytes of how a modifier is shown.
pub open spec fn display_bytes(v: ModifierDisplay) -> Seq<u8> {
    match v {
        ModifierDisplay::Default => var_int(0) + Seq::empty(),
        ModifierDisplay::Hidden => var_int(1) + Seq::empty(),
        ModifierDisplay::Override(t) => var_int(2) + tag_bytes(t@),
    }
}

/// Whether a modifier can be sent.
pub open spec fn modifier_fits(v: Modifier, c: Ctx) -> bool {
    &&& 0 <= v.attribute < c.regs.attributes@.len()
    &&& identifier_of(v.id@) is Some
    &&& text_fits(v.id@, MAX_TEXT_BYTES as nat)
    &&& v.display matches ModifierDisplay::Override(t) ==> tag_returns(t@) && t@ != Tag::End
}

/// The bytes of a modifier: the number of its attribute, its name, the bits of its amount, the numbers
/// of its operation and its place, and how it is shown.
pub open spec fn modifier_bytes(v: Modifier) -> Seq<u8> {
    var_int(v.attribute as int) + (text(v.id@) + (be_bytes(v.amount as nat, 8) + (var_int(operation_number(v.operation)) + (var_int(
        modifier_slot_number(v.slot),
    ) + display_bytes(v.display)))))
}

proof fn lemma_display_is_sent(v: ModifierDisplay, c: Ctx)
    requires
        v matches ModifierDisplay::Override(t) ==> tag_returns(t@) && t@ != Tag::End,
    ensures
        sent(ModifierDisplay::format(), c, ModifierDisplay::val(v), display_bytes(v)),
{
    let alts = ModifierDisplay::format()->Choice_0;
    let other = ModifierDisplay::format()->Choice_1;
    lemma_sent_unit(c);
    match v {
        ModifierDisplay::Default => {
            lemma_sent_choice(alts, other, c, 0, Val::Unit, Seq::empty());
        },
        ModifierDisplay::Hidden => {
            lemma_sent_choice(alts, other, c, 1, Val::Unit, Seq::empty());
        },
        ModifierDisplay::Override(t) => {
            assert(Seq::<u8>::empty() + tag_bytes(t@) =~= tag_bytes(t@));
            lemma_sent_leaf(alts[2], c, Val::Nbt(t@), tag_bytes(t@));
            lemma_sent_choice(alts, other, c, 2, Val::Nbt(t@), tag_bytes(t@));
        },
    }
}

/// A modifier of an attribute is sent field by field.
pub proof fn lemma_modifier_is_sent(v: Modifier, c: Ctx)
    requires
        modifier_fits(v, c),
    ensures
        sent(Modifier::format(), c, Modifier::val(v), modifier_bytes(v)),
        forall|w: Modifier|
            #[trigger] Modifier::val(w) == Modifier::val(v) ==> w.attribute == v.attribute && w.id@ == v.id@ && w.amount == v.amount && w.operation
                == v.operation && w.slot == v.slot,
{
    let id = Val::Text(v.id@);
    let amount = Val::Float(8, v.amount as nat);
    let operation = <Coded<AsOperation> as DataComponentCodec>::val(v.operation);
    let place = <Coded<AsModifierSlot> as DataComponentCodec>::val(v.slot);
    let display = ModifierDisplay::val(v.display);
    lemma_display_is_sent(v.display, c);
    lemma_sent_number(c, AsModifierSlot::check(), place, modifier_slot_number(v.slot));
    lemma_sent_number(c, AsOperation::check(), operation, operation_number(v.operation));
    lemma_sent_f64(c, v.amount);
    assert(Seq::<u8>::empty() + text(v.id@) =~= text(v.id@));
    lemma_sent_leaf(Format::Identifier, c, id, text(v.id@));
    lemma_sent_number(c, AsAttribute::check(), Val::Int(v.attribute as int), v.attribute as int);
    let f5 = Format::Checked(AsModifierSlot::check());
    let f4 = Format::Checked(AsOperation::check());
    let f6 = ModifierDisplay::format();
    let b6 = display_bytes(v.display);
    let b5 = var_int(modifier_slot_number(v.slot));
    let b4 = var_int(operation_number(v.operation));
    let b3 = be_bytes(v.amount as nat, 8);
    lemma_sent_pair(f5, f6, c, place, display, b5, b6);
    lemma_sent_pair(f4, both(f5, f6), c, operation, pair(place, display), b4, b5 + b6);
    lemma_sent_pair(Format::Float(8), both(f4, both(f5, f6)), c, amount, pair(operation, pair(place, display)), b3, b4 + (b5 + b6));
    lemma_sent_pair(
        Format::Identifier,
        both(Format::Float(8), both(f4, both(f5, f6))),
        c,
        id,
        pair(amount, pair(operation, pair(place, display))),
        text(v.id@),
        b3 + (b4 + (b5 + b6)),
    );
    lemma_sent_pair(
        Format::Checked(AsAttribute::check()),
        both(Format::Identifier, both(Format::Float(8), both(f4, both(f5, f6)))),
        c,
        Val::Int(v.attribute as int),
        pair(id, pair(amount, pair(operation, pair(place, display)))),
        var_int(v.attribute as int),
        text(v.id@) + (b3 + (b4 + (b5 + b6))),
    );
}

/// The modifiers of attributes are sent one behind the other.
pub proof fn lemma_modifiers_are_sent(v: AttributeModifiersImpl, c: Ctx)
    requires
        v.attribute_modifiers@.len() <= i32::MAX,
        forall|k: int| 0 <= k < v.attribute_modifiers@.len() ==> modifier_fits(#[trigger] v.attribute_modifiers@[k], c),
    ensures
        sent(
            AttributeModifiersImpl::format(),
            c,
            AttributeModifiersImpl::val(v),
            counted(v.attribute_modifiers@.len(), |k: int| modifier_bytes(v.attribute_modifiers@[k])),
        ),
{
    let x = vals::<Modifier>(v.attribute_modifiers@);
    assert forall|k: int| 0 <= k < x.len() implies sent(Modifier::format(), c, #[trigger] x[k], modifier_bytes(v.attribute_modifiers@[k])) by {
        lemma_modifier_is_sent(v.attribute_modifiers@[k], c);
    }
    lemma_sent_list(
        ModifierCount::rule(),
        ModifierCount::limit(),
        Modifier::format(),
        c,
        x,
        |k: int| modifier_bytes(v.attribute_modifiers@[k]),
    );
}

/// The components that are only there are sent as nothing.
pub proof fn lemma_marks_are_sent(c: Ctx)
    ensures
        sent(UnbreakableImpl::format(), c, UnbreakableImpl::val(UnbreakableImpl), Seq::empty()),
        sent(CreativeSlotLockImpl::format(), c, CreativeSlotLockImpl::val(CreativeSlotLockImpl), Seq::empty()),
        sent(GliderImpl::format(), c, GliderImpl::val(GliderImpl), Seq::empty()),
{
    lemma_sent_unit(c);
}

/// The components of which nothing is kept are sent as fixed bytes.
pub proof fn lemma_fixed_are_sent(c: Ctx)
    ensures
        sent(EnchantmentGlintOverrideImpl::format(), c, EnchantmentGlintOverrideImpl::val(EnchantmentGlintOverrideImpl), seq![1u8]),
        sent(InstrumentImpl::format(), c, InstrumentImpl::val(InstrumentImpl), var_int(0)),
        sent(ProvidesTrimMaterialImpl::format(), c, ProvidesTrimMaterialImpl::val(ProvidesTrimMaterialImpl), var_int(0)),
        sent(BreakSoundImpl::format(), c, BreakSoundImpl::val(BreakSoundImpl), var_int(0)),
        sent(AdditionalTradeCostImpl::format(), c, AdditionalTradeCostImpl::val(AdditionalTradeCostImpl), var_int(0)),
        sent(DyeImpl::format(), c, DyeImpl::val(DyeImpl), var_int(0)),
        sent(MapColorImpl::format(), c, MapColorImpl::val(MapColorImpl), be_signed(0, 4)),
{
    lemma_sent_bool(c, true);
    lemma_sent_fixed(Format::Bool, c, Val::Bool(true), Val::Unit, seq![1u8]);
    lemma_sent_var_int(c, 0);
    lemma_sent_fixed(Format::VarInt, c, Val::Int(0), Val::Unit, var_int(0));
    lemma_sent_i32(c, 0);
    lemma_sent_fixed(Format::Signed(4), c, Val::Int(0), Val::Unit, be_signed(0, 4));
}

/// How a map is processed is sent as zero where it is locked and as one where it is scaled.
pub proof fn lemma_processing_is_sent(v: MapPostProcessingImpl, c: Ctx)
    requires
        v.processing is Some,
    ensures
        sent(
            MapPostProcessingImpl::format(),
            c,
            MapPostProcessingImpl::val(v),
            var_int(match v.processing->0 {
                MapPostProcessing::Lock => 0,
                MapPostProcessing::Scale => 1,
            }),
        ),
{
    let i = match v.processing->0 {
        MapPostProcessing::Lock => 0int,
        MapPostProcessing::Scale => 1,
    };
    lemma_sent_number(c, AsProcessing::check(), MapPostProcessingImpl::val(v), i);
}

/// The song of a disc is sent as one more than its number.
pub proof fn lemma_song_is_sent(v: JukeboxPlayableImpl, i: int, c: Ctx)
    requires
        "minecraft:"@.is_prefix_of(v.song@),
        find_name(c.regs.songs@, bare_name(v.song@)) == Some(i),
        i < i32::MAX,
    ensures
        sent(JukeboxPlayableImpl::format(), c, JukeboxPlayableImpl::val(v), var_int(i + 1)),
        forall|w: JukeboxPlayableImpl| #[trigger] JukeboxPlayableImpl::val(w) == JukeboxPlayableImpl::val(v) ==> w.song@ == v.song@,
{
    lemma_found_name(c.regs.songs@, bare_name(v.song@), 0);
    lemma_small_count((i + 1) as nat);
    lemma_sent_number(c, AsSong::check(), JukeboxPlayableImpl::val(v), i + 1);
}

/// Data, names and lines are sent as their tags.
pub proof fn lemma_tags_are_sent(d: CustomDataImpl, n: CustomNameImpl, i: ItemNameImpl, l: LoreImpl, c: Ctx)
    ensures
        tag_returns(Tag::Compound(d.data@)) ==> sent(CustomDataImpl::format(), c, CustomDataImpl::val(d), tag_bytes(Tag::Compound(d.data@))),
        tag_returns(n.name@) && n.name@ is String ==> sent(CustomNameImpl::format(), c, CustomNameImpl::val(n), tag_bytes(n.name@)),
        tag_returns(i.name.shown()) && is_component(i.name.shown()) ==> sent(
            ItemNameImpl::format(),
            c,
            ItemNameImpl::val(i),
            tag_bytes(i.name.shown()),
        ),
        l.lines@.len() <= 256 && (forall|k: int|
            0 <= k < l.lines@.len() ==> tag_returns((#[trigger] l.lines@[k])@) && l.lines@[k]@ != Tag::End) ==> sent(
            LoreImpl::format(),
            c,
            LoreImpl::val(l),
            counted(l.lines@.len(), |k: int| tag_bytes(l.lines@[k]@)),
        ),
{
    let e = Seq::<u8>::empty();
    if tag_returns(Tag::Compound(d.data@)) {
        assert(e + tag_bytes(Tag::Compound(d.data@)) =~= tag_bytes(Tag::Compound(d.data@)));
        lemma_sent_leaf(CustomDataImpl::format(), c, CustomDataImpl::val(d), tag_bytes(Tag::Compound(d.data@)));
    }
    if tag_returns(n.name@) && n.name@ is String {
        assert(e + tag_bytes(n.name@) =~= tag_bytes(n.name@));
        lemma_sent_leaf(CustomNameImpl::format(), c, CustomNameImpl::val(n), tag_bytes(n.name@));
    }
    if tag_returns(i.name.shown()) && is_component(i.name.shown()) {
        assert(e + tag_bytes(i.name.shown()) =~= tag_bytes(i.name.shown()));
        lemma_sent_leaf(ItemNameImpl::format(), c, ItemNameImpl::val(i), tag_bytes(i.name.shown()));
    }
    if l.lines@.len() <= 256 && (forall|k: int|
        0 <= k < l.lines@.len() ==> tag_returns((#[trigger] l.lines@[k])@) && l.lines@[k]@ != Tag::End) {
        let x = vals::<AsLine>(l.lines@);
        assert forall|k: int| 0 <= k < x.len() implies sent(AsLine::format(), c, #[trigger] x[k], tag_bytes(l.lines@[k]@)) by {
            assert(e + tag_bytes(l.lines@[k]@) =~= tag_bytes(l.lines@[k]@));
            lemma_sent_leaf(AsLine::format(), c, Val::Nbt(l.lines@[k]@), tag_bytes(l.lines@[k]@));
        }
        lemma_sent_list(LoreCount::rule(), LoreCount::limit(), AsLine::format(), c, x, |k: int| tag_bytes(l.lines@[k]@));
    }
}

} // verus!
