//! The pieces that component values are made of.
use std::marker::PhantomData;
use vstd::prelude::*;
use crate::codec::{count_as_i32, decodes, encodes, Context, DataComponentCodec};
use crate::errors::{cannot_write, cannot_write_name, limit_exceeded, message, NbtError, ReadingError, WritingError};
use crate::format::{effect_val, ids_bytes, is_component, low_signed, optional, pair, plain_text, put_nbt, read_any_sound, read_effect_details, read_id_set, read_ids, read_nbt, read_uuid, read_val, skip_id_set, skip_var_ints, sound_known, uuid_val, write_any_sound, write_effect_details, write_id_set, write_profile_head, write_val, Format, NbtRole, SoundRule, Val, MAX_EFFECT_DEPTH, MAX_IDSET_ELEMENTS};
use crate::nbt_read::NbtReadHelperJava;
use crate::nbt_source::NbtStreamReader;
use crate::nbt_tag::{NbtCompound, NbtTag, Tag};
use crate::registry::{position_of, Registries, RegistryKind};
use crate::same::{match_tags, same_f32, tags_match, val_same, vals_same};
use crate::text::same_text;
use crate::wire::{done, fail, get_bool, get_i32, get_str, get_u32, get_u64, get_var_int, text, write_bool, write_i32, write_string, write_u32, write_u64, write_var_int, Outcome};

verus! {

/// A registry number, or the thing itself.
#[derive(Debug, PartialEq)]
pub enum IdOr<T> {
    Id(u16),
    Value(T),
}

/// A sound that is not in the registry.
#[derive(Debug, PartialEq)]
pub struct SoundEvent {
    pub sound_name: String,
    /// How far it can be heard, as the bit pattern of a 32-bit floating-point number.
    pub range: Option<u32>,
}

impl SoundEvent {
    /// A sound with a name and a range.
    pub fn new(sound_name: String, range: Option<u32>) -> (r: Self)
        ensures
            r.sound_name == sound_name,
            r.range == range,
    {
        SoundEvent { sound_name, range }
    }
}

/// What a sound is to its format.
pub open spec fn sound_val(v: IdOr<SoundEvent>) -> Val {
    match v {
        IdOr::Id(i) => Val::Int(i as int),
        IdOr::Value(s) => pair(
            Val::Text(s.sound_name@),
            match s.range {
                Some(b) => optional(Some(Val::Float(4, b as nat))),
                None => Val::Absent,
            },
        ),
    }
}

/// What an optional sound is to its format.
pub open spec fn opt_sound_val(v: Option<IdOr<SoundEvent>>) -> Val {
    match v {
        Some(s) => optional(Some(sound_val(s))),
        None => Val::Absent,
    }
}

/// Reads a sound without asking whether its number is known.
pub fn get_any_sound(seq: &mut &[u8]) -> (r: Result<IdOr<SoundEvent>, ReadingError>)
    ensures
        decodes(read_any_sound(old(seq)@), r, final(seq)@, |v: IdOr<SoundEvent>| sound_val(v)),
{
    let v: i32 = get_var_int(seq)?;
    if v != 0 {
        let id: i64 = v as i64 - 1;
        let low: u16 = if id < 0 {
            ((id + 0x1_0000_0000) % 0x1_0000) as u16
        } else {
            (id % 0x1_0000) as u16
        };
        assert(low == (v - 1) % 0x1_0000);
        return Ok(IdOr::Id(low));
    }
    let sound_name = get_str(seq)?;
    let range: Option<u32> = if get_bool(seq)? {
        Some(get_u32(seq)?)
    } else {
        None
    };
    Ok(IdOr::Value(SoundEvent { sound_name, range }))
}

/// Appends a sound.
pub fn put_any_sound(value: &IdOr<SoundEvent>, out: &mut Vec<u8>) -> (r: Result<(), WritingError>)
    ensures
        encodes(write_any_sound(old(out)@, sound_val(*value)), r, final(out)@),
{
    match value {
        IdOr::Id(i) => {
            write_var_int(out, *i as i32 + 1);
            Ok(())
        },
        IdOr::Value(s) => {
            write_var_int(out, 0);
            write_string(out, s.sound_name.as_str())?;
            match s.range {
                Some(b) => {
                    write_bool(out, true);
                    write_u32(out, b);
                },
                None => {
                    write_bool(out, false);
                },
            }
            Ok(())
        },
    }
}

/// Whether a sound is given by its name or by a known number.
pub fn is_sound_known(regs: &Registries, v: &IdOr<SoundEvent>) -> (r: bool)
    ensures
        r == sound_known(*regs, sound_val(*v)),
{
    match v {
        IdOr::Id(i) => (*i as usize) < regs.sounds.len(),
        IdOr::Value(_) => true,
    }
}

/// The sound as packets carry it.
pub fn data_to_proto_sound(id_or: &IdOr<SoundEvent>) -> (r: IdOr<SoundEvent>)
    ensures
        sound_val(r) == sound_val(*id_or),
{
    match id_or {
        IdOr::Id(id) => IdOr::Id(*id),
        IdOr::Value(sound) => IdOr::Value(SoundEvent { sound_name: sound.sound_name.clone(), range: sound.range }),
    }
}

/// The sound that a packet carried, unless its number is not known.
pub fn proto_to_data_sound(id_or: &IdOr<SoundEvent>, regs: &Registries) -> (r: Option<IdOr<SoundEvent>>)
    ensures
        r is Some <==> sound_known(*regs, sound_val(*id_or)),
        r matches Some(v) ==> sound_val(v) == sound_val(*id_or),
{
    if is_sound_known(regs, id_or) {
        Some(data_to_proto_sound(id_or))
    } else {
        None
    }
}

/// Whether two sounds are the same.
pub fn equal_sounds(a: &IdOr<SoundEvent>, b: &IdOr<SoundEvent>) -> (r: bool)
    ensures
        r == val_same(sound_val(*a), sound_val(*b)),
{
    proof {
        reveal_with_fuel(val_same, 3);
    }
    match (a, b) {
        (IdOr::Id(x), IdOr::Id(y)) => *x == *y,
        (IdOr::Value(x), IdOr::Value(y)) => same_text(x.sound_name.as_str(), y.sound_name.as_str()) && match (x.range, y.range) {
            (Some(p), Some(q)) => same_f32(p, q),
            (None, None) => true,
            _ => false,
        },
        _ => false,
    }
}

/// A fixed text.
pub trait Wording {
    spec fn spec_text() -> &'static str;

    fn text() -> (r: &'static str)
        ensures
            r == Self::spec_text(),
    ;
}

/// A sound whose number has to be known.
pub struct KnownSound<T> {
    marker: PhantomData<T>,
}

impl<T: Wording> DataComponentCodec for KnownSound<T> {
    type Value = IdOr<SoundEvent>;

    open spec fn format() -> Format {
        Format::Sound(SoundRule::Known(T::spec_text()))
    }

    open spec fn val(v: IdOr<SoundEvent>) -> Val {
        sound_val(v)
    }

    fn deserialize(seq: &mut &[u8], ctx: &Context) -> (r: Result<IdOr<SoundEvent>, ReadingError>) {
        proof {
            reveal(read_val);
        }
        let v = get_any_sound(seq)?;
        if is_sound_known(ctx.regs, &v) {
            Ok(v)
        } else {
            Err(message(T::text()))
        }
    }

    fn serialize(value: &IdOr<SoundEvent>, out: &mut Vec<u8>, ctx: &Context) -> (r: Result<(), WritingError>) {
        proof {
            reveal(write_val);
        }
        put_any_sound(value, out)
    }

    fn equal(a: &IdOr<SoundEvent>, b: &IdOr<SoundEvent>) -> (r: bool) {
        equal_sounds(a, b)
    }
}

/// A sound whose number has to be known, and a flag behind it.
pub struct KnownSoundThenFlag<T> {
    marker: PhantomData<T>,
}

impl<T: Wording> DataComponentCodec for KnownSoundThenFlag<T> {
    type Value = (IdOr<SoundEvent>, bool);

    open spec fn format() -> Format {
        Format::Sound(SoundRule::KnownThenFlag(T::spec_text()))
    }

    open spec fn val(v: (IdOr<SoundEvent>, bool)) -> Val {
        pair(sound_val(v.0), Val::Bool(v.1))
    }

    fn deserialize(seq: &mut &[u8], ctx: &Context) -> (r: Result<(IdOr<SoundEvent>, bool), ReadingError>) {
        proof {
            reveal(read_val);
        }
        let v = get_any_sound(seq)?;
        let b: bool = get_bool(seq)?;
        if is_sound_known(ctx.regs, &v) {
            Ok((v, b))
        } else {
            Err(message(T::text()))
        }
    }

    fn serialize(value: &(IdOr<SoundEvent>, bool), out: &mut Vec<u8>, ctx: &Context) -> (r: Result<(), WritingError>) {
        proof {
            reveal(write_val);
        }
        put_any_sound(&value.0, out)?;
        write_bool(out, value.1);
        Ok(())
    }

    fn equal(a: &(IdOr<SoundEvent>, bool), b: &(IdOr<SoundEvent>, bool)) -> (r: bool) {
        proof {
            reveal_with_fuel(val_same, 2);
        }
        equal_sounds(&a.0, &b.0) && a.1 == b.1
    }
}

/// A sound whose number has to be known and whose errors are reported under one name.
pub struct RenamedSound<T, U> {
    unreadable: PhantomData<T>,
    unknown: PhantomData<U>,
}

impl<T: Wording, U: Wording> DataComponentCodec for RenamedSound<T, U> {
    type Value = IdOr<SoundEvent>;

    open spec fn format() -> Format {
        Format::Sound(SoundRule::Renamed(T::spec_text(), U::spec_text()))
    }

    open spec fn val(v: IdOr<SoundEvent>) -> Val {
        sound_val(v)
    }

    fn deserialize(seq: &mut &[u8], ctx: &Context) -> (r: Result<IdOr<SoundEvent>, ReadingError>) {
        proof {
            reveal(read_val);
        }
        match get_any_sound(seq) {
            Err(_) => Err(message(T::text())),
            Ok(v) => if is_sound_known(ctx.regs, &v) {
                Ok(v)
            } else {
                Err(message(U::text()))
            },
        }
    }

    fn serialize(value: &IdOr<SoundEvent>, out: &mut Vec<u8>, ctx: &Context) -> (r: Result<(), WritingError>) {
        proof {
            reveal(write_val);
        }
        put_any_sound(value, out)
    }

    fn equal(a: &IdOr<SoundEvent>, b: &IdOr<SoundEvent>) -> (r: bool) {
        equal_sounds(a, b)
    }
}

/// A sound that may be absent; an unknown number counts as no sound.
pub struct OptionalSound<T> {
    marker: PhantomData<T>,
}

impl<T: Wording> DataComponentCodec for OptionalSound<T> {
    type Value = Option<IdOr<SoundEvent>>;

    open spec fn format() -> Format {
        Format::Sound(SoundRule::Optional(T::spec_text()))
    }

    open spec fn val(v: Option<IdOr<SoundEvent>>) -> Val {
        opt_sound_val(v)
    }

    fn deserialize(seq: &mut &[u8], ctx: &Context) -> (r: Result<Option<IdOr<SoundEvent>>, ReadingError>) {
        proof {
            reveal(read_val);
        }
        if !get_bool(seq)? {
            return Ok(None);
        }
        match get_any_sound(seq) {
            Err(_) => Err(message(T::text())),
            Ok(v) => if is_sound_known(ctx.regs, &v) {
                Ok(Some(v))
            } else {
                Ok(None)
            },
        }
    }

    fn serialize(value: &Option<IdOr<SoundEvent>>, out: &mut Vec<u8>, ctx: &Context) -> (r: Result<(), WritingError>) {
        proof {
            reveal(write_val);
        }
        match value {
            Some(v) => {
                write_bool(out, true);
                put_any_sound(v, out)
            },
            None => {
                write_bool(out, false);
                Ok(())
            },
        }
    }

    fn equal(a: &Option<IdOr<SoundEvent>>, b: &Option<IdOr<SoundEvent>>) -> (r: bool) {
        match (a, b) {
            (Some(x), Some(y)) => equal_sounds(x, y),
            (None, None) => true,
            _ => false,
        }
    }
}

/// A set of registry entries: those under a tag, or some by their numbers.
#[derive(Debug, PartialEq)]
pub enum IDSet {
    Tag(String),
    IDs(Vec<u16>),
}

/// The numbers of a list, as their format sees them.
pub open spec fn id_vals(v: Seq<u16>) -> Seq<Val> {
    Seq::new(v.len(), |i: int| Val::Int(v[i] as int))
}

/// What a set of registry entries is to its format.
pub open spec fn id_set_val(v: IDSet) -> Val {
    match v {
        IDSet::Tag(t) => pair(Val::Int(0), Val::Text(t@)),
        IDSet::IDs(l) => pair(Val::Int(1), Val::List(id_vals(l@))),
    }
}

/// A registry.
pub trait OfKind {
    spec fn spec_kind() -> RegistryKind;

    fn kind() -> (r: RegistryKind)
        ensures
            r == Self::spec_kind(),
    ;
}

/// Reads a set of registry entries.
pub fn deserialize_idset(seq: &mut &[u8], kind: RegistryKind, regs: &Registries) -> (r: Result<IDSet, ReadingError>)
    ensures
        decodes(read_id_set(kind, *regs, old(seq)@), r, final(seq)@, |v: IDSet| id_set_val(v)),
{
    let v: i32 = get_var_int(seq)?;
    if v == 0 {
        return Ok(IDSet::Tag(get_str(seq)?));
    }
    if v < 0 {
        return Err(message("Negative type/len VarInt in IDSet"));
    }
    let n: usize = (v - 1) as usize;
    if n > MAX_IDSET_ELEMENTS {
        return Err(message("Too many IDSet elements"));
    }
    let ghost o = read_ids(kind, *regs, n as nat, seq@, Seq::empty());
    let ghost start = seq@;
    let mut ids: Vec<u16> = Vec::new();
    assert(id_vals(ids@) =~= Seq::<Val>::empty());
    let mut i: usize = 0;
    while i < n
        invariant
            i <= n,
            o == read_ids(kind, *regs, (n - i) as nat, seq@, id_vals(ids@)),
            read_id_set(kind, *regs, old(seq)@) == (match o {
                Outcome { value: Err(e), rest } => fail(e, rest),
                Outcome { value: Ok(l), rest } => done(pair(Val::Int(1), l), rest),
            }),
        decreases n - i,
    {
        let id: i32 = get_var_int(seq)?;
        let low: u16 = if id < 0 {
            ((id as i64 + 0x1_0000_0000) % 0x1_0000) as u16
        } else {
            (id % 0x1_0000) as u16
        };
        assert(low == id as int % 0x1_0000);
        if !regs.is_known(kind, low) {
            return Err(message("Invalid registry id VarInt in IDSet"));
        }
        let ghost head = id_vals(ids@);
        ids.push(low);
        assert(id_vals(ids@) =~= head.push(Val::Int(low as int)));
        i += 1;
    }
    Ok(IDSet::IDs(ids))
}

/// Appends a set of registry entries.
pub fn serialize_idset(value: &IDSet, out: &mut Vec<u8>) -> (r: Result<(), WritingError>)
    ensures
        encodes(write_id_set(old(out)@, id_set_val(*value)), r, final(out)@),
{
    match value {
        IDSet::Tag(t) => {
            write_var_int(out, 0);
            write_string(out, t.as_str())
        },
        IDSet::IDs(ids) => {
            if ids.len() > MAX_IDSET_ELEMENTS {
                return Err(cannot_write("Too many IDSet elements"));
            }
            write_var_int(out, ids.len() as i32 + 1);
            let ghost all = id_vals(ids@);
            let ghost target = out@ + ids_bytes(all, 0);
            let mut i: usize = 0;
            while i < ids.len()
                invariant
                    i <= ids.len(),
                    all == id_vals(ids@),
                    target == out@ + ids_bytes(all, i as int),
                decreases ids.len() - i,
            {
                let ghost before = out@;
                write_var_int(out, ids[i] as i32);
                assert(all[i as int] == Val::Int(ids@[i as int] as int));
                assert(before + ids_bytes(all, i as int) =~= out@ + ids_bytes(all, i + 1));
                i += 1;
            }
            assert(out@ + ids_bytes(all, i as int) =~= out@);
            Ok(())
        },
    }
}

/// Whether two sets of registry entries are the same.
pub fn equal_id_sets(a: &IDSet, b: &IDSet) -> (r: bool)
    ensures
        r == val_same(id_set_val(*a), id_set_val(*b)),
{
    proof {
        reveal_with_fuel(val_same, 2);
    }
    match (a, b) {
        (IDSet::Tag(x), IDSet::Tag(y)) => same_text(x.as_str(), y.as_str()),
        (IDSet::IDs(x), IDSet::IDs(y)) => {
            if x.len() != y.len() {
                return false;
            }
            let ghost p = id_vals(x@);
            let ghost q = id_vals(y@);
            let mut i: usize = 0;
            while i < x.len()
                invariant
                    i <= x.len(),
                    x.len() == y.len(),
                    p == id_vals(x@),
                    q == id_vals(y@),
                    val_same(id_set_val(*a), id_set_val(*b)) == vals_same(p, q, p.len()),
                    vals_same(p, q, i as nat),
                decreases x.len() - i,
            {
                assert(p[i as int] == Val::Int(x@[i as int] as int) && q[i as int] == Val::Int(y@[i as int] as int));
                if x[i] != y[i] {
                    proof {
                        crate::codec::lemma_vals_differ(p, q, i as nat, p.len());
                    }
                    return false;
                }
                assert(val_same(p[i as int], q[i as int]));
                i += 1;
            }
            true
        },
        _ => false,
    }
}

/// A set of entries of a registry.
pub struct SetOf<K> {
    marker: PhantomData<K>,
}

impl<K: OfKind> DataComponentCodec for SetOf<K> {
    type Value = IDSet;

    open spec fn format() -> Format {
        Format::IdSet(K::spec_kind())
    }

    open spec fn val(v: IDSet) -> Val {
        id_set_val(v)
    }

    fn deserialize(seq: &mut &[u8], ctx: &Context) -> (r: Result<IDSet, ReadingError>) {
        proof {
            reveal(read_val);
        }
        deserialize_idset(seq, K::kind(), ctx.regs)
    }

    fn serialize(value: &IDSet, out: &mut Vec<u8>, ctx: &Context) -> (r: Result<(), WritingError>) {
        proof {
            reveal(write_val);
        }
        serialize_idset(value, out)
    }

    fn equal(a: &IDSet, b: &IDSet) -> (r: bool) {
        equal_id_sets(a, b)
    }
}

/// A status effect, with the effect hidden behind it.
#[derive(Debug, PartialEq)]
pub struct StatusEffectInstance {
    pub effect_id: String,
    pub amplifier: i32,
    pub duration: i32,
    pub ambient: bool,
    pub show_particles: bool,
    pub show_icon: bool,
    pub hidden_effect: Option<Box<StatusEffectInstance>>,
}

/// What a status effect is to its format.
pub open spec fn effect_instance_val(v: StatusEffectInstance) -> Val
    decreases v,
{
    effect_val(
        v.effect_id@,
        v.amplifier as int,
        v.duration as int,
        v.ambient,
        v.show_particles,
        v.show_icon,
        match v.hidden_effect {
            Some(h) => optional(Some(effect_instance_val(*h))),
            None => Val::Absent,
        },
    )
}

/// Reads the details of a status effect, behind which `left` more may be hidden.
pub fn deserialize_status_effect(seq: &mut &[u8], effect_name: &str, left: usize) -> (r: Result<StatusEffectInstance, ReadingError>)
    ensures
        decodes(
            read_effect_details(effect_name@, left as nat, old(seq)@),
            r,
            final(seq)@,
            |v: StatusEffectInstance| effect_instance_val(v),
        ),
    decreases left,
{
    let amplifier: i32 = get_var_int(seq)?;
    let duration: i32 = get_var_int(seq)?;
    let ambient: bool = get_bool(seq)?;
    let show_particles: bool = get_bool(seq)?;
    let show_icon: bool = get_bool(seq)?;
    let has_hidden: bool = get_bool(seq)?;
    let hidden_effect: Option<Box<StatusEffectInstance>> = if has_hidden {
        if left == 0 {
            return Err(limit_exceeded("Potion effect hidden depth exceeded"));
        }
        Some(Box::new(deserialize_status_effect(seq, effect_name, left - 1)?))
    } else {
        None
    };
    Ok(
        StatusEffectInstance {
            effect_id: effect_name.to_owned(),
            amplifier,
            duration,
            ambient,
            show_particles,
            show_icon,
            hidden_effect,
        },
    )
}

/// Appends the details of a status effect named `name`.
fn put_effect_details(value: &StatusEffectInstance, name: &str, out: &mut Vec<u8>) -> (r: Result<(), WritingError>)
    ensures
        encodes(write_effect_details(name@, old(out)@, effect_instance_val(*value)), r, final(out)@),
    decreases *value,
{
    if !same_text(value.effect_id.as_str(), name) {
        return Err(cannot_write("Hidden status effect has a different effect id"));
    }
    write_var_int(out, value.amplifier);
    write_var_int(out, value.duration);
    write_bool(out, value.ambient);
    write_bool(out, value.show_particles);
    write_bool(out, value.show_icon);
    match &value.hidden_effect {
        Some(h) => {
            write_bool(out, true);
            put_effect_details(h, name, out)
        },
        None => {
            write_bool(out, false);
            Ok(())
        },
    }
}

/// Whether two status effects are the same.
pub fn equal_effects(a: &StatusEffectInstance, b: &StatusEffectInstance) -> (r: bool)
    ensures
        r == val_same(effect_instance_val(*a), effect_instance_val(*b)),
    decreases *a,
{
    proof {
        reveal_with_fuel(val_same, 9);
    }
    same_text(a.effect_id.as_str(), b.effect_id.as_str()) && a.amplifier == b.amplifier && a.duration == b.duration && a.ambient
        == b.ambient && a.show_particles == b.show_particles && a.show_icon == b.show_icon && match (
        &a.hidden_effect,
        &b.hidden_effect,
    ) {
        (Some(x), Some(y)) => equal_effects(x, y),
        (None, None) => true,
        _ => false,
    }
}

/// A status effect.
pub struct AsEffect;

impl DataComponentCodec for AsEffect {
    type Value = StatusEffectInstance;

    open spec fn format() -> Format {
        Format::Effect
    }

    open spec fn val(v: StatusEffectInstance) -> Val {
        effect_instance_val(v)
    }

    fn deserialize(seq: &mut &[u8], ctx: &Context) -> (r: Result<StatusEffectInstance, ReadingError>) {
        proof {
            reveal(read_val);
        }
        let v: i32 = get_var_int(seq)?;
        if v < 0 || v > 0xffff || (v as usize) >= ctx.regs.effects.len() {
            return Err(message("Invalid effect_id!"));
        }
        deserialize_status_effect(seq, ctx.regs.effects[v as usize].as_str(), MAX_EFFECT_DEPTH)
    }

    fn serialize(value: &StatusEffectInstance, out: &mut Vec<u8>, ctx: &Context) -> (r: Result<(), WritingError>) {
        proof {
            reveal(write_val);
        }
        match position_of(&ctx.regs.effects, value.effect_id.as_str()) {
            None => Err(cannot_write_name("Invalid status effect: {}", value.effect_id.as_str())),
            Some(i) => {
                write_var_int(out, count_as_i32(i));
                put_effect_details(value, value.effect_id.as_str(), out)
            },
        }
    }

    fn equal(a: &StatusEffectInstance, b: &StatusEffectInstance) -> (r: bool) {
        equal_effects(a, b)
    }
}

/// A text component, by the tag that describes it: a text for a literal without style, a compound
/// for anything else.
#[derive(Debug, PartialEq)]
pub struct TextComponent {
    pub tag: NbtTag,
}

impl TextComponent {
    pub open spec fn view(&self) -> Tag {
        self.tag@
    }

    /// A literal text.
    pub fn text(content: String) -> (r: Self)
        ensures
            r@ == Tag::String(content@),
    {
        TextComponent { tag: NbtTag::String(content) }
    }

    /// The empty text.
    pub fn empty() -> (r: Self)
        ensures
            r@ == Tag::String(Seq::empty()),
    {
        let t = String::new();
        assert(t@ =~= Seq::<char>::empty());
        TextComponent { tag: NbtTag::String(t) }
    }

    /// A text that the client looks up under a key.
    pub fn translate(key: &str) -> (r: Self)
        ensures
            r@ == Tag::Compound(seq![("translate"@, Tag::String(key@))]),
    {
        let mut c = NbtCompound::new();
        c.put_string("translate", key.to_owned());
        let r = TextComponent { tag: NbtTag::Compound(c) };
        assert(c@ =~= seq![("translate"@, Tag::String(key@))]);
        r
    }

    /// The component that a tag describes.
    pub fn from_nbt(tag: &NbtTag) -> (r: Self)
        ensures
            r@ == tag@,
    {
        TextComponent { tag: tag.copy() }
    }

    /// The component that a tag describes, where it describes one.
    pub fn try_from_nbt(tag: &NbtTag) -> (r: Option<Self>)
        ensures
            match r {
                Some(c) => is_component(tag@) && c@ == tag@,
                None => !is_component(tag@),
            },
    {
        match tag {
            NbtTag::String(_) => Some(TextComponent::from_nbt(tag)),
            NbtTag::Compound(_) => Some(TextComponent::from_nbt(tag)),
            NbtTag::List(v) => {
                assert(tag@ == Tag::List(crate::nbt_tag::tags_of(v@)));
                if v.len() > 0 {
                    Some(TextComponent::from_nbt(tag))
                } else {
                    None
                }
            },
            _ => None,
        }
    }

    /// The tag that describes the component.
    pub fn to_nbt_tag(&self) -> (r: NbtTag)
        ensures
            r@ == self@,
    {
        self.tag.copy()
    }

    /// The plain text.
    pub fn get_text(&self) -> (r: String)
        ensures
            r@ == plain_text(self@),
    {
        match &self.tag {
            NbtTag::String(t) => t.clone(),
            NbtTag::Compound(c) => match c.get_string("text") {
                Some(t) => t.clone(),
                None => match c.get_string("translate") {
                    Some(t) => t.clone(),
                    None => empty_text(),
                },
            },
            _ => empty_text(),
        }
    }

    /// A copy.
    pub fn copy(&self) -> (r: Self)
        ensures
            r@ == self@,
    {
        TextComponent { tag: self.tag.copy() }
    }
}

impl Clone for TextComponent {
    fn clone(&self) -> (r: Self)
        ensures
            r@ == self@,
    {
        self.copy()
    }
}

/// The empty text.
pub fn empty_text() -> (r: String)
    ensures
        r@ == Seq::<char>::empty(),
{
    let t = String::new();
    assert(t@ =~= Seq::<char>::empty());
    t
}

/// Reads a tag; the end tag counts as none.
pub fn get_nbt(seq: &mut &[u8]) -> (r: Result<Option<NbtTag>, ReadingError>)
    ensures
        match r {
            Ok(Some(t)) => read_nbt(old(seq)@) == done(Some(t@), final(seq)@),
            Ok(None) => read_nbt(old(seq)@) == done(None::<Tag>, final(seq)@),
            Err(e) => read_nbt(old(seq)@) == fail::<Option<Tag>>(e@, final(seq)@),
        },
{
    let mut reader = NbtReadHelperJava::new(NbtStreamReader { rest: *seq });
    let r = NbtTag::deserialize(&mut reader);
    *seq = reader.reader.rest;
    match r {
        Ok(NbtTag::End) => Ok(None),
        Ok(t) => Ok(Some(t)),
        Err(NbtError::Incomplete) => Err(ReadingError::Incomplete),
        Err(_) => Err(message("invalid tag")),
    }
}

/// Appends a tag.
pub fn write_nbt(tag: &NbtTag, out: &mut Vec<u8>) -> (r: Result<(), WritingError>)
    ensures
        encodes(put_nbt(old(out)@, tag@), r, final(out)@),
{
    tag.serialize(out)?;
    Ok(())
}

/// Whether two tags are the same.
pub fn equal_tags(a: &NbtTag, b: &NbtTag) -> (r: bool)
    ensures
        r == val_same(Val::Nbt(a@), Val::Nbt(b@)),
{
    assert(val_same(Val::Nbt(a@), Val::Nbt(b@)) == tags_match(a@, b@, false));
    match_tags(a, b, false)
}

/// Any tag; the end tag stands for none.
pub struct AnyTag;

impl DataComponentCodec for AnyTag {
    type Value = NbtTag;

    open spec fn format() -> Format {
        Format::Nbt(NbtRole::Any)
    }

    open spec fn val(v: NbtTag) -> Val {
        Val::Nbt(v@)
    }

    fn deserialize(seq: &mut &[u8], ctx: &Context) -> (r: Result<NbtTag, ReadingError>) {
        proof {
            reveal(read_val);
        }
        match get_nbt(seq)? {
            Some(t) => Ok(t),
            None => Ok(NbtTag::End),
        }
    }

    fn serialize(value: &NbtTag, out: &mut Vec<u8>, ctx: &Context) -> (r: Result<(), WritingError>) {
        proof {
            reveal(write_val);
        }
        write_nbt(value, out)
    }

    fn equal(a: &NbtTag, b: &NbtTag) -> (r: bool) {
        assert(AnyTag::val(*a) == Val::Nbt(a@));
        assert(AnyTag::val(*b) == Val::Nbt(b@));
        equal_tags(a, b)
    }
}

/// Any tag but the end tag.
pub struct RequiredTag<T> {
    marker: PhantomData<T>,
}

impl<T: Wording> DataComponentCodec for RequiredTag<T> {
    type Value = NbtTag;

    open spec fn format() -> Format {
        Format::Nbt(NbtRole::Required(T::spec_text()))
    }

    open spec fn val(v: NbtTag) -> Val {
        Val::Nbt(v@)
    }

    fn deserialize(seq: &mut &[u8], ctx: &Context) -> (r: Result<NbtTag, ReadingError>) {
        proof {
            reveal(read_val);
        }
        match get_nbt(seq)? {
            Some(t) => Ok(t),
            None => Err(message(T::text())),
        }
    }

    fn serialize(value: &NbtTag, out: &mut Vec<u8>, ctx: &Context) -> (r: Result<(), WritingError>) {
        proof {
            reveal(write_val);
        }
        match value {
            NbtTag::End => Err(cannot_write("tag is missing")),
            _ => write_nbt(value, out),
        }
    }

    fn equal(a: &NbtTag, b: &NbtTag) -> (r: bool) {
        equal_tags(a, b)
    }
}

/// A compound, where the end tag stands for the empty one.
pub struct AsCompound;

impl DataComponentCodec for AsCompound {
    type Value = NbtCompound;

    open spec fn format() -> Format {
        Format::Nbt(NbtRole::Compound)
    }

    open spec fn val(v: NbtCompound) -> Val {
        Val::Nbt(Tag::Compound(v@))
    }

    fn deserialize(seq: &mut &[u8], ctx: &Context) -> (r: Result<NbtCompound, ReadingError>) {
        proof {
            reveal(read_val);
        }
        match get_nbt(seq)? {
            None => Ok(NbtCompound::new()),
            Some(NbtTag::Compound(c)) => Ok(c),
            Some(_) => Err(message("tag is not a compound")),
        }
    }

    fn serialize(value: &NbtCompound, out: &mut Vec<u8>, ctx: &Context) -> (r: Result<(), WritingError>) {
        proof {
            reveal(write_val);
        }
        write_nbt(&NbtTag::Compound(value.copy()), out)
    }

    fn equal(a: &NbtCompound, b: &NbtCompound) -> (r: bool) {
        crate::same::match_compounds(a, b, false)
    }
}

/// A compound, where anything else stands for the empty one.
pub struct LenientCompound;

impl DataComponentCodec for LenientCompound {
    type Value = NbtCompound;

    open spec fn format() -> Format {
        Format::Nbt(NbtRole::LenientCompound)
    }

    open spec fn val(v: NbtCompound) -> Val {
        Val::Nbt(Tag::Compound(v@))
    }

    fn deserialize(seq: &mut &[u8], ctx: &Context) -> (r: Result<NbtCompound, ReadingError>) {
        proof {
            reveal(read_val);
        }
        match get_nbt(seq)? {
            Some(NbtTag::Compound(c)) => Ok(c),
            _ => Ok(NbtCompound::new()),
        }
    }

    fn serialize(value: &NbtCompound, out: &mut Vec<u8>, ctx: &Context) -> (r: Result<(), WritingError>) {
        proof {
            reveal(write_val);
        }
        write_nbt(&NbtTag::Compound(value.copy()), out)
    }

    fn equal(a: &NbtCompound, b: &NbtCompound) -> (r: bool) {
        crate::same::match_compounds(a, b, false)
    }
}

/// A text component, where the end tag stands for the empty text.
pub struct AsLine;

impl DataComponentCodec for AsLine {
    type Value = TextComponent;

    open spec fn format() -> Format {
        Format::Nbt(NbtRole::Line)
    }

    open spec fn val(v: TextComponent) -> Val {
        Val::Nbt(v@)
    }

    fn deserialize(seq: &mut &[u8], ctx: &Context) -> (r: Result<TextComponent, ReadingError>) {
        proof {
            reveal(read_val);
        }
        match get_nbt(seq)? {
            Some(tag) => Ok(TextComponent { tag }),
            None => Ok(TextComponent::empty()),
        }
    }

    fn serialize(value: &TextComponent, out: &mut Vec<u8>, ctx: &Context) -> (r: Result<(), WritingError>) {
        proof {
            reveal(write_val);
        }
        write_nbt(&value.tag, out)
    }

    fn equal(a: &TextComponent, b: &TextComponent) -> (r: bool) {
        equal_tags(&a.tag, &b.tag)
    }
}

/// A text component of which only the plain text is written.
pub struct AsName;

impl DataComponentCodec for AsName {
    type Value = TextComponent;

    open spec fn format() -> Format {
        Format::Nbt(NbtRole::Name)
    }

    open spec fn val(v: TextComponent) -> Val {
        Val::Nbt(v@)
    }

    fn deserialize(seq: &mut &[u8], ctx: &Context) -> (r: Result<TextComponent, ReadingError>) {
        proof {
            reveal(read_val);
        }
        match get_nbt(seq)? {
            Some(tag) => Ok(TextComponent { tag }),
            None => Ok(TextComponent::empty()),
        }
    }

    fn serialize(value: &TextComponent, out: &mut Vec<u8>, ctx: &Context) -> (r: Result<(), WritingError>) {
        proof {
            reveal(write_val);
        }
        write_nbt(&NbtTag::String(value.get_text()), out)
    }

    fn equal(a: &TextComponent, b: &TextComponent) -> (r: bool) {
        equal_tags(&a.tag, &b.tag)
    }
}

/// The plain text of a text component.
pub struct AsPage;

impl DataComponentCodec for AsPage {
    type Value = String;

    open spec fn format() -> Format {
        Format::Nbt(NbtRole::Page)
    }

    open spec fn val(v: String) -> Val {
        Val::Text(v@)
    }

    fn deserialize(seq: &mut &[u8], ctx: &Context) -> (r: Result<String, ReadingError>) {
        proof {
            reveal(read_val);
        }
        match get_nbt(seq)? {
            Some(tag) => Ok(TextComponent { tag }.get_text()),
            None => Ok(empty_text()),
        }
    }

    fn serialize(value: &String, out: &mut Vec<u8>, ctx: &Context) -> (r: Result<(), WritingError>) {
        proof {
            reveal(write_val);
        }
        write_nbt(&NbtTag::String(value.clone()), out)
    }

    fn equal(a: &String, b: &String) -> (r: bool) {
        same_text(a.as_str(), b.as_str())
    }
}

/// The name of an item: a translation key, or any text component.
#[derive(Debug, PartialEq)]
pub enum ItemName {
    Translation(String),
    Component(TextComponent),
}

impl ItemName {
    /// The text component that is shown: a translation key and the component that looks it up are shown
    /// alike.
    pub open spec fn shown(&self) -> Tag {
        match self {
            ItemName::Translation(key) => Tag::Compound(seq![("translate"@, Tag::String(key@))]),
            ItemName::Component(c) => c@,
        }
    }

    /// The name under a translation key.
    pub fn translated(key: &str) -> (r: Self)
        ensures
            r == ItemName::Translation(r->Translation_0),
            r->Translation_0@ == key@,
    {
        ItemName::Translation(key.to_owned())
    }

    /// The name as a text component.
    pub fn as_component(&self) -> (r: TextComponent)
        ensures
            r@ == self.shown(),
    {
        match self {
            ItemName::Translation(key) => TextComponent::translate(key.as_str()),
            ItemName::Component(c) => c.copy(),
        }
    }
}

/// The name of an item.
pub struct AsItemName;

impl DataComponentCodec for AsItemName {
    type Value = ItemName;

    open spec fn format() -> Format {
        Format::Nbt(NbtRole::ItemName)
    }

    open spec fn val(v: ItemName) -> Val {
        Val::Nbt(v.shown())
    }

    fn deserialize(seq: &mut &[u8], ctx: &Context) -> (r: Result<ItemName, ReadingError>) {
        proof {
            reveal(read_val);
        }
        let tag = match get_nbt(seq)? {
            Some(tag) => tag,
            None => {
                return Err(message("Missing ItemName NBT"));
            },
        };
        match &tag {
            NbtTag::String(_) => {},
            NbtTag::Compound(_) => {},
            NbtTag::List(_) => {},
            _ => {
                return Err(message("Invalid ItemName NBT tag type"));
            },
        }
        match TextComponent::try_from_nbt(&tag) {
            Some(c) => Ok(ItemName::Component(c)),
            None => Err(message("Invalid ItemName component")),
        }
    }

    fn serialize(value: &ItemName, out: &mut Vec<u8>, ctx: &Context) -> (r: Result<(), WritingError>) {
        proof {
            reveal(write_val);
        }
        write_nbt(&value.as_component().tag, out)
    }

    fn equal(a: &ItemName, b: &ItemName) -> (r: bool) {
        equal_tags(&a.as_component().tag, &b.as_component().tag)
    }
}

/// Reads a unique identifier as four numbers.
pub fn get_uuid(seq: &mut &[u8]) -> (r: Result<[i32; 4], ReadingError>)
    ensures
        decodes(read_uuid(old(seq)@), r, final(seq)@, |v: [i32; 4]| id_val(v)),
{
    let a: i32 = get_i32(seq)?;
    let b: i32 = get_i32(seq)?;
    let c: i32 = get_i32(seq)?;
    let d: i32 = get_i32(seq)?;
    Ok([a, b, c, d])
}

/// What a unique identifier is to its format.
pub open spec fn id_val(v: [i32; 4]) -> Val {
    uuid_val(v@[0] as int, v@[1] as int, v@[2] as int, v@[3] as int)
}

/// The name and the number of a profile.
pub struct AsProfileHead;

/// What an optional text is to its format.
pub open spec fn opt_text_val(v: Option<String>) -> Val {
    match v {
        Some(t) => optional(Some(Val::Text(t@))),
        None => Val::Absent,
    }
}

/// What an optional unique identifier is to its format.
pub open spec fn opt_id_val(v: Option<[i32; 4]>) -> Val {
    match v {
        Some(id) => optional(Some(id_val(id))),
        None => Val::Absent,
    }
}

impl DataComponentCodec for AsProfileHead {
    type Value = (Option<String>, Option<[i32; 4]>);

    open spec fn format() -> Format {
        Format::ProfileHead
    }

    open spec fn val(v: (Option<String>, Option<[i32; 4]>)) -> Val {
        pair(opt_text_val(v.0), opt_id_val(v.1))
    }

    fn deserialize(seq: &mut &[u8], ctx: &Context) -> (r: Result<(Option<String>, Option<[i32; 4]>), ReadingError>) {
        proof {
            reveal(read_val);
        }
        if get_var_int(seq)? == 0 {
            let id = get_uuid(seq)?;
            let name = get_str(seq)?;
            return Ok((Some(name), Some(id)));
        }
        let name: Option<String> = if get_bool(seq)? {
            Some(get_str(seq)?)
        } else {
            None
        };
        let id: Option<[i32; 4]> = if get_bool(seq)? {
            Some(get_uuid(seq)?)
        } else {
            None
        };
        Ok((name, id))
    }

    fn serialize(value: &(Option<String>, Option<[i32; 4]>), out: &mut Vec<u8>, ctx: &Context) -> (r: Result<(), WritingError>) {
        proof {
            reveal(write_val);
        }
        put_profile_head(&value.0, &value.1, out)
    }

    fn equal(a: &(Option<String>, Option<[i32; 4]>), b: &(Option<String>, Option<[i32; 4]>)) -> (r: bool) {
        proof {
            reveal_with_fuel(val_same, 2);
        }
        equal_opt_texts(&a.0, &b.0) && equal_opt_ids(&a.1, &b.1)
    }
}

/// Appends the name and the number of a profile.
pub fn put_profile_head(name: &Option<String>, id: &Option<[i32; 4]>, out: &mut Vec<u8>) -> (r: Result<(), WritingError>)
    ensures
        encodes(write_profile_head(old(out)@, pair(opt_text_val(*name), opt_id_val(*id))), r, final(out)@),
{
    write_var_int(out, 1);
    match name {
        Some(t) => {
            write_bool(out, true);
            write_string(out, t.as_str())?;
        },
        None => {
            write_bool(out, false);
        },
    }
    match id {
        Some(id) => {
            write_bool(out, true);
            write_i32(out, id[0]);
            write_i32(out, id[1]);
            write_i32(out, id[2]);
            write_i32(out, id[3]);
        },
        None => {
            write_bool(out, false);
        },
    }
    Ok(())
}

/// Whether two optional texts are the same.
pub fn equal_opt_texts(a: &Option<String>, b: &Option<String>) -> (r: bool)
    ensures
        r == val_same(opt_text_val(*a), opt_text_val(*b)),
{
    proof {
        reveal_with_fuel(val_same, 2);
    }
    match (a, b) {
        (Some(x), Some(y)) => same_text(x.as_str(), y.as_str()),
        (None, None) => true,
        _ => false,
    }
}

/// Whether two optional identifiers are the same.
pub fn equal_opt_ids(a: &Option<[i32; 4]>, b: &Option<[i32; 4]>) -> (r: bool)
    ensures
        r == val_same(opt_id_val(*a), opt_id_val(*b)),
{
    proof {
        reveal_with_fuel(val_same, 5);
    }
    match (a, b) {
        (Some(x), Some(y)) => x[0] == y[0] && x[1] == y[1] && x[2] == y[2] && x[3] == y[3],
        (None, None) => true,
        _ => false,
    }
}

/// A position in a world.
#[derive(Clone, Copy, Debug, PartialEq, Eq)]
pub struct BlockPos {
    pub x: i32,
    pub y: i32,
    pub z: i32,
}

/// What a position is to its format.
pub open spec fn block_pos_val(v: BlockPos) -> Val {
    pair(Val::Int(v.x as int), pair(Val::Int(v.y as int), Val::Int(v.z as int)))
}

/// The signed number whose low bits, of which there are `size` values, are those of `v`.
fn signed_low(v: u64, size: u64) -> (r: i32)
    requires
        size == 0x400_0000 || size == 0x1000,
    ensures
        r == low_signed(v as int, size as int),
{
    let low: u64 = v % size;
    if 2 * low < size {
        low as i32
    } else {
        (low as i64 - size as i64) as i32
    }
}

/// The low bits of `v`, of which there are `size` values.
fn unsigned_low(v: i32, size: i64) -> (r: u64)
    requires
        size == 0x400_0000 || size == 0x1000,
    ensures
        r == v as int % size as int,
        r < size,
{
    if v < 0 {
        ((v as i64 + 0x1_0000_0000) % size) as u64
    } else {
        (v as i64 % size) as u64
    }
}

/// A position packed in eight bytes.
pub struct AsBlockPos;

impl DataComponentCodec for AsBlockPos {
    type Value = BlockPos;

    open spec fn format() -> Format {
        Format::BlockPos
    }

    open spec fn val(v: BlockPos) -> Val {
        block_pos_val(v)
    }

    fn deserialize(seq: &mut &[u8], ctx: &Context) -> (r: Result<BlockPos, ReadingError>) {
        proof {
            reveal(read_val);
        }
        let v: u64 = get_u64(seq)?;
        Ok(
            BlockPos {
                x: signed_low(v / 0x40_0000_0000, 0x400_0000),
                y: signed_low(v, 0x1000),
                z: signed_low(v / 0x1000, 0x400_0000),
            },
        )
    }

    fn serialize(value: &BlockPos, out: &mut Vec<u8>, ctx: &Context) -> (r: Result<(), WritingError>) {
        proof {
            reveal(write_val);
        }
        let x: u64 = unsigned_low(value.x, 0x400_0000);
        let y: u64 = unsigned_low(value.y, 0x1000);
        let z: u64 = unsigned_low(value.z, 0x400_0000);
        write_u64(out, x * 0x40_0000_0000 + z * 0x1000 + y);
        Ok(())
    }

    fn equal(a: &BlockPos, b: &BlockPos) -> (r: bool) {
        proof {
            reveal_with_fuel(val_same, 3);
        }
        a.x == b.x && a.y == b.y && a.z == b.z
    }
}

/// A set of registry entries that is read over.
pub struct SkippedSet;

impl DataComponentCodec for SkippedSet {
    type Value = ();

    open spec fn format() -> Format {
        Format::SkippedSet
    }

    open spec fn val(v: ()) -> Val {
        Val::Unit
    }

    fn deserialize(seq: &mut &[u8], ctx: &Context) -> (r: Result<(), ReadingError>) {
        proof {
            reveal(read_val);
        }
        let v: i32 = get_var_int(seq)?;
        if v == 0 {
            get_str(seq)?;
        } else if v > 0 {
            let n: i32 = v - 1;
            let ghost o = skip_var_ints(n as nat, seq@);
            let mut i: i32 = 0;
            while i < n
                invariant
                    0 <= i <= n,
                    o == skip_var_ints((n - i) as nat, seq@),
                    skip_id_set(old(seq)@) == o,
                decreases n - i,
            {
                proof {
                    reveal(read_val);
                }
                get_var_int(seq)?;
                i += 1;
            }
        }
        Ok(())
    }

    fn serialize(value: &(), out: &mut Vec<u8>, ctx: &Context) -> (r: Result<(), WritingError>) {
        proof {
            reveal(write_val);
        }
        write_var_int(out, 0);
        Ok(())
    }

    fn equal(a: &(), b: &()) -> (r: bool) {
        true
    }
}

/// A type, and two numbers where the type is one, that are read over.
pub struct SkippedDamage;

impl DataComponentCodec for SkippedDamage {
    type Value = ();

    open spec fn format() -> Format {
        Format::SkippedDamage
    }

    open spec fn val(v: ()) -> Val {
        Val::Unit
    }

    fn deserialize(seq: &mut &[u8], ctx: &Context) -> (r: Result<(), ReadingError>) {
        proof {
            reveal(read_val);
        }
        let v: i32 = get_var_int(seq)?;
        if v == 1 {
            get_u32(seq)?;
            get_u32(seq)?;
        }
        Ok(())
    }

    fn serialize(value: &(), out: &mut Vec<u8>, ctx: &Context) -> (r: Result<(), WritingError>) {
        proof {
            reveal(write_val);
        }
        write_var_int(out, 0);
        Ok(())
    }

    fn equal(a: &(), b: &()) -> (r: bool) {
        true
    }
}

/// An enchantment, by its registry number, and its level.
pub struct AsLeveled<T> {
    marker: PhantomData<T>,
}

impl<T: Wording> DataComponentCodec for AsLeveled<T> {
    type Value = (u8, i32);

    open spec fn format() -> Format {
        Format::Leveled(T::spec_text())
    }

    open spec fn val(v: (u8, i32)) -> Val {
        pair(Val::Int(v.0 as int), Val::Int(v.1 as int))
    }

    fn deserialize(seq: &mut &[u8], ctx: &Context) -> (r: Result<(u8, i32), ReadingError>) {
        proof {
            reveal(read_val);
        }
        let v: i32 = get_var_int(seq)?;
        let level: i32 = get_var_int(seq)?;
        let id: u8 = low_byte(v);
        if (id as usize) < ctx.regs.enchantments.len() {
            Ok((id, level))
        } else {
            Err(message(T::text()))
        }
    }

    fn serialize(value: &(u8, i32), out: &mut Vec<u8>, ctx: &Context) -> (r: Result<(), WritingError>) {
        proof {
            reveal(write_val);
        }
        write_var_int(out, value.0 as i32);
        write_var_int(out, value.1);
        Ok(())
    }

    fn equal(a: &(u8, i32), b: &(u8, i32)) -> (r: bool) {
        proof {
            reveal_with_fuel(val_same, 2);
        }
        a.0 == b.0 && a.1 == b.1
    }
}

/// The low byte of a number.
pub fn low_byte(v: i32) -> (r: u8)
    ensures
        r == v as int % 256,
{
    if v < 0 {
        ((v as i64 + 0x1_0000_0000) % 256) as u8
    } else {
        (v % 256) as u8
    }
}

} // verus!
