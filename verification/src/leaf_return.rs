//! What reading gives back of what was written.
use vstd::prelude::*;
use crate::bytes::{be_bytes, be_signed, lemma_pow256, lemma_regroup, lemma_signed_roundtrip, pow256, to_signed};
use crate::data_component::{component_of_id, lemma_component_id_of};
use crate::format::{block_pos_bytes, check_read, check_write, dye_id, dye_name, effect_val, ids_bytes, is_component, optional, pair, put, put_nbt, read_any_sound, read_block_pos, read_effect, read_effect_details, read_id_set, read_ids, read_leaf, read_leveled, read_nbt, read_opt_text, read_profile_head, role_tag, read_sound, read_uuid, sound_known, uuid_val, write_any_sound, write_effect, write_effect_details, write_id_set, write_leaf, write_leveled, write_opt_text, write_profile_head, write_sound, write_uuid, written_count, Check, Format, NbtRole, SoundRule, Val, MAX_EFFECT_DEPTH, MAX_IDSET_ELEMENTS};
use crate::identifier::{bare_name, identifier_of};
use crate::nbt_codec::{lemma_tag_returns, sound, strings_return, tag_bytes, writable};
use crate::nbt_read::MAX_TAG_DEPTH;
use crate::nbt_tag::Tag;
use crate::persist::{plain_from_tag, plain_to_tag};
use crate::registry::{enchantment_known, find_name, find_name_from, kind_known, Registries, RegistryKind};
use crate::wire::{done, fail, flag, lemma_read_bool, lemma_read_signed, lemma_read_text, lemma_read_unsigned, lemma_read_var_int, text, text_fits, var_int, Outcome, MAX_TEXT_BYTES};

verus! {

/// Whether a number fits 32 bits.
pub open spec fn is_i32(v: int) -> bool {
    i32::MIN <= v <= i32::MAX
}

/// Whether a text has the usual length at most.
pub open spec fn short(v: Val) -> bool {
    v matches Val::Text(t) && text_fits(t, MAX_TEXT_BYTES as nat)
}

/// Whether a tag comes back from its binary form.
pub open spec fn tag_returns(t: Tag) -> bool {
    writable(t) && strings_return(t) && sound(t, MAX_TAG_DEPTH as nat)
}

/// Whether a value is one of those that a checked number stands for.
pub open spec fn check_keeps(check: Check, regs: Registries, v: Val) -> bool {
    match (check, v) {
        (Check::UpTo { max, .. }, Val::Int(i)) => 0 <= i <= max && is_i32(i),
        (Check::DamageType { .. }, Val::Int(i)) => 0 <= i < 256 && i < regs.damage_types@.len(),
        (Check::Component { .. }, Val::Int(i)) => component_of_id(i) is Some,
        (Check::Attribute { .. }, Val::Int(i)) => 0 <= i < regs.attributes@.len() && is_i32(i),
        (Check::Effect { .. }, Val::Text(t)) => find_name(regs.effects@, t) matches Some(i) && i <= 0xffff,
        (Check::Song, Val::Text(t)) => "minecraft:"@.is_prefix_of(t) && (find_name(regs.songs@, bare_name(t)) matches Some(i)
            && i < i32::MAX),
        (Check::DyeName, Val::Text(t)) => dye_id(t, 0) is Some,
        (Check::Dye, Val::Int(i)) => 0 <= i < 16,
        (Check::MapProcessing, Val::Present(p)) => *p == Val::Int(0) || *p == Val::Int(1),
        _ => false,
    }
}

/// Whether a value is a sound: a number, or a name and a range.
pub open spec fn sound_keeps(regs: Registries, v: Val) -> bool {
    match v {
        Val::Int(i) => 0 <= i <= 0xffff && i < regs.sounds@.len(),
        Val::Pair(name, range) => short(*name) && match *range {
            Val::Absent => true,
            Val::Present(r) => *r matches Val::Float(n, bits) && n == 4 && bits < 0x1_0000_0000,
            _ => false,
        },
        _ => false,
    }
}

/// Whether a value is a set of registry entries.
pub open spec fn id_set_keeps(kind: RegistryKind, regs: Registries, v: Val) -> bool {
    match v {
        Val::Pair(a, b) => match *b {
            Val::Text(t) => *a == Val::Int(0) && text_fits(t, MAX_TEXT_BYTES as nat),
            Val::List(l) => *a == Val::Int(1) && l.len() <= MAX_IDSET_ELEMENTS && forall|i: int|
                0 <= i < l.len() ==> (#[trigger] l[i] matches Val::Int(id) && 0 <= id <= 0xffff && kind_known(regs, kind, id)),
            _ => false,
        },
        _ => false,
    }
}

/// Whether a value is a status effect named `name`, with at most `left` effects hidden behind it, all
/// of that name.
pub open spec fn effect_keeps(name: Seq<char>, left: nat, v: Val) -> bool
    decreases left,
{
    exists|amplifier: int, duration: int, ambient: bool, particles: bool, icon: bool, hidden: Val|
        v == #[trigger] effect_val(name, amplifier, duration, ambient, particles, icon, hidden) && is_i32(amplifier) && is_i32(duration) && (
        hidden == Val::Absent || (left > 0 && (hidden matches Val::Present(h) && effect_keeps(name, (left - 1) as nat, *h))))
}

/// Whether a value is a tag that comes back in its role.
pub open spec fn role_keeps(role: NbtRole, v: Val) -> bool {
    match (role, v) {
        (NbtRole::Page, Val::Text(t)) => tag_returns(Tag::String(t)),
        (NbtRole::Any, Val::Nbt(t)) => tag_returns(t),
        (NbtRole::Required(_), Val::Nbt(t)) => tag_returns(t) && t != Tag::End,
        (NbtRole::Line, Val::Nbt(t)) => tag_returns(t) && t != Tag::End,
        (NbtRole::Compound, Val::Nbt(t)) => tag_returns(t) && t is Compound,
        (NbtRole::LenientCompound, Val::Nbt(t)) => tag_returns(t) && t is Compound,
        (NbtRole::Name, Val::Nbt(t)) => tag_returns(t) && t is String,
        (NbtRole::ItemName, Val::Nbt(t)) => tag_returns(t) && is_component(t),
        _ => false,
    }
}

/// Whether a value is four numbers of 32 bits.
pub open spec fn uuid_keeps(v: Val) -> bool {
    exists|a: int, b: int, c: int, d: int|
        v == #[trigger] uuid_val(a, b, c, d) && is_i32(a) && is_i32(b) && is_i32(c) && is_i32(d)
}

/// Whether a value is the head of a profile.
pub open spec fn head_keeps(v: Val) -> bool {
    v matches Val::Pair(name, id) && (*name == Val::Absent || (*name matches Val::Present(t) && short(*t))) && (*id == Val::Absent || (
    *id matches Val::Present(u) && uuid_keeps(*u)))
}

/// A position.
pub open spec fn position_val(x: int, y: int, z: int) -> Val {
    pair(Val::Int(x), pair(Val::Int(y), Val::Int(z)))
}

/// Whether a value is a position within reach.
pub open spec fn position_keeps(v: Val) -> bool {
    exists|x: int, y: int, z: int|
        v == #[trigger] position_val(x, y, z) && -0x200_0000 <= x < 0x200_0000 && -0x800 <= y < 0x800
            && -0x200_0000 <= z < 0x200_0000
}

/// Whether a value is one of a format that holds no other, and comes back.
pub open spec fn leaf_keeps(f: Format, regs: Registries, v: Val) -> bool {
    match (f, v) {
        (Format::Unit, Val::Unit) => true,
        (Format::Bool, Val::Bool(_)) => true,
        (Format::VarInt, Val::Int(i)) => is_i32(i),
        (Format::VarU32, Val::Int(i)) => 0 <= i <= u32::MAX,
        (Format::Signed(n), Val::Int(i)) => -pow256(n) <= 2 * i < pow256(n),
        (Format::Float(n), Val::Float(m, bits)) => m == n && bits < pow256(n),
        (Format::Text(bound), Val::Text(t)) => text_fits(t, bound) && bound <= i32::MAX,
        (Format::Identifier, Val::Text(t)) => short(v) && identifier_of(t) is Some,
        (Format::Checked(check), _) => check_keeps(check, regs, v),
        (Format::Sound(SoundRule::KnownThenFlag(_)), Val::Pair(a, b)) => sound_keeps(regs, *a) && *b is Bool,
        (Format::Sound(SoundRule::KnownThenFlag(_)), _) => false,
        (Format::Sound(SoundRule::Optional(_)), Val::Absent) => true,
        (Format::Sound(SoundRule::Optional(_)), Val::Present(a)) => sound_keeps(regs, *a),
        (Format::Sound(SoundRule::Optional(_)), _) => false,
        (Format::Sound(_), _) => sound_keeps(regs, v),
        (Format::IdSet(kind), _) => id_set_keeps(kind, regs, v),
        (Format::SkippedDamage, Val::Unit) => true,
        (Format::Leveled(_), Val::Pair(a, b)) => *a matches Val::Int(id) && 0 <= id < 256 && enchantment_known(regs, id) && (
        *b matches Val::Int(level) && is_i32(level)),
        (Format::Effect, Val::Pair(a, _)) => *a matches Val::Text(name) && (find_name(regs.effects@, name) matches Some(i) && i <= 0xffff)
            && effect_keeps(name, MAX_EFFECT_DEPTH as nat, v),
        (Format::Nbt(role), _) => role_keeps(role, v),
        (Format::Stored(component), _) => plain_to_tag(component, regs, v) matches Some(t) && tag_returns(t) && t != Tag::End
            && plain_from_tag(component, regs, t) == Some(v),
        (Format::ProfileHead, _) => head_keeps(v),
        (Format::BlockPos, _) => position_keeps(v),
        _ => false,
    }
}

pub(crate) proof fn lemma_found_name(names: Seq<String>, t: Seq<char>, i: int)
    requires
        0 <= i,
    ensures
        find_name_from(names, t, i) matches Some(k) ==> i <= k < names.len() && names[k]@ == t,
    decreases names.len() - i,
{
    if i < names.len() && names[i]@ != t {
        lemma_found_name(names, t, i + 1);
    }
}

proof fn lemma_dye(t: Seq<char>, i: int)
    requires
        0 <= i,
    ensures
        dye_id(t, i) matches Some(k) ==> i <= k < 16 && dye_name(k) == t,
    decreases 16 - i,
{
    if i < 16 && dye_name(i) != t {
        lemma_dye(t, i + 1);
    }
}

/// A count that fits 32 bits with a sign is written as it is.
pub proof fn lemma_small_count(n: nat)
    requires
        n <= i32::MAX,
    ensures
        written_count(n) == n,
{
    lemma_pow256();
    lemma_signed_roundtrip(n as int, 4);
    assert(n % pow256(4) == n) by (nonlinear_arith)
        requires
            n < pow256(4),
    ;
}

proof fn lemma_checked(check: Check, regs: Registries, v: Val)
    requires
        check_keeps(check, regs, v),
    ensures
        check_write(check, regs, v) matches Ok(i) && is_i32(i) && check_read(check, regs, i) == Ok::<Val, crate::errors::ReadFault>(v),
{
    match (check, v) {
        (Check::Effect { .. }, Val::Text(t)) => {
            lemma_found_name(regs.effects@, t, 0);
            lemma_small_count(find_name(regs.effects@, t)->0 as nat);
        },
        (Check::Song, Val::Text(t)) => {
            lemma_found_name(regs.songs@, bare_name(t), 0);
            let i = find_name(regs.songs@, bare_name(t))->0;
            lemma_small_count((i + 1) as nat);
            let head = "minecraft:"@;
            assert(head + t.skip(head.len() as int) =~= t) by {
                assert(t.take(head.len() as int) =~= head);
            }
        },
        (Check::DyeName, Val::Text(t)) => {
            lemma_dye(t, 0);
        },
        (Check::Component { .. }, Val::Int(i)) => {
            lemma_component_id_of(i);
        },
        _ => {},
    }
}

/// The bytes of a value of a format that holds no other.
pub open spec fn leaf_bytes(f: Format, regs: Registries, v: Val) -> Seq<u8> {
    write_leaf(f, regs, Seq::empty(), v).out
}

/// The bytes of a sound with a name and a range.
pub open spec fn named_sound_bytes(t: Seq<char>, range: Val) -> Seq<u8> {
    var_int(0) + (text(t) + match range {
        Val::Present(p) => flag(true) + be_bytes((*p)->Float_1, 4),
        _ => flag(false),
    })
}

proof fn lemma_named_sound_written(out: Seq<u8>, v: Val)
    requires
        v matches Val::Pair(name, range) && short(*name) && (*range == Val::Absent || (*range matches Val::Present(p) && *p is Float)),
    ensures
        write_any_sound(out, v) == put(out, named_sound_bytes((*v->Pair_0)->Text_0, *v->Pair_1)),
{
    let t = (*v->Pair_0)->Text_0;
    let range = *v->Pair_1;
    match range {
        Val::Present(p) => {
            let bits = (*p)->Float_1;
            lemma_regroup(out + var_int(0) + text(t), flag(true), be_bytes(bits, 4));
            lemma_regroup(out + var_int(0), text(t), flag(true) + be_bytes(bits, 4));
            lemma_regroup(out, var_int(0), text(t) + (flag(true) + be_bytes(bits, 4)));
        },
        _ => {
            lemma_regroup(out + var_int(0), text(t), flag(false));
            lemma_regroup(out, var_int(0), text(t) + flag(false));
        },
    }
}

proof fn lemma_named_sound_read(t: Seq<char>, range: Val, r: Seq<u8>)
    requires
        text_fits(t, MAX_TEXT_BYTES as nat),
        range == Val::Absent || (range matches Val::Present(p) && (*p matches Val::Float(n, bits) && n == 4 && bits < 0x1_0000_0000)),
    ensures
        read_any_sound(named_sound_bytes(t, range) + r) == done(pair(Val::Text(t), range), r),
{
    lemma_pow256();
    match range {
        Val::Present(p) => {
            let bits = (*p)->Float_1;
            let last = be_bytes(bits, 4);
            let tail = flag(true) + (last + r);
            lemma_regroup(var_int(0), text(t) + (flag(true) + last), r);
            lemma_regroup(text(t), flag(true) + last, r);
            lemma_regroup(flag(true), last, r);
            lemma_read_var_int(0, text(t) + tail);
            lemma_read_text(t, MAX_TEXT_BYTES as nat, tail);
            lemma_read_bool(true, last + r);
            lemma_read_unsigned(bits, 4, r);
        },
        _ => {
            let tail = flag(false) + r;
            lemma_regroup(var_int(0), text(t) + flag(false), r);
            lemma_regroup(text(t), flag(false), r);
            lemma_read_var_int(0, text(t) + tail);
            lemma_read_text(t, MAX_TEXT_BYTES as nat, tail);
            lemma_read_bool(false, r);
        },
    }
}

proof fn lemma_any_sound(regs: Registries, out: Seq<u8>, v: Val, r: Seq<u8>)
    requires
        sound_keeps(regs, v),
    ensures
        ({
            let b = write_any_sound(Seq::empty(), v).out;
            write_any_sound(out, v) == put(out, b) && read_any_sound(b + r) == done(v, r) && sound_known(regs, v)
        }),
{
    let e = Seq::<u8>::empty();
    match v {
        Val::Int(i) => {
            assert(e + var_int(i + 1) =~= var_int(i + 1));
            lemma_read_var_int(i + 1, r);
        },
        Val::Pair(name, range) => {
            let t = (*name)->Text_0;
            lemma_named_sound_written(out, v);
            lemma_named_sound_written(e, v);
            lemma_named_sound_read(t, *range, r);
            assert(e + named_sound_bytes(t, *range) =~= named_sound_bytes(t, *range));
        },
        _ => {},
    }
}

proof fn lemma_sound(rule: SoundRule, regs: Registries, out: Seq<u8>, v: Val, r: Seq<u8>)
    requires
        leaf_keeps(Format::Sound(rule), regs, v),
    ensures
        ({
            let b = write_sound(rule, Seq::empty(), v).out;
            write_sound(rule, out, v) == put(out, b) && read_sound(rule, regs, b + r) == done(v, r)
        }),
{
    let b = write_sound(rule, Seq::empty(), v).out;
    match rule {
        SoundRule::KnownThenFlag(_) => {
            let a = *v->Pair_0;
            let f = (*v->Pair_1)->Bool_0;
            let head = write_any_sound(Seq::empty(), a).out;
            lemma_any_sound(regs, out, a, flag(f) + r);
            lemma_any_sound(regs, Seq::empty(), a, flag(f) + r);
            lemma_read_bool(f, r);
            assert(b =~= head + flag(f));
            assert(b + r =~= head + (flag(f) + r));
            assert(write_sound(rule, out, v).out =~= out + b);
        },
        SoundRule::Optional(_) => match v {
            Val::Present(a) => {
                let tail = write_any_sound(Seq::empty(), *a).out;
                lemma_any_sound(regs, out + flag(true), *a, r);
                lemma_any_sound(regs, Seq::<u8>::empty() + flag(true), *a, r);
                lemma_read_bool(true, tail + r);
                assert(b =~= flag(true) + tail);
                assert(b + r =~= flag(true) + (tail + r));
                assert(write_sound(rule, out, v).out =~= out + b);
            },
            _ => {
                assert(b =~= flag(false));
                lemma_read_bool(false, r);
            },
        },
        _ => {
            lemma_any_sound(regs, out, v, r);
        },
    }
}

proof fn lemma_ids(kind: RegistryKind, regs: Registries, l: Seq<Val>, i: int, r: Seq<u8>)
    requires
        0 <= i <= l.len(),
        forall|i: int|
            0 <= i < l.len() ==> (#[trigger] l[i] matches Val::Int(id) && 0 <= id <= 0xffff && kind_known(regs, kind, id)),
    ensures
        read_ids(kind, regs, (l.len() - i) as nat, ids_bytes(l, i) + r, l.take(i)) == done(Val::List(l), r),
    decreases l.len() - i,
{
    if i < l.len() {
        let id = l[i]->Int_0;
        let tail = ids_bytes(l, i + 1);
        assert(ids_bytes(l, i) + r =~= var_int(id) + (tail + r));
        lemma_read_var_int(id, tail + r);
        lemma_ids(kind, regs, l, i + 1, r);
        assert(l.take(i).push(l[i]) =~= l.take(i + 1));
        assert(l[i] == Val::Int(id));
    } else {
        assert(ids_bytes(l, i) + r =~= r);
        assert(l.take(i) =~= l);
    }
}

proof fn lemma_id_set(kind: RegistryKind, regs: Registries, out: Seq<u8>, v: Val, r: Seq<u8>)
    requires
        id_set_keeps(kind, regs, v),
    ensures
        ({
            let b = write_id_set(Seq::empty(), v).out;
            write_id_set(out, v) == put(out, b) && read_id_set(kind, regs, b + r) == done(v, r)
        }),
{
    let b = write_id_set(Seq::empty(), v).out;
    match *v->Pair_1 {
        Val::Text(t) => {
            assert(b =~= var_int(0) + text(t));
            assert(b + r =~= var_int(0) + (text(t) + r));
            lemma_read_var_int(0, text(t) + r);
            lemma_read_text(t, MAX_TEXT_BYTES as nat, r);
            assert(write_id_set(out, v).out =~= out + b);
        },
        Val::List(l) => {
            let ids = ids_bytes(l, 0);
            assert(b =~= var_int(l.len() as int + 1) + ids);
            assert(b + r =~= var_int(l.len() as int + 1) + (ids + r));
            lemma_read_var_int(l.len() as int + 1, ids + r);
            lemma_ids(kind, regs, l, 0, r);
            assert(l.take(0) =~= Seq::empty());
            assert(write_id_set(out, v).out =~= out + b);
        },
        _ => {},
    }
}

/// The bytes before the flag that tells whether an effect is hidden behind.
pub open spec fn effect_head(amplifier: int, duration: int, ambient: bool, particles: bool, icon: bool) -> Seq<u8> {
    var_int(amplifier) + var_int(duration) + flag(ambient) + flag(particles) + flag(icon)
}

proof fn lemma_effect_written(
    name: Seq<char>,
    out: Seq<u8>,
    amplifier: int,
    duration: int,
    ambient: bool,
    particles: bool,
    icon: bool,
    hidden: Val,
)
    ensures
        write_effect_details(name, out, effect_val(name, amplifier, duration, ambient, particles, icon, hidden)) == ({
            let head = out + effect_head(amplifier, duration, ambient, particles, icon);
            match hidden {
                Val::Present(h) => write_effect_details(name, head + flag(true), *h),
                _ => put(head, flag(false)),
            }
        }),
{
    let head = out + effect_head(amplifier, duration, ambient, particles, icon);
    assert(out + var_int(amplifier) + var_int(duration) + flag(ambient) + flag(particles) + flag(icon) =~= head);
}

proof fn lemma_effect_read(
    name: Seq<char>,
    left: nat,
    amplifier: int,
    duration: int,
    ambient: bool,
    particles: bool,
    icon: bool,
    more: bool,
    t: Seq<u8>,
)
    requires
        is_i32(amplifier),
        is_i32(duration),
        more ==> left > 0,
    ensures
        read_effect_details(name, left, effect_head(amplifier, duration, ambient, particles, icon) + (flag(more) + t)) == (if more {
            match read_effect_details(name, (left - 1) as nat, t) {
                Outcome { value: Err(e), rest } => fail(e, rest),
                Outcome { value: Ok(h), rest } => done(
                    effect_val(name, amplifier, duration, ambient, particles, icon, optional(Some(h))),
                    rest,
                ),
            }
        } else {
            done(effect_val(name, amplifier, duration, ambient, particles, icon, Val::Absent), t)
        }),
{
    let r5 = flag(more) + t;
    let r4 = flag(icon) + r5;
    let r3 = flag(particles) + r4;
    let r2 = flag(ambient) + r3;
    let r1 = var_int(duration) + r2;
    let p2 = var_int(amplifier) + var_int(duration);
    let p3 = p2 + flag(ambient);
    let p4 = p3 + flag(particles);
    lemma_regroup(p4, flag(icon), r5);
    lemma_regroup(p3, flag(particles), r4);
    lemma_regroup(p2, flag(ambient), r3);
    lemma_regroup(var_int(amplifier), var_int(duration), r2);
    lemma_read_var_int(amplifier, r1);
    lemma_read_var_int(duration, r2);
    lemma_read_bool(ambient, r3);
    lemma_read_bool(particles, r4);
    lemma_read_bool(icon, r5);
    lemma_read_bool(more, t);
}

proof fn lemma_effect(name: Seq<char>, left: nat, out: Seq<u8>, v: Val, r: Seq<u8>)
    requires
        effect_keeps(name, left, v),
    ensures
        ({
            let b = write_effect_details(name, Seq::empty(), v).out;
            write_effect_details(name, out, v) == put(out, b) && read_effect_details(name, left, b + r) == done(v, r)
        }),
    decreases left, 1int,
{
    let (amplifier, duration, ambient, particles, icon, hidden): (int, int, bool, bool, bool, Val) = choose|
        amplifier: int,
        duration: int,
        ambient: bool,
        particles: bool,
        icon: bool,
        hidden: Val,
    |
        v == #[trigger] effect_val(name, amplifier, duration, ambient, particles, icon, hidden) && is_i32(amplifier) && is_i32(duration) && (
        hidden == Val::Absent || (left > 0 && (hidden matches Val::Present(h) && effect_keeps(name, (left - 1) as nat, *h))));
    lemma_effect_step(name, left, out, r, amplifier, duration, ambient, particles, icon, hidden);
}

proof fn lemma_effect_step(
    name: Seq<char>,
    left: nat,
    out: Seq<u8>,
    r: Seq<u8>,
    amplifier: int,
    duration: int,
    ambient: bool,
    particles: bool,
    icon: bool,
    hidden: Val,
)
    requires
        is_i32(amplifier),
        is_i32(duration),
        hidden == Val::Absent || (left > 0 && (hidden matches Val::Present(h) && effect_keeps(name, (left - 1) as nat, *h))),
    ensures
        ({
            let v = effect_val(name, amplifier, duration, ambient, particles, icon, hidden);
            let b = write_effect_details(name, Seq::empty(), v).out;
            write_effect_details(name, out, v) == put(out, b) && read_effect_details(name, left, b + r) == done(v, r)
        }),
    decreases left, 0int,
{
    let e = Seq::<u8>::empty();
    let v = effect_val(name, amplifier, duration, ambient, particles, icon, hidden);
    let head = effect_head(amplifier, duration, ambient, particles, icon);
    lemma_effect_written(name, out, amplifier, duration, ambient, particles, icon, hidden);
    lemma_effect_written(name, e, amplifier, duration, ambient, particles, icon, hidden);
    assert(e + head =~= head);
    let b = write_effect_details(name, e, v).out;
    match hidden {
        Val::Present(h) => {
            let tail = write_effect_details(name, e, *h).out;
            lemma_effect(name, (left - 1) as nat, out + head + flag(true), *h, r);
            lemma_effect(name, (left - 1) as nat, head + flag(true), *h, r);
            assert(b =~= head + flag(true) + tail);
            assert(b + r =~= head + (flag(true) + (tail + r)));
            assert(out + head + flag(true) + tail =~= out + b);
            lemma_effect_read(name, left, amplifier, duration, ambient, particles, icon, true, tail + r);
        },
        _ => {
            assert(b =~= head + flag(false));
            assert(b + r =~= head + (flag(false) + r));
            assert(out + head + flag(false) =~= out + b);
            lemma_effect_read(name, left, amplifier, duration, ambient, particles, icon, false, r);
        },
    }
}

proof fn lemma_uuid(out: Seq<u8>, v: Val, r: Seq<u8>)
    requires
        uuid_keeps(v),
    ensures
        ({
            let b = write_uuid(Seq::empty(), v).out;
            write_uuid(out, v) == put(out, b) && read_uuid(b + r) == done(v, r)
        }),
{
    lemma_pow256();
    let (a, b, c, d) = choose|a: int, b: int, c: int, d: int|
        v == #[trigger] uuid_val(a, b, c, d) && is_i32(a) && is_i32(b) && is_i32(c) && is_i32(d);
    let all = write_uuid(Seq::empty(), v).out;
    let r3 = be_signed(d, 4) + r;
    let r2 = be_signed(c, 4) + r3;
    let r1 = be_signed(b, 4) + r2;
    assert(all =~= be_signed(a, 4) + be_signed(b, 4) + be_signed(c, 4) + be_signed(d, 4));
    assert(all + r =~= be_signed(a, 4) + r1);
    assert(write_uuid(out, v).out =~= out + all);
    lemma_read_signed(a, 4, r1);
    lemma_read_signed(b, 4, r2);
    lemma_read_signed(c, 4, r3);
    lemma_read_signed(d, 4, r);
}

proof fn lemma_opt_text(out: Seq<u8>, v: Val, r: Seq<u8>)
    requires
        v == Val::Absent || (v matches Val::Present(t) && short(*t)),
    ensures
        ({
            let b = write_opt_text(Seq::empty(), v).out;
            write_opt_text(out, v) == put(out, b) && read_opt_text(b + r) == done(v, r)
        }),
{
    let b = write_opt_text(Seq::empty(), v).out;
    match v {
        Val::Present(p) => {
            let t = (*p)->Text_0;
            assert(b =~= flag(true) + text(t));
            assert(b + r =~= flag(true) + (text(t) + r));
            lemma_read_bool(true, text(t) + r);
            lemma_read_text(t, MAX_TEXT_BYTES as nat, r);
            assert(write_opt_text(out, v).out =~= out + b);
        },
        _ => {
            assert(b =~= flag(false));
            lemma_read_bool(false, r);
        },
    }
}

/// The bytes of the name of a profile and of what says whether it has an id.
spec fn head_bytes(name: Val, known: bool) -> Seq<u8> {
    (var_int(1) + write_opt_text(Seq::empty(), name).out) + flag(known)
}

proof fn lemma_head_written(out: Seq<u8>, v: Val)
    requires
        head_keeps(v),
    ensures
        ({
            let name = *v->Pair_0;
            match *v->Pair_1 {
                Val::Present(u) => write_profile_head(out, v) == put(out, head_bytes(name, true) + write_uuid(Seq::empty(), *u).out),
                _ => write_profile_head(out, v) == put(out, head_bytes(name, false)),
            }
        }),
{
    let e = Seq::<u8>::empty();
    let name = *v->Pair_0;
    let first = write_opt_text(e, name).out;
    lemma_opt_text(out + var_int(1), name, e);
    lemma_regroup(out, var_int(1), first);
    match *v->Pair_1 {
        Val::Present(u) => {
            lemma_uuid(out + var_int(1) + first + flag(true), *u, e);
            lemma_regroup(out, var_int(1) + first, flag(true));
            lemma_regroup(out, head_bytes(name, true), write_uuid(e, *u).out);
        },
        _ => {
            lemma_regroup(out, var_int(1) + first, flag(false));
        },
    }
}

proof fn lemma_head_read(v: Val, r: Seq<u8>)
    requires
        head_keeps(v),
    ensures
        ({
            let name = *v->Pair_0;
            match *v->Pair_1 {
                Val::Present(u) => read_profile_head((head_bytes(name, true) + write_uuid(Seq::empty(), *u).out) + r) == done(v, r),
                _ => read_profile_head(head_bytes(name, false) + r) == done(v, r),
            }
        }),
{
    let e = Seq::<u8>::empty();
    let name = *v->Pair_0;
    let first = write_opt_text(e, name).out;
    match *v->Pair_1 {
        Val::Present(u) => {
            let last = write_uuid(e, *u).out;
            let tail = flag(true) + (last + r);
            lemma_regroup(head_bytes(name, true), last, r);
            lemma_regroup(var_int(1) + first, flag(true), last + r);
            lemma_regroup(var_int(1), first, tail);
            lemma_read_var_int(1, first + tail);
            lemma_opt_text(e, name, tail);
            lemma_read_bool(true, last + r);
            lemma_uuid(e, *u, r);
        },
        _ => {
            let tail = flag(false) + r;
            lemma_regroup(var_int(1) + first, flag(false), r);
            lemma_regroup(var_int(1), first, tail);
            lemma_read_var_int(1, first + tail);
            lemma_opt_text(e, name, tail);
            lemma_read_bool(false, r);
        },
    }
}

proof fn lemma_head(out: Seq<u8>, v: Val, r: Seq<u8>)
    requires
        head_keeps(v),
    ensures
        ({
            let b = write_profile_head(Seq::empty(), v).out;
            write_profile_head(out, v) == put(out, b) && read_profile_head(b + r) == done(v, r)
        }),
{
    let e = Seq::<u8>::empty();
    let name = *v->Pair_0;
    lemma_head_written(out, v);
    lemma_head_written(e, v);
    lemma_head_read(v, r);
    match *v->Pair_1 {
        Val::Present(u) => {
            lemma_regroup(head_bytes(name, true) + write_uuid(e, *u).out, e, e);
        },
        _ => {
            lemma_regroup(head_bytes(name, false), e, e);
        },
    }
}

proof fn lemma_position(v: Val, r: Seq<u8>)
    requires
        position_keeps(v),
    ensures
        read_block_pos(block_pos_bytes(v) + r) == done(v, r),
{
    lemma_pow256();
    let (x, y, z) = choose|x: int, y: int, z: int|
        v == #[trigger] position_val(x, y, z) && -0x200_0000 <= x < 0x200_0000 && -0x800 <= y < 0x800
            && -0x200_0000 <= z < 0x200_0000;
    let a = x % 0x400_0000;
    let b = z % 0x400_0000;
    let c = y % 0x1000;
    let n = a * 0x40_0000_0000 + b * 0x1000 + c;
    assert(0 <= n < 0x1_0000_0000_0000_0000);
    lemma_read_unsigned(n as nat, 8, r);
    assert(n / 0x40_0000_0000 == a);
    assert(n / 0x1000 == a * 0x400_0000 + b);
    assert((n / 0x1000) % 0x400_0000 == b);
    assert(n % 0x1000 == c);
}

/// A value of a format that holds no other comes back, whatever stands before and behind it.
pub proof fn lemma_leaf_returns(f: Format, regs: Registries, out: Seq<u8>, v: Val, r: Seq<u8>)
    ensures
        leaf_keeps(f, regs, v) ==> write_leaf(f, regs, out, v) == put(out, leaf_bytes(f, regs, v)) && read_leaf(
            f,
            regs,
            leaf_bytes(f, regs, v) + r,
        ) == done(v, r),
{
    if leaf_keeps(f, regs, v) {
        lemma_leaf(f, regs, out, v, r);
    }
}

pub(crate) proof fn lemma_nbt(out: Seq<u8>, t: Tag, r: Seq<u8>)
    requires
        tag_returns(t),
    ensures
        put_nbt(out, t) == put(out, tag_bytes(t)),
        read_nbt(tag_bytes(t) + r) == done(
            if t == Tag::End {
                None
            } else {
                Some(t)
            },
            r,
        ),
{
    lemma_tag_returns(t, r);
}

proof fn lemma_number(f: Format, regs: Registries, out: Seq<u8>, v: Val, r: Seq<u8>)
    requires
        leaf_keeps(f, regs, v),
        f is Unit || f is Bool || f is VarInt || f is VarU32 || f is Signed || f is Float || f is SkippedDamage,
    ensures
        write_leaf(f, regs, out, v) == put(out, leaf_bytes(f, regs, v)),
        read_leaf(f, regs, leaf_bytes(f, regs, v) + r) == done(v, r),
{
    let e = Seq::<u8>::empty();
    let b = leaf_bytes(f, regs, v);
    lemma_pow256();
    match f {
        Format::Unit => {
            assert(e + r =~= r);
            assert(out + e =~= out);
        },
        Format::Bool => {
            assert(b =~= flag(v->Bool_0));
            lemma_read_bool(v->Bool_0, r);
        },
        Format::VarInt => {
            assert(b =~= var_int(v->Int_0));
            lemma_read_var_int(v->Int_0, r);
        },
        Format::VarU32 => {
            let y = to_signed(v->Int_0 as nat, 4);
            assert(b =~= var_int(y));
            lemma_read_var_int(y, r);
        },
        Format::Signed(n) => {
            assert(b =~= be_signed(v->Int_0, n));
            lemma_read_signed(v->Int_0, n, r);
        },
        Format::Float(n) => {
            assert(b =~= be_bytes(v->Float_1, n));
            lemma_read_unsigned(v->Float_1, n, r);
        },
        _ => {
            assert(b =~= var_int(0));
            lemma_read_var_int(0, r);
        },
    }
}

proof fn lemma_textual(f: Format, regs: Registries, out: Seq<u8>, v: Val, r: Seq<u8>)
    requires
        leaf_keeps(f, regs, v),
        f is Text || f is Identifier || f is Checked || f is Nbt || f is Stored,
    ensures
        write_leaf(f, regs, out, v) == put(out, leaf_bytes(f, regs, v)),
        read_leaf(f, regs, leaf_bytes(f, regs, v) + r) == done(v, r),
{
    let b = leaf_bytes(f, regs, v);
    match f {
        Format::Text(bound) => {
            assert(b =~= text(v->Text_0));
            lemma_read_text(v->Text_0, bound, r);
        },
        Format::Identifier => {
            assert(b =~= text(v->Text_0));
            lemma_read_text(v->Text_0, MAX_TEXT_BYTES as nat, r);
        },
        Format::Checked(check) => {
            lemma_checked(check, regs, v);
            let x = check_write(check, regs, v)->Ok_0;
            assert(b =~= var_int(x));
            lemma_read_var_int(x, r);
        },
        Format::Nbt(role) => {
            let t = role_tag(role, v);
            assert(b =~= tag_bytes(t));
            lemma_nbt(out, t, r);
        },
        Format::Stored(component) => {
            let t = plain_to_tag(component, regs, v)->0;
            assert(b =~= tag_bytes(t));
            lemma_nbt(out, t, r);
        },
        _ => {},
    }
}

proof fn lemma_leveled(unknown: &'static str, regs: Registries, out: Seq<u8>, v: Val, r: Seq<u8>)
    requires
        leaf_keeps(Format::Leveled(unknown), regs, v),
    ensures
        ({
            let b = write_leveled(Seq::empty(), v).out;
            write_leveled(out, v) == put(out, b) && read_leveled(unknown, regs, b + r) == done(v, r)
        }),
{
    let b = write_leveled(Seq::empty(), v).out;
    let id = (*v->Pair_0)->Int_0;
    let level = (*v->Pair_1)->Int_0;
    assert(b =~= var_int(id) + var_int(level));
    assert(b + r =~= var_int(id) + (var_int(level) + r));
    lemma_read_var_int(id, var_int(level) + r);
    lemma_read_var_int(level, r);
    assert(write_leveled(out, v).out =~= out + b);
}

proof fn lemma_named_effect(regs: Registries, out: Seq<u8>, v: Val, r: Seq<u8>)
    requires
        leaf_keeps(Format::Effect, regs, v),
    ensures
        ({
            let b = write_effect(regs, Seq::empty(), v).out;
            write_effect(regs, out, v) == put(out, b) && read_effect(regs, b + r) == done(v, r)
        }),
{
    let e = Seq::<u8>::empty();
    let b = write_effect(regs, e, v).out;
    let name = (*v->Pair_0)->Text_0;
    let i = find_name(regs.effects@, name)->0;
    lemma_found_name(regs.effects@, name, 0);
    lemma_small_count(i as nat);
    let tail = write_effect_details(name, e, v).out;
    lemma_effect(name, MAX_EFFECT_DEPTH as nat, out + var_int(i), v, r);
    lemma_effect(name, MAX_EFFECT_DEPTH as nat, e + var_int(i), v, r);
    assert(b =~= var_int(i) + tail);
    assert(b + r =~= var_int(i) + (tail + r));
    lemma_read_var_int(i, tail + r);
    assert(out + var_int(i) + tail =~= out + b);
}

proof fn lemma_leaf(f: Format, regs: Registries, out: Seq<u8>, v: Val, r: Seq<u8>)
    requires
        leaf_keeps(f, regs, v),
    ensures
        write_leaf(f, regs, out, v) == put(out, leaf_bytes(f, regs, v)),
        read_leaf(f, regs, leaf_bytes(f, regs, v) + r) == done(v, r),
{
    match f {
        Format::Sound(rule) => {
            lemma_sound(rule, regs, out, v, r);
        },
        Format::IdSet(kind) => {
            lemma_id_set(kind, regs, out, v, r);
        },
        Format::Leveled(unknown) => {
            lemma_leveled(unknown, regs, out, v, r);
        },
        Format::Effect => {
            lemma_named_effect(regs, out, v, r);
        },
        Format::ProfileHead => {
            lemma_head(out, v, r);
        },
        Format::BlockPos => {
            assert(leaf_bytes(f, regs, v) =~= block_pos_bytes(v));
            lemma_position(v, r);
        },
        Format::Text(_) | Format::Identifier | Format::Checked(_) | Format::Nbt(_) | Format::Stored(_) => {
            lemma_textual(f, regs, out, v, r);
        },
        _ => {
            lemma_number(f, regs, out, v, r);
        },
    }
}

} // verus!
