//! What checksums are taken of, field by field.
use vstd::prelude::*;
use vstd::utf8::encode_utf8;
use crate::basic::{BaseColorImpl, CustomDataImpl, CustomNameImpl, DamageImpl, ItemModelImpl, MaxStackSizeImpl, NoteBlockSoundImpl, RarityImpl, TooltipStyleImpl};
use crate::byte_laws::{digit, without_sign};
use crate::bytes::{lemma_pow256, to_signed, to_unsigned};
use crate::codec::{vals, AsI32, DataComponentCodec};
use crate::component_hash::{canonical_bits, component_hash, decoration_bytes, decorations_bytes, ended_pairs, explosion_hash, explosions_bytes, fireworks_hash, flat_hash, ints_bytes, patch_bytes, patch_hashes, profile_hash, properties_bytes, slot_bytes, slot_hash, slot_hashes, stack_hash};
use crate::data_component::{component_id, DataComponent};
use crate::format::{pair, plain_text, ComponentVal, PatchVal, StackVal, Val};
use crate::hash::{array_bytes, code_of, entry_hashes, entry_key, ints8, crc32c_of, entry_bytes, int_hash, le_bytes, list_bytes, tag_hash, text_hash, units, utf16};
use crate::nbt_tag::Tag;
use crate::packet_laws::lemma_one_more;
use crate::same::{float_pattern, key_of, last_place, slot_of};
use crate::sorted::ascending;
use crate::stored::{debug_stick_state_val, decoration_val, decoration_vals, map_decorations_val, text_pairs, DebugStickStateImpl, MapDecorationEntry, MapDecorationsImpl};
use crate::stored_return::lemma_canonical_of_ascending;
use crate::persist::{as_bits, as_bool, as_int, as_list, as_text, first, second};
use crate::sent::in_turn;
use crate::utility::{DyedColorImpl, FireworkExplosionImpl, FireworksImpl, MapIdImpl, ProfileImpl, ProfileProperty};
use crate::wire_laws::{rarity_number, shape_number};

verus! {

/// Four bytes of a number, the least significant first.
pub open spec fn le4(v: int) -> Seq<u8> {
    seq![digit(v, 1), digit(v, 0x100), digit(v, 0x1_0000), digit(v, 0x100_0000)]
}

/// Two bytes of a number, the least significant first.
pub open spec fn le2(v: int) -> Seq<u8> {
    seq![digit(v, 1), digit(v, 0x100)]
}

/// A checksum as it is told: a number with a sign.
pub open spec fn told_sum(h: u32) -> int {
    if h < 0x8000_0000 {
        h as int
    } else {
        h - 0x1_0000_0000
    }
}

proof fn lemma_le(v: nat)
    ensures
        le_bytes(v, 1) =~= seq![digit(v as int, 1)],
        le_bytes(v, 2) =~= le2(v as int),
        le_bytes(v, 4) =~= le4(v as int),
{
    reveal_with_fuel(le_bytes, 5);
    let v = v as int;
    assert(v / 256 / 256 == v / 0x1_0000) by (nonlinear_arith);
    assert(v / 0x1_0000 / 256 == v / 0x100_0000) by (nonlinear_arith);
}

proof fn lemma_told(h: u32)
    ensures
        to_signed(h as nat, 4) == told_sum(h),
{
    lemma_pow256();
}

/// The checksum of a number is taken of a mark and its four bytes.
pub proof fn lemma_number_is_summed(v: int)
    requires
        i32::MIN <= v <= i32::MAX,
    ensures
        int_hash(v) == crc32c_of(seq![8u8] + le4(without_sign(v))),
{
    lemma_pow256();
    lemma_le(to_unsigned(v, 4));
    assert(to_unsigned(v, 4) == without_sign(v));
}

/// The bytes of the first `n` characters, two of each, the least significant first.
pub open spec fn two_of_each(t: Seq<char>, n: nat) -> Seq<u8> {
    Seq::new(
        2 * n,
        |i: int|
            if i % 2 == 0 {
                digit(code_of(t[i / 2]) as int, 1)
            } else {
                digit(code_of(t[i / 2]) as int, 0x100)
            },
    )
}

proof fn lemma_units_upto(t: Seq<char>, n: nat)
    requires
        n <= t.len(),
        forall|i: int| 0 <= i < t.len() ==> code_of(#[trigger] t[i]) <= 0xffff,
    ensures
        utf16(t, n) == two_of_each(t, n),
    decreases n,
{
    if n > 0 {
        lemma_units_upto(t, (n - 1) as nat);
        let c = t[n - 1];
        lemma_le(code_of(c));
        assert(two_of_each(t, n) =~= two_of_each(t, (n - 1) as nat) + le2(code_of(c) as int));
    } else {
        assert(two_of_each(t, 0) =~= Seq::empty());
    }
}

/// The checksum of a text is taken of a mark, how many units of two bytes it has, and these, the least
/// significant byte first.
pub proof fn lemma_text_is_summed(t: Seq<char>)
    requires
        forall|i: int| 0 <= i < t.len() ==> code_of(#[trigger] t[i]) <= 0xffff,
    ensures
        text_hash(t) == crc32c_of(seq![12u8] + le4(t.len() as int) + two_of_each(t, t.len())),
{
    lemma_units_upto(t, t.len());
    lemma_le(t.len());
}

/// A character beyond the basic plane is summed as two units.
pub proof fn lemma_wide_character(c: char)
    requires
        code_of(c) >= 0x1_0000,
    ensures
        units(c) == le2(0xd800 + (code_of(c) - 0x1_0000) / 0x400) + le2(0xdc00 + (code_of(c) - 0x1_0000) % 0x400),
{
    lemma_le((0xd800 + (code_of(c) - 0x1_0000) / 0x400) as nat);
    lemma_le((0xdc00 + (code_of(c) - 0x1_0000) % 0x400) as nat);
}

proof fn lemma_sums_in_turn(l: Seq<Tag>, n: nat)
    requires
        n <= l.len(),
    ensures
        list_bytes(l, n).len() == 4 * n,
        forall|i: int| 0 <= i < n ==> #[trigger] list_bytes(l, n).subrange(4 * i, 4 * i + 4) == le4(tag_hash(l[i]) as int),
    decreases n,
{
    if n > 0 {
        lemma_sums_in_turn(l, (n - 1) as nat);
        lemma_le(tag_hash(l[n - 1]) as nat);
        let h = list_bytes(l, (n - 1) as nat);
        let b = list_bytes(l, n);
        assert forall|i: int| 0 <= i < n implies #[trigger] b.subrange(4 * i, 4 * i + 4) == le4(tag_hash(l[i]) as int) by {
            if i < n - 1 {
                assert(b.subrange(4 * i, 4 * i + 4) =~= h.subrange(4 * i, 4 * i + 4));
            } else {
                assert(b.subrange(4 * i, 4 * i + 4) =~= le4(tag_hash(l[i]) as int));
            }
        }
    }
}

/// The checksums of numbers and lists are taken of a mark for their type and their bytes; those of lists of
/// the checksums of their items, in their order.
pub proof fn lemma_tag_is_summed(t: Tag)
    ensures
        match t {
            Tag::End => tag_hash(t) == crc32c_of(seq![1u8]),
            Tag::Byte(v) => -0x80 <= v < 0x80 ==> tag_hash(t) == crc32c_of(
                seq![6u8, (if v < 0 {
                    v + 256
                } else {
                    v
                }) as u8],
            ),
            Tag::Short(v) => -0x8000 <= v < 0x8000 ==> tag_hash(t) == crc32c_of(
                seq![7u8] + le2(
                    if v < 0 {
                        v + 0x1_0000
                    } else {
                        v
                    },
                ),
            ),
            Tag::Int(v) => i32::MIN <= v <= i32::MAX ==> tag_hash(t) == crc32c_of(seq![8u8] + le4(without_sign(v))),
            Tag::String(s) => tag_hash(t) == text_hash(s),
            Tag::List(l) => exists|b: Seq<u8>|
                {
                    &&& tag_hash(t) == #[trigger] crc32c_of(seq![4u8] + b + seq![5u8])
                    &&& b.len() == 4 * l.len()
                    &&& forall|i: int| 0 <= i < l.len() ==> #[trigger] b.subrange(4 * i, 4 * i + 4) == le4(tag_hash(l[i]) as int)
                },
            _ => true,
        },
{
    lemma_pow256();
    match t {
        Tag::Byte(v) => {
            if -0x80 <= v < 0x80 {
                lemma_le(to_unsigned(v, 1));
                assert(seq![6u8] + le_bytes(to_unsigned(v, 1), 1) =~= seq![6u8, (if v < 0 {
                    v + 256
                } else {
                    v
                }) as u8]);
            }
        },
        Tag::Short(v) => {
            if -0x8000 <= v < 0x8000 {
                lemma_le(to_unsigned(v, 2));
            }
        },
        Tag::Int(v) => {
            if i32::MIN <= v <= i32::MAX {
                lemma_le(to_unsigned(v, 4));
            }
        },
        Tag::List(l) => {
            lemma_sums_in_turn(l, l.len());
            assert(tag_hash(t) == crc32c_of(seq![4u8] + list_bytes(l, l.len()) + seq![5u8]));
        },
        _ => {},
    }
}

proof fn lemma_ints_front(l: Seq<i32>, n: nat)
    requires
        n < l.len(),
    ensures
        ints_bytes(vals::<AsI32>(l), n + 1) =~= ints_bytes(vals::<AsI32>(l), n) + le4(int_hash(l[n as int] as int) as int),
{
    assert(vals::<AsI32>(l)[n as int] == AsI32::val(l[n as int]));
    lemma_le(int_hash(l[n as int] as int) as nat);
}

/// The checksums of numbers from the first on, one behind the other.
pub open spec fn sums_of_ints(l: Seq<i32>, n: nat) -> Seq<u8>
    decreases n,
{
    if n == 0 || n > l.len() {
        Seq::empty()
    } else {
        sums_of_ints(l, (n - 1) as nat) + le4(int_hash(l[n - 1] as int) as int)
    }
}

proof fn lemma_sums_of_ints(l: Seq<i32>, n: nat)
    requires
        n <= l.len(),
    ensures
        ints_bytes(vals::<AsI32>(l), n) == sums_of_ints(l, n),
    decreases n,
{
    if n > 0 {
        lemma_sums_of_ints(l, (n - 1) as nat);
        lemma_ints_front(l, (n - 1) as nat);
    }
}

/// What the checksum of an explosion is taken of.
pub open spec fn summed_explosion(v: FireworkExplosionImpl) -> Seq<u8> {
    seq![2u8, shape_number(v.shape) as u8] + sums_of_ints(v.colors@, v.colors@.len()) + seq![3u8] + sums_of_ints(
        v.fade_colors@,
        v.fade_colors@.len(),
    ) + seq![4u8, if v.has_trail { 1u8 } else { 0u8 }, if v.has_twinkle { 1u8 } else { 0u8 }]
}

/// The checksum of an explosion is taken of its shape, the checksums of its colours, those of the colours it
/// fades to, and its flags.
pub proof fn lemma_explosion_is_summed(v: FireworkExplosionImpl)
    ensures
        explosion_hash(FireworkExplosionImpl::val(v)) == told_sum(crc32c_of(summed_explosion(v))),
        flat_hash(DataComponent::FireworkExplosion, FireworkExplosionImpl::val(v)) == told_sum(crc32c_of(summed_explosion(v))),
{
    let w = FireworkExplosionImpl::val(v);
    lemma_sums_of_ints(v.colors@, v.colors@.len());
    lemma_sums_of_ints(v.fade_colors@, v.fade_colors@.len());
    assert(as_list(first(second(w))) == vals::<AsI32>(v.colors@));
    assert(as_list(first(second(second(w)))) == vals::<AsI32>(v.fade_colors@));
    assert(as_bool(first(second(second(second(w))))) == v.has_trail);
    assert(as_bool(second(second(second(second(w))))) == v.has_twinkle);
    assert(as_int(first(w)) == shape_number(v.shape));
    lemma_told(crc32c_of(summed_explosion(v)));
}

/// The checksums of the checksums of explosions from the first on, one behind the other.
pub open spec fn sums_of_explosions(l: Seq<FireworkExplosionImpl>, n: nat) -> Seq<u8>
    decreases n,
{
    if n == 0 || n > l.len() {
        Seq::empty()
    } else {
        sums_of_explosions(l, (n - 1) as nat) + le4(int_hash(told_sum(crc32c_of(summed_explosion(l[n - 1])))) as int)
    }
}

proof fn lemma_sums_of_explosions(l: Seq<FireworkExplosionImpl>, n: nat)
    requires
        n <= l.len(),
    ensures
        explosions_bytes(vals::<FireworkExplosionImpl>(l), n) == sums_of_explosions(l, n),
    decreases n,
{
    if n > 0 {
        lemma_sums_of_explosions(l, (n - 1) as nat);
        assert(vals::<FireworkExplosionImpl>(l)[n - 1] == FireworkExplosionImpl::val(l[n - 1]));
        lemma_explosion_is_summed(l[n - 1]);
        lemma_le(int_hash(told_sum(crc32c_of(summed_explosion(l[n - 1])))) as nat);
    }
}

/// The checksum of a firework is taken of how long it flies and its explosions.
pub proof fn lemma_fireworks_are_summed(v: FireworksImpl)
    ensures
        fireworks_hash(FireworksImpl::val(v)) == told_sum(
            crc32c_of(
                seq![2u8] + le4(int_hash(v.flight_duration as int) as int) + sums_of_explosions(v.explosions@, v.explosions@.len()) + seq![3u8],
            ),
        ),
        flat_hash(DataComponent::Fireworks, FireworksImpl::val(v)) == fireworks_hash(FireworksImpl::val(v)),
{
    let w = FireworksImpl::val(v);
    assert(as_int(first(w)) == v.flight_duration as int);
    assert(as_list(second(w)) == vals::<FireworkExplosionImpl>(v.explosions@));
    lemma_sums_of_explosions(v.explosions@, v.explosions@.len());
    lemma_le(int_hash(v.flight_duration as int) as nat);
    lemma_told(
        crc32c_of(
            seq![2u8] + le4(int_hash(v.flight_duration as int) as int) + sums_of_explosions(v.explosions@, v.explosions@.len()) + seq![3u8],
        ),
    );
}

/// A mark and the checksum of a text, where there is one.
pub open spec fn text_under(mark: u8, t: Option<String>) -> Seq<u8> {
    match t {
        Some(t) => seq![mark] + le4(text_hash(t@) as int),
        None => Seq::empty(),
    }
}

/// The checksums of properties from the first on, one behind the other.
pub open spec fn sums_of_properties(l: Seq<ProfileProperty>, n: nat) -> Seq<u8>
    decreases n,
{
    if n == 0 || n > l.len() {
        Seq::empty()
    } else {
        sums_of_properties(l, (n - 1) as nat) + (le4(text_hash(l[n - 1].name@) as int) + le4(text_hash(l[n - 1].value@) as int) + match l[n
            - 1].signature {
            Some(s) => seq![1u8] + le4(text_hash(s@) as int),
            None => seq![0u8],
        })
    }
}

proof fn lemma_sums_of_properties(l: Seq<ProfileProperty>, n: nat)
    requires
        n <= l.len(),
    ensures
        properties_bytes(vals::<ProfileProperty>(l), n) == sums_of_properties(l, n),
    decreases n,
{
    if n > 0 {
        lemma_sums_of_properties(l, (n - 1) as nat);
        let p = l[n - 1];
        assert(vals::<ProfileProperty>(l)[n - 1] == ProfileProperty::val(p));
        let w = ProfileProperty::val(p);
        assert(as_text(first(w)) == p.name@);
        assert(as_text(first(second(w))) == p.value@);
        lemma_le(text_hash(p.name@) as nat);
        lemma_le(text_hash(p.value@) as nat);
        match p.signature {
            Some(s) => {
                lemma_le(text_hash(s@) as nat);
                assert(as_text(*second(second(w))->Present_0) == s@);
            },
            None => {},
        }
    }
}

proof fn lemma_text_under(mark: u8, t: Option<String>)
    ensures
        crate::component_hash::marked_text(mark, crate::elements::opt_text_val(t)) == text_under(mark, t),
{
    match t {
        Some(s) => {
            lemma_le(text_hash(s@) as nat);
        },
        None => {},
    }
}

/// The checksum of a profile is taken of its parts, each behind its own mark; what it lacks is left out.
pub proof fn lemma_profile_is_summed(v: ProfileImpl)
    ensures
        profile_hash(ProfileImpl::val(v)) == told_sum(
            crc32c_of(
                text_under(1, v.name) + (match v.id {
                    Some(id) => seq![2u8] + le4(int_hash(id@[0] as int) as int) + le4(int_hash(id@[1] as int) as int) + le4(
                        int_hash(id@[2] as int) as int,
                    ) + le4(int_hash(id@[3] as int) as int),
                    None => Seq::empty(),
                }) + (if v.properties@.len() == 0 {
                    Seq::empty()
                } else {
                    seq![3u8] + sums_of_properties(v.properties@, v.properties@.len())
                }) + text_under(4, v.texture) + text_under(5, v.cape) + text_under(6, v.elytra) + text_under(7, v.model),
            ),
        ),
        flat_hash(DataComponent::Profile, ProfileImpl::val(v)) == profile_hash(ProfileImpl::val(v)),
{
    let w = ProfileImpl::val(v);
    lemma_text_under(1, v.name);
    lemma_text_under(4, v.texture);
    lemma_text_under(5, v.cape);
    lemma_text_under(6, v.elytra);
    lemma_text_under(7, v.model);
    lemma_sums_of_properties(v.properties@, v.properties@.len());
    let looks = second(second(w));
    assert(first(first(w)) == crate::elements::opt_text_val(v.name));
    assert(first(looks) == crate::elements::opt_text_val(v.texture));
    assert(first(second(looks)) == crate::elements::opt_text_val(v.cape));
    assert(first(second(second(looks))) == crate::elements::opt_text_val(v.elytra));
    assert(second(second(second(looks))) == crate::elements::opt_text_val(v.model));
    assert(as_list(first(second(w))) == vals::<ProfileProperty>(v.properties@));
    assert(second(first(w)) == crate::elements::opt_id_val(v.id));
    match v.id {
        Some(id) => {
            lemma_le(int_hash(id@[0] as int) as nat);
            lemma_le(int_hash(id@[1] as int) as nat);
            lemma_le(int_hash(id@[2] as int) as nat);
            lemma_le(int_hash(id@[3] as int) as nat);
            let x = crate::elements::id_val(id);
            assert(*second(first(w))->Present_0 == x);
            assert(as_int(first(x)) == id@[0] as int);
            assert(as_int(first(second(x))) == id@[1] as int);
            assert(as_int(first(second(second(x)))) == id@[2] as int);
            assert(as_int(second(second(second(x)))) == id@[3] as int);
        },
        None => {},
    }
    let b = text_under(1, v.name) + (match v.id {
        Some(id) => seq![2u8] + le4(int_hash(id@[0] as int) as int) + le4(int_hash(id@[1] as int) as int) + le4(int_hash(id@[2] as int) as int) + le4(
            int_hash(id@[3] as int) as int,
        ),
        None => Seq::empty(),
    }) + (if v.properties@.len() == 0 {
        Seq::empty()
    } else {
        seq![3u8] + sums_of_properties(v.properties@, v.properties@.len())
    }) + text_under(4, v.texture) + text_under(5, v.cape) + text_under(6, v.elytra) + text_under(7, v.model);
    lemma_told(crc32c_of(b));
}

/// The checksums of components that hold one number, one text or one tag are those of what they hold.
pub proof fn lemma_plain_components_are_summed(
    a: MaxStackSizeImpl,
    b: DamageImpl,
    c: DyedColorImpl,
    d: MapIdImpl,
    e: RarityImpl,
    f: CustomNameImpl,
    g: ItemModelImpl,
    h: TooltipStyleImpl,
    i: NoteBlockSoundImpl,
    j: BaseColorImpl,
    k: CustomDataImpl,
)
    ensures
        flat_hash(DataComponent::MaxStackSize, MaxStackSizeImpl::val(a)) == told_sum(int_hash(a.size as int)),
        flat_hash(DataComponent::Damage, DamageImpl::val(b)) == told_sum(int_hash(b.damage as int)),
        flat_hash(DataComponent::DyedColor, DyedColorImpl::val(c)) == told_sum(int_hash(c.rgb as int)),
        flat_hash(DataComponent::MapId, MapIdImpl::val(d)) == told_sum(int_hash(d.id as int)),
        flat_hash(DataComponent::Rarity, RarityImpl::val(e)) == told_sum(int_hash(rarity_number(e.rarity))),
        flat_hash(DataComponent::CustomName, CustomNameImpl::val(f)) == told_sum(text_hash(plain_text(f.name@))),
        flat_hash(DataComponent::ItemModel, ItemModelImpl::val(g)) == told_sum(text_hash(g.id@)),
        flat_hash(DataComponent::TooltipStyle, TooltipStyleImpl::val(h)) == told_sum(text_hash(h.id@)),
        flat_hash(DataComponent::NoteBlockSound, NoteBlockSoundImpl::val(i)) == told_sum(text_hash(i.sound@)),
        flat_hash(DataComponent::BaseColor, BaseColorImpl::val(j)) == told_sum(text_hash(j.color@)),
        flat_hash(DataComponent::CustomData, CustomDataImpl::val(k)) == told_sum(tag_hash(Tag::Compound(k.data@))),
{
    lemma_told(int_hash(a.size as int));
    lemma_told(int_hash(b.damage as int));
    lemma_told(int_hash(c.rgb as int));
    lemma_told(int_hash(d.id as int));
    lemma_told(int_hash(rarity_number(e.rarity)));
    lemma_told(text_hash(plain_text(f.name@)));
    lemma_told(text_hash(g.id@));
    lemma_told(text_hash(h.id@));
    lemma_told(text_hash(i.sound@));
    lemma_told(text_hash(j.color@));
    lemma_told(tag_hash(Tag::Compound(k.data@)));
}

/// Whether a patch has one entry for each of its components, in the order of their numbers.
pub open spec fn in_number_order(p: PatchVal) -> bool {
    forall|a: int, b: int| 0 <= a < b < p.len() ==> component_id((#[trigger] p[a]).0) < component_id((#[trigger] p[b]).0)
}

/// The components of a patch from the first on: the number of each, whether it is set, and the checksum of
/// its value, or zero.
pub open spec fn sums_of_entries(p: PatchVal, n: nat) -> Seq<u8>
    decreases n,
{
    if n == 0 || n > p.len() {
        Seq::empty()
    } else {
        sums_of_entries(p, (n - 1) as nat) + match p[n - 1].1 {
            Some(c) => seq![component_id(p[n - 1].0) as u8, 1u8] + le4(without_sign(component_hash(c))),
            None => seq![component_id(p[n - 1].0) as u8, 0u8, 0u8, 0u8, 0u8, 0u8],
        }
    }
}

proof fn lemma_sums_of_entries(p: PatchVal, n: nat)
    requires
        n <= p.len(),
        in_number_order(p),
        forall|i: int| 0 <= i < p.len() ==> (#[trigger] p[i].1 matches Some(c) ==> i32::MIN <= component_hash(c) <= i32::MAX),
    ensures
        patch_hashes(p, n).len() == n,
        patch_bytes(patch_hashes(p, n), n) == sums_of_entries(p, n),
        forall|i: int| 0 <= i < n ==> (#[trigger] patch_hashes(p, n)[i]).0 == component_id(p[i].0),
    decreases n,
{
    if n > 0 {
        lemma_sums_of_entries(p, (n - 1) as nat);
        let k = p[n - 1].0;
        crate::stack::lemma_last_place(p, k, (n - 1) as nat);
        crate::stack::lemma_last_place(p, k, p.len());
        assert(last_place(p, k, p.len()) == Some(n - 1));
        assert(last_place(p, k, (n - 1) as nat) is None);
        let h = patch_hashes(p, (n - 1) as nat);
        let e = patch_hashes(p, n);
        assert(e =~= h.push(e[n - 1])) by {
            if h.len() > 0 {
                assert(h.last().0 == component_id(p[n - 2].0));
            }
        }
        lemma_pow256();
        assert(e[n - 1].1 == match p[n - 1].1 {
            Some(c) => (true, component_hash(c) as i32),
            None => (false, 0i32),
        });
        lemma_front_bytes(h, e[n - 1], (n - 1) as nat);
        match p[n - 1].1 {
            Some(c) => {
                lemma_le(to_unsigned(component_hash(c), 4));
            },
            None => {
                lemma_le(0);
                assert(le4(0) =~= seq![0u8, 0u8, 0u8, 0u8]);
                assert(seq![component_id(k) as u8, 0u8] + le4(0) =~= seq![component_id(k) as u8, 0u8, 0u8, 0u8, 0u8, 0u8]);
            },
        }
        assert(patch_bytes(e, n) =~= sums_of_entries(p, n));
    }
}

proof fn lemma_front_bytes(h: Seq<(u64, (bool, i32))>, x: (u64, (bool, i32)), n: nat)
    requires
        n <= h.len(),
    ensures
        patch_bytes(h.push(x), n) == patch_bytes(h, n),
    decreases n,
{
    if n > 0 {
        lemma_front_bytes(h, x, (n - 1) as nat);
    }
}

/// The checksum of a stack is taken of its item, its count and its components.
pub proof fn lemma_stack_is_summed(s: StackVal)
    requires
        in_number_order(s.patch),
        0 <= s.count <= 255,
        forall|i: int| 0 <= i < s.patch.len() ==> (#[trigger] s.patch[i].1 matches Some(c) ==> i32::MIN <= component_hash(c) <= i32::MAX),
    ensures
        stack_hash(s) == told_sum(crc32c_of(le2(s.item.id as int) + seq![s.count as u8] + sums_of_entries(s.patch, s.patch.len()))),
{
    lemma_sums_of_entries(s.patch, s.patch.len());
    lemma_le(s.item.id as nat);
    lemma_told(crc32c_of(le2(s.item.id as int) + seq![s.count as u8] + sums_of_entries(s.patch, s.patch.len())));
}

/// The eight bytes of a number, the least significant first.
pub open spec fn le8(v: int) -> Seq<u8> {
    le4(v % 0x1_0000_0000) + le4(v / 0x1_0000_0000)
}

proof fn lemma_le8(v: nat)
    ensures
        le_bytes(v, 8) =~= le8(v as int),
{
    reveal_with_fuel(le_bytes, 9);
    let v = v as int;
    assert(v / 256 / 256 == v / 0x1_0000) by (nonlinear_arith);
    assert(v / 0x1_0000 / 256 == v / 0x100_0000) by (nonlinear_arith);
    assert(v / 0x100_0000 / 256 == v / 0x1_0000_0000) by (nonlinear_arith);
    let w = v / 0x1_0000_0000;
    assert(w / 256 / 256 == w / 0x1_0000) by (nonlinear_arith);
    assert(w / 0x1_0000 / 256 == w / 0x100_0000) by (nonlinear_arith);
    let u = v % 0x1_0000_0000;
    assert(u % 256 == v % 256);
    assert((u / 0x100) % 256 == (v / 0x100) % 256);
    assert((u / 0x1_0000) % 256 == (v / 0x1_0000) % 256);
    assert((u / 0x100_0000) % 256 == (v / 0x100_0000) % 256);
}

proof fn lemma_array_summed(l: Seq<int>, width: nat, n: nat, piece: spec_fn(int) -> Seq<u8>)
    requires
        n <= l.len(),
        forall|k: int| 0 <= k < n ==> #[trigger] piece(k) == le_bytes(to_unsigned(l[k], width), width),
    ensures
        array_bytes(l, width, n) == in_turn(n, piece, 0),
    decreases n,
{
    if n > 0 {
        lemma_array_summed(l, width, (n - 1) as nat, piece);
        lemma_one_more((n - 1) as nat, piece, 0);
        assert(piece(n - 1) == le_bytes(to_unsigned(l[n - 1], width), width));
    }
}

/// The checksums of arrays are taken of a mark, their numbers with the least significant byte first, and
/// another mark; those of numbers of eight bytes of a mark and these.
pub proof fn lemma_arrays_are_summed(b: Seq<i8>, i: Seq<int>, l: Seq<int>, v: int)
    requires
        forall|k: int| 0 <= k < i.len() ==> i32::MIN <= #[trigger] i[k] <= i32::MAX,
        forall|k: int| 0 <= k < l.len() ==> i64::MIN <= #[trigger] l[k] <= i64::MAX,
        i64::MIN <= v <= i64::MAX,
    ensures
        tag_hash(Tag::ByteArray(b)) == crc32c_of(
            seq![14u8] + in_turn(
                b.len(),
                |k: int|
                    seq![if b[k] < 0 {
                        (b[k] + 256) as u8
                    } else {
                        b[k] as u8
                    }],
                0,
            ) + seq![15u8],
        ),
        tag_hash(Tag::IntArray(i)) == crc32c_of(seq![16u8] + in_turn(i.len(), |k: int| le4(without_sign(i[k])), 0) + seq![17u8]),
        tag_hash(Tag::LongArray(l)) == crc32c_of(seq![18u8] + in_turn(l.len(), |k: int| le8(long_without_sign(l[k])), 0) + seq![19u8]),
        tag_hash(Tag::Long(v)) == crc32c_of(seq![9u8] + le8(long_without_sign(v))),
{
    lemma_pow256();
    let fb = |k: int|
        seq![if b[k] < 0 {
            (b[k] + 256) as u8
        } else {
            b[k] as u8
        }];
    assert forall|k: int| 0 <= k < b.len() implies #[trigger] fb(k) == le_bytes(to_unsigned(ints8(b)[k], 1), 1) by {
        lemma_le(to_unsigned(ints8(b)[k], 1));
        assert(fb(k) =~= le_bytes(to_unsigned(ints8(b)[k], 1), 1));
    }
    lemma_array_summed(ints8(b), 1, b.len(), fb);
    let fi = |k: int| le4(without_sign(i[k]));
    assert forall|k: int| 0 <= k < i.len() implies #[trigger] fi(k) == le_bytes(to_unsigned(i[k], 4), 4) by {
        lemma_le(to_unsigned(i[k], 4));
    }
    lemma_array_summed(i, 4, i.len(), fi);
    let fl = |k: int| le8(long_without_sign(l[k]));
    assert forall|k: int| 0 <= k < l.len() implies #[trigger] fl(k) == le_bytes(to_unsigned(l[k], 8), 8) by {
        lemma_le8(to_unsigned(l[k], 8));
    }
    lemma_array_summed(l, 8, l.len(), fl);
    lemma_le8(to_unsigned(v, 8));
}

/// The number, without its sign, that stands for a number of eight bytes.
pub open spec fn long_without_sign(v: int) -> int {
    if v < 0 {
        v + 0x1_0000_0000_0000_0000
    } else {
        v
    }
}

/// Floating-point numbers are summed by their bit patterns; all that are not numbers as one.
pub proof fn lemma_floats_are_summed(a: u32, b: u64)
    ensures
        tag_hash(Tag::Float(a as int)) == crc32c_of(
            seq![10u8] + le4(
                if a % 0x8000_0000 > 0x7f80_0000 {
                    0x7fc0_0000
                } else {
                    a as int
                },
            ),
        ),
        tag_hash(Tag::Double(b as int)) == crc32c_of(
            seq![11u8] + le8(
                if b % 0x8000_0000_0000_0000 > 0x7ff0_0000_0000_0000 {
                    0x7ff8_0000_0000_0000
                } else {
                    b as int
                },
            ),
        ),
{
    lemma_le(float_pattern(4, a as int) as nat);
    lemma_le8(float_pattern(8, b as int) as nat);
}

/// Whether the entries of a compound are in the order of their checksums.
pub open spec fn in_sum_order(c: Seq<(Seq<char>, Tag)>) -> bool {
    forall|a: int, b: int| 0 <= a < b < c.len() ==> text_hash((#[trigger] c[a]).0) < text_hash((#[trigger] c[b]).0)
}

proof fn lemma_entries_summed(c: Seq<(Seq<char>, Tag)>, n: nat)
    requires
        n <= c.len(),
        in_sum_order(c),
    ensures
        entry_hashes(c, n) == Seq::new(n, |k: int| entry_key(text_hash(c[k].0), tag_hash(c[k].1))),
    decreases n,
{
    if n > 0 {
        lemma_entries_summed(c, (n - 1) as nat);
        let h = entry_hashes(c, (n - 1) as nat);
        let e = entry_key(text_hash(c[n - 1].0), tag_hash(c[n - 1].1));
        if h.len() > 0 {
            assert(text_hash(c[n - 2].0) < text_hash(c[n - 1].0));
            assert(h.last() == entry_key(text_hash(c[n - 2].0), tag_hash(c[n - 2].1)));
            assert(h.last().0 <= e.0);
        }
        assert(entry_hashes(c, n) =~= h.push(e));
        assert(entry_hashes(c, n) =~= Seq::new(n, |k: int| entry_key(text_hash(c[k].0), tag_hash(c[k].1))));
    } else {
        assert(entry_hashes(c, n) =~= Seq::new(n, |k: int| entry_key(text_hash(c[k].0), tag_hash(c[k].1))));
    }
}

proof fn lemma_entry_bytes(c: Seq<(Seq<char>, Tag)>, n: nat)
    requires
        n <= c.len(),
    ensures
        entry_bytes(Seq::new(c.len(), |k: int| entry_key(text_hash(c[k].0), tag_hash(c[k].1))), n) == in_turn(
            n,
            |k: int| le4(text_hash(c[k].0) as int) + le4(tag_hash(c[k].1) as int),
            0,
        ),
    decreases n,
{
    let l = Seq::new(c.len(), |k: int| entry_key(text_hash(c[k].0), tag_hash(c[k].1)));
    let f = |k: int| le4(text_hash(c[k].0) as int) + le4(tag_hash(c[k].1) as int);
    if n > 0 {
        lemma_entry_bytes(c, (n - 1) as nat);
        lemma_one_more((n - 1) as nat, f, 0);
        lemma_le(text_hash(c[n - 1].0) as nat);
        lemma_le(tag_hash(c[n - 1].1) as nat);
        assert(l[n - 1] == entry_key(text_hash(c[n - 1].0), tag_hash(c[n - 1].1)));
        assert(entry_bytes(l, n) =~= in_turn((n - 1) as nat, f, 0) + f(n - 1));
    }
}

/// The checksum of a compound is taken of a mark, the checksums of each key and its value, in the order of
/// these, and another mark.
pub proof fn lemma_compound_is_summed(c: Seq<(Seq<char>, Tag)>)
    requires
        in_sum_order(c),
    ensures
        tag_hash(Tag::Compound(c)) == crc32c_of(
            seq![2u8] + in_turn(c.len(), |k: int| le4(text_hash(c[k].0) as int) + le4(tag_hash(c[k].1) as int), 0) + seq![3u8],
        ),
{
    reveal_with_fuel(tag_hash, 2);
    lemma_entries_summed(c, c.len());
    lemma_entry_bytes(c, c.len());
}

/// The texts of pairs, each with a zero behind it.
pub proof fn lemma_stick_is_summed(v: DebugStickStateImpl)
    ensures
        flat_hash(DataComponent::DebugStickState, debug_stick_state_val(v)) == told_sum(
            crc32c_of(
                in_turn(
                    v.properties@.len(),
                    |k: int| encode_utf8(v.properties@[k].0@) + seq![0u8] + encode_utf8(v.properties@[k].1@) + seq![0u8],
                    0,
                ),
            ),
        ),
{
    lemma_ended(v.properties@, v.properties@.len());
    lemma_told(crc32c_of(ended_pairs(text_pairs(v.properties@), v.properties@.len())));
}

proof fn lemma_ended(l: Seq<(String, String)>, n: nat)
    requires
        n <= l.len(),
    ensures
        ended_pairs(text_pairs(l), n) == in_turn(n, |k: int| encode_utf8(l[k].0@) + seq![0u8] + encode_utf8(l[k].1@) + seq![0u8], 0),
    decreases n,
{
    let f = |k: int| encode_utf8(l[k].0@) + seq![0u8] + encode_utf8(l[k].1@) + seq![0u8];
    if n > 0 {
        lemma_ended(l, (n - 1) as nat);
        lemma_one_more((n - 1) as nat, f, 0);
        let e = text_pairs(l)[n - 1];
        assert(as_text(first(e)) == l[n - 1].0@ && as_text(second(e)) == l[n - 1].1@);
        assert(ended_pairs(text_pairs(l), n) =~= in_turn((n - 1) as nat, f, 0) + f(n - 1));
    }
}

/// Whether the stacks of a container are in the order of their slots.
pub open spec fn in_slot_order(slots: Seq<u8>) -> bool {
    forall|a: int, b: int| 0 <= a < b < slots.len() ==> #[trigger] slots[a] < #[trigger] slots[b]
}

proof fn lemma_slots_summed(l: Seq<Val>, slots: Seq<u8>, stacks: Seq<StackVal>, n: nat)
    requires
        n <= l.len(),
        slots.len() == l.len() && stacks.len() == l.len(),
        in_slot_order(slots),
        forall|k: int| 0 <= k < l.len() ==> #[trigger] l[k] == pair(Val::Int(slots[k] as int), Val::Stack(stacks[k])),
        forall|k: int| 0 <= k < l.len() ==> i32::MIN <= stack_hash(#[trigger] stacks[k]) <= i32::MAX,
    ensures
        slot_hashes(l, n) == Seq::new(n, |k: int| (slots[k] as u64, stack_hash(stacks[k]) as i32)),
    decreases n,
{
    if n > 0 {
        lemma_slots_summed(l, slots, stacks, (n - 1) as nat);
        let h = slot_hashes(l, (n - 1) as nat);
        assert(l[n - 1] == pair(Val::Int(slots[n - 1] as int), Val::Stack(stacks[n - 1])));
        assert(slot_of(l[n - 1]) == slots[n - 1]);
        assert(slot_hash(l[n - 1]) == stack_hash(stacks[n - 1]));
        if h.len() > 0 {
            assert(slots[n - 2] < slots[n - 1]);
        }
    }
    assert(slot_hashes(l, n) =~= Seq::new(n, |k: int| (slots[k] as u64, stack_hash(stacks[k]) as i32)));
}

proof fn lemma_slot_sums(h: Seq<(u64, i32)>, slots: Seq<u8>, stacks: Seq<StackVal>, n: nat)
    requires
        n <= h.len(),
        slots.len() == h.len() && stacks.len() == h.len(),
        forall|k: int| 0 <= k < h.len() ==> #[trigger] h[k] == (slots[k] as u64, stack_hash(stacks[k]) as i32),
        forall|k: int| 0 <= k < h.len() ==> i32::MIN <= stack_hash(#[trigger] stacks[k]) <= i32::MAX,
    ensures
        slot_bytes(h, n) == in_turn(n, |k: int| seq![slots[k]] + le4(without_sign(stack_hash(stacks[k]))), 0),
    decreases n,
{
    let f = |k: int| seq![slots[k]] + le4(without_sign(stack_hash(stacks[k])));
    if n > 0 {
        lemma_slot_sums(h, slots, stacks, (n - 1) as nat);
        lemma_one_more((n - 1) as nat, f, 0);
        lemma_pow256();
        assert(h[n - 1] == (slots[n - 1] as u64, stack_hash(stacks[n - 1]) as i32));
        assert(i32::MIN <= stack_hash(stacks[n - 1]) <= i32::MAX);
        lemma_le(to_unsigned(stack_hash(stacks[n - 1]), 4));
        assert(slot_bytes(h, n) =~= in_turn((n - 1) as nat, f, 0) + f(n - 1));
    }
}

/// The checksum of a container is taken of its slots and the checksums of their stacks.
pub proof fn lemma_container_is_summed(l: Seq<Val>, slots: Seq<u8>, stacks: Seq<StackVal>)
    requires
        slots.len() == l.len() && stacks.len() == l.len(),
        in_slot_order(slots),
        forall|k: int| 0 <= k < l.len() ==> #[trigger] l[k] == pair(Val::Int(slots[k] as int), Val::Stack(stacks[k])),
        forall|k: int| 0 <= k < l.len() ==> i32::MIN <= stack_hash(#[trigger] stacks[k]) <= i32::MAX,
    ensures
        component_hash(ComponentVal { kind: DataComponent::Container, val: Val::List(l) }) == told_sum(
            crc32c_of(in_turn(l.len(), |k: int| seq![slots[k]] + le4(without_sign(stack_hash(stacks[k]))), 0)),
        ),
{
    lemma_slots_summed(l, slots, stacks, l.len());
    lemma_slot_sums(slot_hashes(l, l.len()), slots, stacks, l.len());
    lemma_told(crc32c_of(in_turn(l.len(), |k: int| seq![slots[k]] + le4(without_sign(stack_hash(stacks[k]))), 0)));
}

/// The checksum of the markers of a map is taken of a mark and, in the order of their keys, of the checksums of
/// the key and the type of each and the bits of its place and its rotation; zeros count as one, and so does
/// what is not a number.
pub proof fn lemma_markers_are_summed(v: MapDecorationsImpl)
    requires
        ascending(decoration_vals(v.decorations@)),
    ensures
        flat_hash(DataComponent::MapDecorations, map_decorations_val(v)) == told_sum(
            crc32c_of(seq![13u8] + in_turn(v.decorations@.len(), |k: int| summed_marker(v.decorations@[k].0@, v.decorations@[k].1), 0)),
        ),
{
    let l = decoration_vals(v.decorations@);
    lemma_canonical_of_ascending(l, l.len());
    assert(l.take(l.len() as int) =~= l);
    lemma_markers_upto(v.decorations@, l.len());
    lemma_told(crc32c_of(seq![13u8] + decorations_bytes(l, l.len())));
}

/// The bits of a floating-point number, with both zeros as one and all that are not numbers as another.
pub open spec fn folded64(b: u64) -> int {
    if b % 0x8000_0000_0000_0000 == 0 {
        0
    } else if b % 0x8000_0000_0000_0000 > 0x7ff0_0000_0000_0000 {
        0x7ff8_0000_0000_0000
    } else {
        b as int
    }
}

/// As above, for a number of half the width.
pub open spec fn folded32(b: u32) -> int {
    if b % 0x8000_0000 == 0 {
        0
    } else if b % 0x8000_0000 > 0x7f80_0000 {
        0x7fc0_0000
    } else {
        b as int
    }
}

/// What the checksum of a marker is taken of.
pub open spec fn summed_marker(key: Seq<char>, e: MapDecorationEntry) -> Seq<u8> {
    le4(text_hash(key) as int) + le4(text_hash(e.decoration_type@) as int) + le8(folded64(e.x)) + le8(folded64(e.z)) + le4(folded32(e.rotation))
}

proof fn lemma_markers_upto(d: Seq<(String, MapDecorationEntry)>, n: nat)
    requires
        n <= d.len(),
    ensures
        decorations_bytes(decoration_vals(d), n) == in_turn(n, |k: int| summed_marker(d[k].0@, d[k].1), 0),
    decreases n,
{
    let f = |k: int| summed_marker(d[k].0@, d[k].1);
    if n > 0 {
        lemma_markers_upto(d, (n - 1) as nat);
        lemma_one_more((n - 1) as nat, f, 0);
        let e = d[n - 1];
        let w = decoration_val(e.0@, e.1);
        assert(decoration_vals(d)[n - 1] == w);
        lemma_le(text_hash(e.0@) as nat);
        lemma_le(text_hash(e.1.decoration_type@) as nat);
        lemma_le8(folded64(e.1.x) as nat);
        lemma_le8(folded64(e.1.z) as nat);
        lemma_le(folded32(e.1.rotation) as nat);
        assert(key_of(w) == e.0@);
        assert(as_text(first(second(w))) == e.1.decoration_type@);
        assert(as_bits(first(second(second(w)))) == e.1.x as int);
        assert(as_bits(first(second(second(second(w))))) == e.1.z as int);
        assert(as_bits(second(second(second(second(w))))) == e.1.rotation as int);
        assert(canonical_bits(8, e.1.x as int) == folded64(e.1.x));
        assert(canonical_bits(8, e.1.z as int) == folded64(e.1.z));
        assert(canonical_bits(4, e.1.rotation as int) == folded32(e.1.rotation));
        assert(decoration_bytes(w) == f(n - 1));
    }
}

} // verus!
