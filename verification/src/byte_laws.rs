//! Which bytes numbers, texts and tags are made of.
use vstd::prelude::*;
use vstd::utf8::encode_utf8;
use crate::bytes::{be_bytes, be_signed, from_be, lemma_pow256, to_signed};
use crate::nbt_codec::{array_bytes, entries_bytes, items_bytes, java_bytes, payload_bytes, tag_bytes};
use crate::nbt_read::{java_i32_array, java_i64_array, java_signed, java_string, java_unsigned, little_signed, little_unsigned};
use crate::nbt_source::{java_text, source_groups, source_var_i32, source_var_i64, zigzag};
use crate::nbt_tag::Tag;
use crate::errors::{NbtError, ReadFault};
use crate::sent::in_turn;
use crate::wire::{groups, read_bool, read_groups, read_text, read_unsigned, read_var_int, text, var_int};

verus! {

/// A byte of a number: the one that counts `unit`s.
pub open spec fn digit(v: int, unit: int) -> u8 {
    ((v / unit) % 256) as u8
}

/// Numbers of fixed width are sent with the most significant byte first.
pub proof fn lemma_digits(v: nat)
    ensures
        be_bytes(v, 1) =~= seq![digit(v as int, 1)],
        be_bytes(v, 2) =~= seq![digit(v as int, 0x100), digit(v as int, 1)],
        be_bytes(v, 4) =~= seq![digit(v as int, 0x100_0000), digit(v as int, 0x1_0000), digit(v as int, 0x100), digit(v as int, 1)],
{
    reveal_with_fuel(be_bytes, 5);
    let v = v as int;
    assert(v / 256 / 256 == v / 0x1_0000) by (nonlinear_arith);
    assert(v / 0x1_0000 / 256 == v / 0x100_0000) by (nonlinear_arith);
}

/// Numbers of eight bytes are sent as two of four bytes, the more significant one first.
pub proof fn lemma_long_digits(v: nat)
    ensures
        be_bytes(v, 8) =~= be_bytes(v / 0x1_0000_0000, 4) + be_bytes(v, 4),
{
    reveal_with_fuel(be_bytes, 9);
    let v = v as int;
    assert(v / 256 / 256 == v / 0x1_0000) by (nonlinear_arith);
    assert(v / 0x1_0000 / 256 == v / 0x100_0000) by (nonlinear_arith);
    assert(v / 0x100_0000 / 256 == v / 0x1_0000_0000) by (nonlinear_arith);
}

/// Negative numbers are sent as their two's complement.
pub proof fn lemma_complement(v: int)
    ensures
        v >= 0 ==> be_signed(v, 1) == be_bytes(v as nat, 1) && be_signed(v, 2) == be_bytes(v as nat, 2) && be_signed(v, 4) == be_bytes(v as nat, 4)
            && be_signed(v, 8) == be_bytes(v as nat, 8),
        -0x80 <= v < 0 ==> be_signed(v, 1) == be_bytes((v + 0x100) as nat, 1),
        -0x8000 <= v < 0 ==> be_signed(v, 2) == be_bytes((v + 0x1_0000) as nat, 2),
        -0x8000_0000 <= v < 0 ==> be_signed(v, 4) == be_bytes((v + 0x1_0000_0000) as nat, 4),
        -0x8000_0000_0000_0000 <= v < 0 ==> be_signed(v, 8) == be_bytes((v + 0x1_0000_0000_0000_0000) as nat, 8),
{
    lemma_pow256();
}

/// Bytes stand for the number that they spell, the most significant first.
pub proof fn lemma_bytes_spell(a: u8, b: u8, c: u8, d: u8)
    ensures
        from_be(seq![a]) == a,
        from_be(seq![a, b]) == 0x100 * a + b,
        from_be(seq![a, b, c, d]) == 0x100_0000 * a + 0x1_0000 * b + 0x100 * c + d,
{
    reveal_with_fuel(from_be, 5);
    assert(seq![a].drop_last() =~= Seq::<u8>::empty());
    assert(seq![a, b].drop_last() =~= seq![a]);
    assert(seq![a, b, c].drop_last() =~= seq![a, b]);
    assert(seq![a, b, c, d].drop_last() =~= seq![a, b, c]);
}

/// The number, without its sign, that is sent for a number of variable length.
pub open spec fn without_sign(v: int) -> int {
    if v < 0 {
        v + 0x1_0000_0000
    } else {
        v
    }
}

/// A group of seven bits, behind which another one follows.
pub open spec fn more(v: int, unit: int) -> u8 {
    (128 + (v / unit) % 128) as u8
}

/// A number of variable length is sent in groups of seven bits, the least significant first; the top bit of
/// each but the last is set, and there are no more than it takes.
pub proof fn lemma_var_int_groups(v: int)
    requires
        i32::MIN <= v <= i32::MAX,
    ensures
        ({
            let u = without_sign(v);
            var_int(v) =~= if u < 0x80 {
                seq![u as u8]
            } else if u < 0x4000 {
                seq![more(u, 1), (u / 0x80) as u8]
            } else if u < 0x20_0000 {
                seq![more(u, 1), more(u, 0x80), (u / 0x4000) as u8]
            } else if u < 0x1000_0000 {
                seq![more(u, 1), more(u, 0x80), more(u, 0x4000), (u / 0x20_0000) as u8]
            } else {
                seq![more(u, 1), more(u, 0x80), more(u, 0x4000), more(u, 0x20_0000), (u / 0x1000_0000) as u8]
            }
        }),
{
    lemma_pow256();
    let u = without_sign(v);
    reveal_with_fuel(groups, 6);
    assert(u / 128 / 128 == u / 0x4000) by (nonlinear_arith)
        requires
            u >= 0,
    ;
    assert(u / 0x4000 / 128 == u / 0x20_0000) by (nonlinear_arith)
        requires
            u >= 0,
    ;
    assert(u / 0x20_0000 / 128 == u / 0x1000_0000) by (nonlinear_arith)
        requires
            u >= 0,
    ;
}

/// What a group of seven bits counts, without its top bit.
pub open spec fn seven(b: u8) -> int {
    b as int % 128
}

/// The number with these low 32 bits.
pub open spec fn with_sign(u: int) -> int {
    if u % 0x1_0000_0000 < 0x8000_0000 {
        u % 0x1_0000_0000
    } else {
        u % 0x1_0000_0000 - 0x1_0000_0000
    }
}

proof fn lemma_group(s: Seq<u8>, left: nat)
    requires
        left > 0,
        s.len() > 0,
    ensures
        s[0] < 128 ==> read_groups(s, left).value == Ok::<nat, ReadFault>(s[0] as nat) && read_groups(s, left).rest == s.skip(1),
        s[0] >= 128 ==> read_groups(s, left).rest == read_groups(s.skip(1), (left - 1) as nat).rest && (read_groups(
            s.skip(1),
            (left - 1) as nat,
        ).value matches Ok(w) ==> read_groups(s, left).value == Ok::<nat, ReadFault>((seven(s[0]) + 128 * w) as nat)),
{
}

/// What the first `n` groups spell, the least significant first.
pub open spec fn spelled(s: Seq<u8>, n: nat) -> int
    decreases n,
{
    if n == 0 || s.len() == 0 {
        0
    } else {
        seven(s[0]) + 0x80 * spelled(s.skip(1), (n - 1) as nat)
    }
}

proof fn lemma_groups_are_read(s: Seq<u8>, left: nat, n: nat)
    requires
        0 < n <= left,
        n <= s.len(),
        forall|i: int| 0 <= i < n - 1 ==> #[trigger] s[i] >= 128,
        s[n - 1] < 128,
    ensures
        read_groups(s, left).value == Ok::<nat, ReadFault>(spelled(s, n) as nat),
        read_groups(s, left).rest == s.skip(n as int),
        spelled(s, n) >= 0,
    decreases n,
{
    lemma_group(s, left);
    if n > 1 {
        let t = s.skip(1);
        assert forall|i: int| 0 <= i < n - 2 implies #[trigger] t[i] >= 128 by {
            assert(t[i] == s[i + 1]);
        }
        lemma_groups_are_read(t, (left - 1) as nat, (n - 1) as nat);
        assert(t.skip(n - 1) =~= s.skip(n as int));
    } else {
        reveal_with_fuel(spelled, 2);
    }
}

proof fn lemma_no_end(s: Seq<u8>, left: nat)
    requires
        forall|i: int| 0 <= i < s.len() && i < left ==> #[trigger] s[i] >= 128,
    ensures
        read_groups(s, left).value is Err,
    decreases left,
{
    if left > 0 && s.len() > 0 {
        assert(s[0] >= 128);
        let t = s.skip(1);
        assert forall|i: int| 0 <= i < t.len() && i < left - 1 implies #[trigger] t[i] >= 128 by {
            assert(t[i] == s[i + 1]);
        }
        lemma_no_end(t, (left - 1) as nat);
    }
}

/// A number of variable length is read up to its first group without the top bit, which is one of the first
/// five; its groups are the least significant first.
pub proof fn lemma_var_int_is_read(s: Seq<u8>, n: nat)
    requires
        0 < n <= 5,
        n <= s.len(),
        forall|i: int| 0 <= i < n - 1 ==> #[trigger] s[i] >= 128,
        s[n - 1] < 128,
    ensures
        read_var_int(s).value == Ok::<int, ReadFault>(with_sign(spelled(s, n))),
        read_var_int(s).rest == s.skip(n as int),
{
    lemma_pow256();
    lemma_groups_are_read(s, 5, n);
}

/// A number of variable length without an end among its first five groups is refused.
pub proof fn lemma_endless_number(s: Seq<u8>)
    requires
        forall|i: int| 0 <= i < s.len() && i < 5 ==> #[trigger] s[i] >= 128,
    ensures
        read_var_int(s).value is Err,
{
    lemma_no_end(s, 5);
}

/// A text is sent as the number of its bytes and its bytes in UTF-8; one that says to be longer than it may
/// is refused.
pub proof fn lemma_text_layout(t: Seq<char>, bound: nat, r: Seq<u8>)
    requires
        encode_utf8(t).len() <= i32::MAX,
    ensures
        text(t) == var_int(encode_utf8(t).len() as int) + encode_utf8(t),
        encode_utf8(t).len() > bound ==> read_text(text(t) + r, bound).value is Err,
{
    let b = encode_utf8(t);
    assert(text(t) + r =~= var_int(b.len() as int) + (b + r));
    crate::wire::lemma_read_var_int(b.len() as int, b + r);
}

/// A flag is read from one byte, and set by any but zero.
pub proof fn lemma_flag_is_read(s: Seq<u8>)
    requires
        s.len() > 0,
    ensures
        read_bool(s).value == Ok::<bool, ReadFault>(s[0] != 0),
        read_bool(s).rest == s.skip(1),
        read_unsigned(s, 1).value == Ok::<nat, ReadFault>(s[0] as nat),
{
    reveal_with_fuel(from_be, 2);
    assert(s.take(1).drop_last() =~= Seq::<u8>::empty());
}

/// The type number and the payload of each tag.
pub proof fn lemma_tag_layout(t: Tag)
    ensures
        match t {
            Tag::End => tag_bytes(t) =~= seq![0u8],
            Tag::Byte(v) => tag_bytes(t) =~= seq![1u8] + be_signed(v, 1),
            Tag::Short(v) => tag_bytes(t) =~= seq![2u8] + be_signed(v, 2),
            Tag::Int(v) => tag_bytes(t) =~= seq![3u8] + be_signed(v, 4),
            Tag::Long(v) => tag_bytes(t) =~= seq![4u8] + be_signed(v, 8),
            Tag::Float(v) => tag_bytes(t) =~= seq![5u8] + be_bytes(v as nat, 4),
            Tag::Double(v) => tag_bytes(t) =~= seq![6u8] + be_bytes(v as nat, 8),
            Tag::ByteArray(v) => tag_bytes(t) =~= seq![7u8] + be_bytes(v.len(), 4) + Seq::new(
                v.len(),
                |i: int| if v[i] < 0 { (v[i] + 256) as u8 } else { v[i] as u8 },
            ),
            Tag::String(v) => tag_bytes(t) =~= seq![8u8] + be_bytes(java_bytes(v).len(), 2) + java_bytes(v),
            Tag::List(v) => tag_bytes(t) =~= seq![9u8] + seq![if v.len() == 0 { 0u8 } else { tag_bytes(v[0])[0] }] + be_bytes(v.len(), 4) + in_turn(
                v.len(),
                |k: int| payload_bytes(v[k]),
                0,
            ),
            Tag::Compound(v) => tag_bytes(t) =~= seq![10u8] + in_turn(
                v.len(),
                |k: int| seq![tag_bytes(v[k].1)[0]] + be_bytes(java_bytes(v[k].0).len(), 2) + java_bytes(v[k].0) + payload_bytes(v[k].1),
                0,
            ) + seq![0u8],
            Tag::IntArray(v) => tag_bytes(t) =~= seq![11u8] + be_bytes(v.len(), 4) + in_turn(v.len(), |k: int| be_signed(v[k], 4), 0),
            Tag::LongArray(v) => tag_bytes(t) =~= seq![12u8] + be_bytes(v.len(), 4) + in_turn(v.len(), |k: int| be_signed(v[k], 8), 0),
        },
        tag_bytes(t).skip(1) =~= payload_bytes(t),
{
    lemma_pow256();
    lemma_type_byte(t);
    match t {
        Tag::List(v) => {
            lemma_items_in_turn(v, 0);
            if v.len() > 0 {
                lemma_type_byte(v[0]);
            } else {
                lemma_digits(0);
            }
        },
        Tag::Compound(v) => {
            lemma_entries_in_turn(v, 0);
        },
        Tag::IntArray(v) => {
            lemma_array_in_turn(v, 4, 0);
        },
        Tag::LongArray(v) => {
            lemma_array_in_turn(v, 8, 0);
        },
        _ => {},
    }
}

/// The number of the type of a tag.
pub open spec fn type_number(t: Tag) -> u8 {
    match t {
        Tag::End => 0,
        Tag::Byte(_) => 1,
        Tag::Short(_) => 2,
        Tag::Int(_) => 3,
        Tag::Long(_) => 4,
        Tag::Float(_) => 5,
        Tag::Double(_) => 6,
        Tag::ByteArray(_) => 7,
        Tag::String(_) => 8,
        Tag::List(_) => 9,
        Tag::Compound(_) => 10,
        Tag::IntArray(_) => 11,
        Tag::LongArray(_) => 12,
    }
}

proof fn lemma_type_byte(t: Tag)
    ensures
        tag_bytes(t) =~= seq![type_number(t)] + payload_bytes(t),
        tag_bytes(t).len() > 0,
        tag_bytes(t)[0] == type_number(t),
        be_bytes(type_number(t) as nat, 1) =~= seq![type_number(t)],
        be_bytes(crate::nbt_codec::tag_id(t) as nat, 1) == seq![type_number(t)],
{
    lemma_digits(type_number(t) as nat);
    assert(crate::nbt_codec::tag_id(t) == type_number(t));
}

proof fn lemma_items_in_turn(v: Seq<Tag>, i: nat)
    ensures
        items_bytes(v, i as int) =~= in_turn(v.len(), |k: int| payload_bytes(v[k]), i),
    decreases v.len() - i,
{
    if i < v.len() {
        lemma_items_in_turn(v, i + 1);
    }
}

proof fn lemma_array_in_turn(v: Seq<int>, w: nat, i: nat)
    ensures
        array_bytes(v, w, i as int) =~= in_turn(v.len(), |k: int| be_signed(v[k], w), i),
    decreases v.len() - i,
{
    if i < v.len() {
        lemma_array_in_turn(v, w, i + 1);
    }
}

proof fn lemma_entries_in_turn(v: Seq<(Seq<char>, Tag)>, i: nat)
    ensures
        entries_bytes(v, i as int) =~= in_turn(
            v.len(),
            |k: int| seq![tag_bytes(v[k].1)[0]] + be_bytes(java_bytes(v[k].0).len(), 2) + java_bytes(v[k].0) + payload_bytes(v[k].1),
            i,
        ) + seq![0u8],
    decreases v.len() - i,
{
    if i < v.len() {
        lemma_entries_in_turn(v, i + 1);
        lemma_type_byte(v[i as int].1);
    } else {
        lemma_type_byte(Tag::End);
        assert(be_bytes(0, 1) == seq![0u8]);
    }
}

/// Odd numbers stand for negative ones, even ones for the others: 0, -1, 1, -2, 2 and so on.
pub proof fn lemma_zigzag(n: nat)
    ensures
        zigzag(2 * n) == n,
        zigzag(2 * n + 1) == -1 - n,
{
}

/// Numbers with the least significant byte first are those with their bytes the other way round.
pub proof fn lemma_little_digits(s: Seq<u8>)
    ensures
        s.len() >= 2 ==> little_unsigned(s, 2).value == Ok::<nat, NbtError>((0x100 * s[1] + s[0]) as nat) && little_unsigned(s, 2).rest == s.skip(2),
        s.len() >= 4 ==> little_unsigned(s, 4).value == Ok::<nat, NbtError>(
            (0x100_0000 * s[3] + 0x1_0000 * s[2] + 0x100 * s[1] + s[0]) as nat,
        ) && little_unsigned(s, 4).rest == s.skip(4),
        s.len() >= 2 ==> java_unsigned(s, 2).value == Ok::<nat, NbtError>((0x100 * s[0] + s[1]) as nat) && java_unsigned(s, 2).rest == s.skip(2),
        s.len() >= 4 ==> java_unsigned(s, 4).value == Ok::<nat, NbtError>(
            (0x100_0000 * s[0] + 0x1_0000 * s[1] + 0x100 * s[2] + s[3]) as nat,
        ) && java_unsigned(s, 4).rest == s.skip(4),
{
    if s.len() >= 2 {
        assert(s.take(2).reverse() =~= seq![s[1], s[0]]);
        assert(s.take(2) =~= seq![s[0], s[1]]);
        lemma_bytes_spell(s[1], s[0], 0, 0);
        lemma_bytes_spell(s[0], s[1], 0, 0);
    }
    if s.len() >= 4 {
        assert(s.take(4).reverse() =~= seq![s[3], s[2], s[1], s[0]]);
        assert(s.take(4) =~= seq![s[0], s[1], s[2], s[3]]);
        lemma_bytes_spell(s[3], s[2], s[1], s[0]);
        lemma_bytes_spell(s[0], s[1], s[2], s[3]);
    }
}

proof fn lemma_source_group(s: Seq<u8>, left: nat, over: NbtError)
    requires
        left > 0,
        s.len() > 0,
    ensures
        s[0] < 128 ==> source_groups(s, left, over).value == Ok::<nat, NbtError>(s[0] as nat) && source_groups(s, left, over).rest == s.skip(1),
        s[0] >= 128 ==> source_groups(s, left, over).rest == source_groups(s.skip(1), (left - 1) as nat, over).rest && (source_groups(
            s.skip(1),
            (left - 1) as nat,
            over,
        ).value matches Ok(w) ==> source_groups(s, left, over).value == Ok::<nat, NbtError>((seven(s[0]) + 128 * w) as nat)),
{
}

proof fn lemma_source_groups(s: Seq<u8>, left: nat, over: NbtError, n: nat)
    requires
        0 < n <= left,
        n <= s.len(),
        forall|i: int| 0 <= i < n - 1 ==> #[trigger] s[i] >= 128,
        s[n - 1] < 128,
    ensures
        source_groups(s, left, over).value == Ok::<nat, NbtError>(spelled(s, n) as nat),
        source_groups(s, left, over).rest == s.skip(n as int),
        spelled(s, n) >= 0,
    decreases n,
{
    lemma_source_group(s, left, over);
    if n > 1 {
        let t = s.skip(1);
        assert forall|i: int| 0 <= i < n - 2 implies #[trigger] t[i] >= 128 by {
            assert(t[i] == s[i + 1]);
        }
        lemma_source_groups(t, (left - 1) as nat, over, (n - 1) as nat);
        assert(t.skip(n - 1) =~= s.skip(n as int));
    } else {
        reveal_with_fuel(spelled, 2);
    }
}

/// In the other edition numbers are read in groups of seven bits, the least significant first, the odd ones
/// standing for negative numbers: up to five groups for 32 bits, and up to ten for 64.
pub proof fn lemma_zigzag_is_read(s: Seq<u8>, n: nat)
    requires
        0 < n <= s.len(),
        forall|i: int| 0 <= i < n - 1 ==> #[trigger] s[i] >= 128,
        s[n - 1] < 128,
    ensures
        n <= 5 ==> source_var_i32(s).value == Ok::<int, NbtError>(zigzag((spelled(s, n) % 0x1_0000_0000) as nat)) && source_var_i32(s).rest
            == s.skip(n as int),
        n <= 10 ==> source_var_i64(s).value == Ok::<int, NbtError>(zigzag((spelled(s, n) % 0x1_0000_0000_0000_0000) as nat)) && source_var_i64(
            s,
        ).rest == s.skip(n as int),
{
    lemma_pow256();
    if n <= 5 {
        lemma_source_groups(s, 5, NbtError::VarIntTooLarge, n);
    }
    if n <= 10 {
        lemma_source_groups(s, 10, NbtError::VarLongTooLarge, n);
    }
}

/// A string is read as its length in two bytes, the more significant first, and that many bytes.
pub proof fn lemma_string_is_read(s: Seq<u8>, n: int)
    requires
        s.len() >= 2 + n,
        n == 0x100 * s[0] + s[1],
    ensures
        match java_text(s.subrange(2, 2 + n)) {
            Some(t) => java_string(s).value == Ok::<Seq<char>, NbtError>(t) && java_string(s).rest =~= s.skip(2 + n),
            None => java_string(s).value is Err,
        },
{
    lemma_little_digits(s);
    assert(s.skip(2).take(n) =~= s.subrange(2, 2 + n));
    assert(s.skip(2).skip(n) =~= s.skip(2 + n));
}

/// Negative numbers are read from their two's complement.
pub proof fn lemma_signed_is_read(v: nat)
    ensures
        v < 0x80 ==> to_signed(v, 1) == v,
        0x80 <= v < 0x100 ==> to_signed(v, 1) == v - 0x100,
        v < 0x8000 ==> to_signed(v, 2) == v,
        0x8000 <= v < 0x1_0000 ==> to_signed(v, 2) == v - 0x1_0000,
        v < 0x8000_0000 ==> to_signed(v, 4) == v,
        0x8000_0000 <= v < 0x1_0000_0000 ==> to_signed(v, 4) == v - 0x1_0000_0000,
        v < 0x8000_0000_0000_0000 ==> to_signed(v, 8) == v,
        0x8000_0000_0000_0000 <= v < 0x1_0000_0000_0000_0000 ==> to_signed(v, 8) == v - 0x1_0000_0000_0000_0000,
{
    lemma_pow256();
}

/// Numbers of either order of bytes keep their sign.
pub proof fn lemma_signed_forms(s: Seq<u8>, n: nat)
    requires
        n <= s.len(),
    ensures
        java_signed(s, n).value == Ok::<int, NbtError>(to_signed(from_be(s.take(n as int)), n)) && java_signed(s, n).rest == s.skip(n as int),
        little_signed(s, n).value == Ok::<int, NbtError>(to_signed(from_be(s.take(n as int).reverse()), n)) && little_signed(s, n).rest == s.skip(
            n as int,
        ),
{
}

/// Arrays are read number by number, the most significant byte of each first.
pub proof fn lemma_arrays_are_read(s: Seq<u8>, n: nat, k: int)
    requires
        0 <= k < n,
        8 * n <= usize::MAX,
    ensures
        4 * n <= s.len() ==> (java_i32_array(s, n).value matches Ok(l) && l.len() == n && l[k] == to_signed(from_be(s.subrange(4 * k, 4 * k + 4)), 4))
            && java_i32_array(s, n).rest == s.skip(4 * n as int),
        8 * n <= s.len() ==> (java_i64_array(s, n).value matches Ok(l) && l.len() == n && l[k] == to_signed(from_be(s.subrange(8 * k, 8 * k + 8)), 8))
            && java_i64_array(s, n).rest == s.skip(8 * n as int),
        4 * n > s.len() ==> java_i32_array(s, n).value is Err,
        8 * n > s.len() ==> java_i64_array(s, n).value is Err,
{
    if 4 * n <= s.len() {
        let b = s.take(4 * n as int);
        assert(b.subrange(4 * k, 4 * k + 4) =~= s.subrange(4 * k, 4 * k + 4));
    }
    if 8 * n <= s.len() {
        let b = s.take(8 * n as int);
        assert(b.subrange(8 * k, 8 * k + 8) =~= s.subrange(8 * k, 8 * k + 8));
    }
}

} // verus!
