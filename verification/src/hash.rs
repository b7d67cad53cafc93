//! Checksums of texts, numbers and tags.
use vstd::prelude::*;
use crate::bytes::{i32_of_u32, to_signed, to_unsigned, u16_of_i16, u32_of_i32, u64_of_i64, u8_of_i8};
use crate::nbt_source::{ints32, ints64};
use crate::nbt_tag::{lemma_entry_views, lemma_tag_views, tag_views, NbtCompound, NbtTag, Tag};
use crate::same::{double_bits, float_bits, float_pattern};
use crate::text::chars_of;

verus! {

broadcast use {lemma_tag_views, lemma_entry_views};

/// A remainder after `n` more bits, the lowest first, under the polynomial 0x1edc6f41.
pub open spec fn crc_bits(c: u32, n: nat) -> u32
    decreases n,
{
    if n == 0 {
        c
    } else if c % 2 == 1 {
        crc_bits((c >> 1) ^ 0x82f6_3b78, (n - 1) as nat)
    } else {
        crc_bits(c >> 1, (n - 1) as nat)
    }
}

/// The remainder of some bytes, from all ones on.
pub open spec fn crc_rest(bytes: Seq<u8>) -> u32
    decreases bytes.len(),
{
    if bytes.len() == 0 {
        0xffff_ffff
    } else {
        crc_bits(crc_rest(bytes.drop_last()) ^ (bytes.last() as u32), 8)
    }
}

/// The CRC-32C checksum of some bytes: their remainder with its bits turned over.
#[verifier::opaque]
pub open spec fn crc32c_of(bytes: Seq<u8>) -> u32 {
    crc_rest(bytes) ^ 0xffff_ffff
}

/// Calls `crc_fast::checksum` with `Crc32Iscsi`, which gives the CRC-32C checksum of the bytes.
#[verifier::external_body]
pub(crate) fn crc32c(bytes: &[u8]) -> (r: u32)
    ensures
        r == crc32c_of(bytes@),
{
    crc_fast::checksum(crc_fast::CrcAlgorithm::Crc32Iscsi, bytes) as u32
}

/// The checksum of some bytes, as a signed number.
pub open spec fn digest_of(bytes: Seq<u8>) -> int {
    to_signed(crc32c_of(bytes) as nat, 4)
}

/// The checksum of some bytes, as a signed number.
pub fn digest(bytes: &[u8]) -> (r: i32)
    ensures
        r == digest_of(bytes@),
{
    i32_of_u32(crc32c(bytes))
}

/// The low `n` bytes of a number, the lowest first.
pub open spec fn le_bytes(v: nat, n: nat) -> Seq<u8>
    decreases n,
{
    if n == 0 {
        Seq::empty()
    } else {
        seq![(v % 256) as u8] + le_bytes(v / 256, (n - 1) as nat)
    }
}

/// Appends the low `n` bytes of a number, the lowest first.
pub fn put_le(out: &mut Vec<u8>, v: u64, n: usize)
    ensures
        final(out)@ == old(out)@ + le_bytes(v as nat, n as nat),
{
    let ghost all = out@ + le_bytes(v as nat, n as nat);
    let mut left: u64 = v;
    let mut i: usize = 0;
    while i < n
        invariant
            i <= n,
            all == out@ + le_bytes(left as nat, (n - i) as nat),
        decreases n - i,
    {
        let ghost before = out@;
        let b: u8 = (left % 256) as u8;
        out.push(b);
        assert(before + le_bytes(left as nat, (n - i) as nat) =~= out@ + le_bytes((left / 256) as nat, (n - i - 1) as nat));
        left = left / 256;
        i += 1;
    }
    assert(all =~= out@);
}

/// The number of a character.
pub open spec fn code_of(c: char) -> nat {
    c as nat
}

/// The UTF-16 units of a character, each as two bytes.
pub open spec fn units(c: char) -> Seq<u8> {
    let v = code_of(c);
    if v < 0x1_0000 {
        le_bytes(v, 2)
    } else {
        le_bytes((0xd800 + (v - 0x1_0000) / 0x400) as nat, 2) + le_bytes((0xdc00 + (v - 0x1_0000) % 0x400) as nat, 2)
    }
}

/// The UTF-16 units of the first `n` characters.
pub open spec fn utf16(t: Seq<char>, n: nat) -> Seq<u8>
    decreases n,
{
    if n == 0 || n > t.len() {
        Seq::empty()
    } else {
        utf16(t, (n - 1) as nat) + units(t[n - 1])
    }
}

/// What the checksum of a text is taken of: a mark, the number of UTF-16 units, and these.
pub open spec fn text_bytes(t: Seq<char>) -> Seq<u8> {
    seq![12u8] + le_bytes(utf16(t, t.len()).len() / 2, 4) + utf16(t, t.len())
}

/// The checksum of a text.
pub open spec fn text_hash(t: Seq<char>) -> u32 {
    crc32c_of(text_bytes(t))
}

/// What the checksum of a number is taken of.
pub open spec fn int_bytes(v: int) -> Seq<u8> {
    seq![8u8] + le_bytes(to_unsigned(v, 4), 4)
}

/// The checksum of a number.
pub open spec fn int_hash(v: int) -> u32 {
    crc32c_of(int_bytes(v))
}

/// Appends the UTF-16 units of a character.
fn put_units(out: &mut Vec<u8>, c: char)
    ensures
        final(out)@ == old(out)@ + units(c),
{
    let v: u32 = c as u32;
    if v < 0x1_0000 {
        put_le(out, v as u64, 2);
    } else {
        let ghost before = out@;
        let w: u32 = v - 0x1_0000;
        put_le(out, (0xd800 + w / 0x400) as u64, 2);
        put_le(out, (0xdc00 + w % 0x400) as u64, 2);
        assert(out@ =~= before + units(c));
    }
}

proof fn lemma_le_len(v: nat, n: nat)
    ensures
        le_bytes(v, n).len() == n,
    decreases n,
{
    if n > 0 {
        lemma_le_len(v / 256, (n - 1) as nat);
    }
}

proof fn lemma_le_low(v: nat)
    ensures
        le_bytes(v % 0x1_0000_0000, 4) == le_bytes(v, 4),
{
    reveal_with_fuel(le_bytes, 5);
    let w = v % 0x1_0000_0000;
    assert(w % 256 == v % 256 && (w / 256) % 256 == (v / 256) % 256 && (w / 256 / 256) % 256 == (v / 256 / 256) % 256 && (w / 256
        / 256 / 256) % 256 == (v / 256 / 256 / 256) % 256) by (nonlinear_arith)
        requires
            w == v % 0x1_0000_0000,
    ;
}

/// The checksum of a text.
pub fn get_str_hash(t: &str) -> (r: u32)
    ensures
        r == text_hash(t@),
{
    let chars = chars_of(t);
    let mut tail: Vec<u8> = Vec::new();
    let mut i: usize = 0;
    while i < chars.len()
        invariant
            i <= chars@.len(),
            chars@ == t@,
            tail@ == utf16(t@, i as nat),
        decreases chars.len() - i,
    {
        put_units(&mut tail, chars[i]);
        i += 1;
    }
    let mut all: Vec<u8> = Vec::new();
    all.push(12);
    proof {
        lemma_le_low((tail@.len() / 2) as nat);
    }
    put_le(&mut all, ((tail.len() / 2) as u64) % 0x1_0000_0000, 4);
    crate::bytes::put_slice(&mut all, tail.as_slice());
    assert(all@ =~= text_bytes(t@));
    crc32c(all.as_slice())
}

/// The checksum of a number.
pub fn get_i32_hash(v: i32) -> (r: u32)
    ensures
        r == int_hash(v as int),
{
    let mut all: Vec<u8> = Vec::new();
    all.push(8);
    put_le(&mut all, u32_of_i32(v) as u64, 4);
    assert(all@ =~= int_bytes(v as int));
    crc32c(all.as_slice())
}

/// A list in the order of its numbers, with an entry put behind all that are not above it.
pub open spec fn placed_after<T>(l: Seq<(u64, T)>, e: (u64, T)) -> Seq<(u64, T)>
    decreases l.len(),
{
    if l.len() == 0 {
        seq![e]
    } else if l.last().0 <= e.0 {
        l.push(e)
    } else {
        placed_after(l.drop_last(), e).push(l.last())
    }
}

/// Puts an entry into a list that is in the order of its numbers.
pub fn place_after<T>(v: &mut Vec<(u64, T)>, e: (u64, T))
    ensures
        final(v)@ == placed_after(old(v)@, e),
{
    let ghost l = v@;
    let mut j: usize = v.len();
    assert(l.take(l.len() as int) =~= l);
    assert(placed_after(l, e) + l.skip(l.len() as int) =~= placed_after(l, e));
    while j > 0 && v[j - 1].0 > e.0
        invariant
            j <= v@.len(),
            v@ == l,
            placed_after(l, e) == placed_after(l.take(j as int), e) + l.skip(j as int),
        decreases j,
    {
        let ghost head = l.take(j as int);
        assert(head.last() == l[j - 1]);
        assert(head.drop_last() =~= l.take(j - 1));
        assert(placed_after(l.take(j - 1), e).push(l[j - 1]) + l.skip(j as int) =~= placed_after(l.take(j - 1), e) + l.skip(j - 1));
        j -= 1;
    }
    proof {
        let head = l.take(j as int);
        if j > 0 {
            assert(head.last() == l[j - 1]);
            assert(placed_after(head, e) == head.push(e));
        } else {
            assert(placed_after(head, e) == seq![e]);
        }
        assert(placed_after(head, e) + l.skip(j as int) =~= l.insert(j as int, e));
    }
    v.insert(j, e);
}

/// The checksums of the tags of a list, one behind the other.
pub open spec fn list_bytes(l: Seq<Tag>, n: nat) -> Seq<u8>
    decreases l, n,
{
    if n == 0 || n > l.len() {
        Seq::empty()
    } else {
        list_bytes(l, (n - 1) as nat) + le_bytes(tag_hash(l[n - 1]) as nat, 4)
    }
}

/// The checksums of an entry of a compound and the number by which it is ordered.
pub open spec fn entry_key(key: u32, value: u32) -> (u64, (u32, u32)) {
    ((key * 0x1_0000_0000 + value) as u64, (key, value))
}

/// The checksums of the first `n` entries of a compound, in ascending order.
pub open spec fn entry_hashes(c: Seq<(Seq<char>, Tag)>, n: nat) -> Seq<(u64, (u32, u32))>
    decreases c, n,
{
    if n == 0 || n > c.len() {
        Seq::empty()
    } else {
        placed_after(entry_hashes(c, (n - 1) as nat), entry_key(text_hash(c[n - 1].0), tag_hash(c[n - 1].1)))
    }
}

/// The checksums of entries, one behind the other.
pub open spec fn entry_bytes(l: Seq<(u64, (u32, u32))>, n: nat) -> Seq<u8>
    decreases n,
{
    if n == 0 || n > l.len() {
        Seq::empty()
    } else {
        entry_bytes(l, (n - 1) as nat) + le_bytes(l[n - 1].1.0 as nat, 4) + le_bytes(l[n - 1].1.1 as nat, 4)
    }
}

/// The numbers of an array of `width` bytes each, one behind the other.
pub open spec fn array_bytes(l: Seq<int>, width: nat, n: nat) -> Seq<u8>
    decreases n,
{
    if n == 0 || n > l.len() {
        Seq::empty()
    } else {
        array_bytes(l, width, (n - 1) as nat) + le_bytes(to_unsigned(l[n - 1], width), width)
    }
}

/// The numbers of a byte array.
pub open spec fn ints8(v: Seq<i8>) -> Seq<int> {
    Seq::new(v.len(), |i: int| v[i] as int)
}

/// The checksum of a compound, whatever the order of its entries.
pub open spec fn compound_hash(c: Seq<(Seq<char>, Tag)>) -> u32
    decreases c, c.len() + 1,
{
    crc32c_of(seq![2u8] + entry_bytes(entry_hashes(c, c.len()), c.len()) + seq![3u8])
}

/// The checksum of a tag.
pub open spec fn tag_hash(t: Tag) -> u32
    decreases t, 0nat,
{
    match t {
        Tag::End => crc32c_of(seq![1u8]),
        Tag::Byte(v) => crc32c_of(seq![6u8] + le_bytes(to_unsigned(v, 1), 1)),
        Tag::Short(v) => crc32c_of(seq![7u8] + le_bytes(to_unsigned(v, 2), 2)),
        Tag::Int(v) => crc32c_of(seq![8u8] + le_bytes(to_unsigned(v, 4), 4)),
        Tag::Long(v) => crc32c_of(seq![9u8] + le_bytes(to_unsigned(v, 8), 8)),
        Tag::Float(v) => crc32c_of(seq![10u8] + le_bytes(float_pattern(4, v) as nat, 4)),
        Tag::Double(v) => crc32c_of(seq![11u8] + le_bytes(float_pattern(8, v) as nat, 8)),
        Tag::String(v) => text_hash(v),
        Tag::List(l) => crc32c_of(seq![4u8] + list_bytes(l, l.len()) + seq![5u8]),
        Tag::Compound(c) => compound_hash(c),
        Tag::ByteArray(v) => crc32c_of(seq![14u8] + array_bytes(ints8(v), 1, v.len()) + seq![15u8]),
        Tag::IntArray(v) => crc32c_of(seq![16u8] + array_bytes(v, 4, v.len()) + seq![17u8]),
        Tag::LongArray(v) => crc32c_of(seq![18u8] + array_bytes(v, 8, v.len()) + seq![19u8]),
    }
}

/// The checksum of a mark and a number of `n` bytes.
fn number_hash(mark: u8, v: u64, n: usize) -> (r: u32)
    ensures
        r == crc32c_of(seq![mark] + le_bytes(v as nat, n as nat)),
{
    let mut all: Vec<u8> = Vec::new();
    all.push(mark);
    put_le(&mut all, v, n);
    assert(all@ =~= seq![mark] + le_bytes(v as nat, n as nat));
    crc32c(all.as_slice())
}

/// The checksum of a tag.
pub fn custom_data_hash(tag: &NbtTag) -> (r: u32)
    ensures
        r == tag_hash(tag@),
    decreases *tag, 0nat,
{
    match tag {
        NbtTag::End => {
            let all: Vec<u8> = vec![1];
            assert(all@ =~= seq![1u8]);
            crc32c(all.as_slice())
        },
        NbtTag::Byte(v) => number_hash(6, u8_of_i8(*v) as u64, 1),
        NbtTag::Short(v) => number_hash(7, u16_of_i16(*v) as u64, 2),
        NbtTag::Int(v) => number_hash(8, u32_of_i32(*v) as u64, 4),
        NbtTag::Long(v) => number_hash(9, u64_of_i64(*v), 8),
        NbtTag::Float(v) => number_hash(10, float_bits(*v) as u64, 4),
        NbtTag::Double(v) => number_hash(11, double_bits(*v), 8),
        NbtTag::String(v) => get_str_hash(v.as_str()),
        NbtTag::List(l) => list_hash(l),
        NbtTag::Compound(c) => custom_data_hash_compound(c),
        NbtTag::ByteArray(v) => {
            let mut all: Vec<u8> = Vec::new();
            all.push(14);
            assert(all@ =~= seq![14u8] + array_bytes(ints8(v@), 1, 0));
            let mut i: usize = 0;
            while i < v.len()
                invariant
                    i <= v.len(),
                    all@ == seq![14u8] + array_bytes(ints8(v@), 1, i as nat),
                decreases v.len() - i,
            {
                put_le(&mut all, u8_of_i8(v[i]) as u64, 1);
                assert(all@ =~= seq![14u8] + array_bytes(ints8(v@), 1, (i + 1) as nat));
                i += 1;
            }
            all.push(15);
            assert(all@ =~= seq![14u8] + array_bytes(ints8(v@), 1, v@.len()) + seq![15u8]);
            crc32c(all.as_slice())
        },
        NbtTag::IntArray(v) => {
            let mut all: Vec<u8> = Vec::new();
            all.push(16);
            assert(all@ =~= seq![16u8] + array_bytes(ints32(v@), 4, 0));
            let mut i: usize = 0;
            while i < v.len()
                invariant
                    i <= v.len(),
                    all@ == seq![16u8] + array_bytes(ints32(v@), 4, i as nat),
                decreases v.len() - i,
            {
                put_le(&mut all, u32_of_i32(v[i]) as u64, 4);
                assert(all@ =~= seq![16u8] + array_bytes(ints32(v@), 4, (i + 1) as nat));
                i += 1;
            }
            all.push(17);
            assert(all@ =~= seq![16u8] + array_bytes(ints32(v@), 4, v@.len()) + seq![17u8]);
            crc32c(all.as_slice())
        },
        NbtTag::LongArray(v) => {
            let mut all: Vec<u8> = Vec::new();
            all.push(18);
            assert(all@ =~= seq![18u8] + array_bytes(ints64(v@), 8, 0));
            let mut i: usize = 0;
            while i < v.len()
                invariant
                    i <= v.len(),
                    all@ == seq![18u8] + array_bytes(ints64(v@), 8, i as nat),
                decreases v.len() - i,
            {
                put_le(&mut all, u64_of_i64(v[i]), 8);
                assert(all@ =~= seq![18u8] + array_bytes(ints64(v@), 8, (i + 1) as nat));
                i += 1;
            }
            all.push(19);
            assert(all@ =~= seq![18u8] + array_bytes(ints64(v@), 8, v@.len()) + seq![19u8]);
            crc32c(all.as_slice())
        },
    }
}

/// The checksum of a list of tags.
fn list_hash(l: &Vec<NbtTag>) -> (r: u32)
    ensures
        r == crc32c_of(seq![4u8] + list_bytes(tag_views(l@, l@.len()), l@.len()) + seq![5u8]),
    decreases *l, 1nat,
{
    let ghost tags = tag_views(l@, l@.len());
    let mut all: Vec<u8> = Vec::new();
    all.push(4);
    assert(all@ =~= seq![4u8] + list_bytes(tags, 0));
    let mut i: usize = 0;
    while i < l.len()
        invariant
            i <= l.len(),
            tags == tag_views(l@, l@.len()),
            all@ == seq![4u8] + list_bytes(tags, i as nat),
        decreases l.len() - i,
    {
        assert(tags[i as int] == l@[i as int]@);
        assert(decreases_to!(*l => l@[i as int]));
        put_le(&mut all, custom_data_hash(&l[i]) as u64, 4);
        assert(all@ =~= seq![4u8] + list_bytes(tags, (i + 1) as nat));
        i += 1;
    }
    all.push(5);
    assert(all@ =~= seq![4u8] + list_bytes(tags, tags.len()) + seq![5u8]);
    crc32c(all.as_slice())
}

proof fn lemma_hashes_len(c: Seq<(Seq<char>, Tag)>, n: nat)
    requires
        n <= c.len(),
    ensures
        entry_hashes(c, n).len() == n,
    decreases n,
{
    if n > 0 {
        lemma_hashes_len(c, (n - 1) as nat);
        lemma_placed_len(entry_hashes(c, (n - 1) as nat), entry_key(text_hash(c[n - 1].0), tag_hash(c[n - 1].1)));
    }
}

/// Placing an element makes a list one longer.
pub proof fn lemma_placed_len<T>(l: Seq<(u64, T)>, e: (u64, T))
    ensures
        placed_after(l, e).len() == l.len() + 1,
    decreases l.len(),
{
    if l.len() > 0 && l.last().0 > e.0 {
        lemma_placed_len(l.drop_last(), e);
    }
}

/// The checksum of a compound.
pub fn custom_data_hash_compound(compound: &NbtCompound) -> (r: u32)
    ensures
        r == compound_hash(compound@),
    decreases *compound, 1nat,
{
    let ghost c = compound@;
    let mut entries: Vec<(u64, (u32, u32))> = Vec::new();
    assert(entries@ =~= entry_hashes(c, 0));
    let mut i: usize = 0;
    while i < compound.child_tags.len()
        invariant
            i <= compound.child_tags.len(),
            c == compound@,
            c.len() == compound.child_tags@.len(),
            entries@ == entry_hashes(c, i as nat),
        decreases compound.child_tags.len() - i,
    {
        assert(c[i as int] == (compound.child_tags@[i as int].0@, compound.child_tags@[i as int].1@));
        assert(decreases_to!(*compound => compound.child_tags@[i as int].1));
        let key: u32 = get_str_hash(compound.child_tags[i].0.as_str());
        let value: u32 = custom_data_hash(&compound.child_tags[i].1);
        assert(key * 0x1_0000_0000 + value <= u64::MAX);
        place_after(&mut entries, ((key as u64) * 0x1_0000_0000 + (value as u64), (key, value)));
        i += 1;
    }
    proof {
        lemma_hashes_len(c, c.len());
    }
    let mut all: Vec<u8> = Vec::new();
    all.push(2);
    assert(all@ =~= seq![2u8] + entry_bytes(entries@, 0));
    let mut k: usize = 0;
    while k < entries.len()
        invariant
            k <= entries.len(),
            all@ == seq![2u8] + entry_bytes(entries@, k as nat),
        decreases entries.len() - k,
    {
        put_le(&mut all, entries[k].1.0 as u64, 4);
        put_le(&mut all, entries[k].1.1 as u64, 4);
        assert(all@ =~= seq![2u8] + entry_bytes(entries@, (k + 1) as nat));
        k += 1;
    }
    all.push(3);
    assert(all@ =~= seq![2u8] + entry_bytes(entries@, entries@.len()) + seq![3u8]);
    crc32c(all.as_slice())
}

} // verus!
