//! The Java edition's binary form of tags: what the bytes of a tag are and what reading bytes
//! gives, with the allocation estimate that reading charges.
use vstd::prelude::*;
use vstd::utf8::encode_utf8;
use crate::bytes::{be_bytes, be_signed, lemma_be_bytes_len, lemma_be_roundtrip, lemma_pow256, lemma_signed_roundtrip, pow256, put_be, put_slice, to_unsigned, u16_of_i16, u32_of_i32, u64_of_i64, u8_of_i8};
use crate::errors::{cannot_write, wmsg, NbtError, WritingError};
use crate::nbt_read::{charged, java_i32_array, java_i64_array, java_signed, java_string, java_unsigned, quota_of, used_of, words32, words64, NbtReadHelper, NbtReadHelperJava, MAX_TAG_DEPTH};
use crate::nbt_source::{ints32, ints64, java_text, signed_bytes, source_byte_array, tag_done, NbtDataSource, TagRead};
use crate::text::chars_of;
use crate::nbt_tag::{compound_put, key_index, keys_distinct, lemma_entry_views, lemma_key_index, lemma_tag_views, tags_of, NbtCompound, NbtTag, Tag};

verus! {

broadcast use {lemma_entry_views, lemma_tag_views};

pub const END_ID: u8 = 0;

pub const BYTE_ID: u8 = 1;

pub const SHORT_ID: u8 = 2;

pub const INT_ID: u8 = 3;

pub const LONG_ID: u8 = 4;

pub const FLOAT_ID: u8 = 5;

pub const DOUBLE_ID: u8 = 6;

pub const BYTE_ARRAY_ID: u8 = 7;

pub const STRING_ID: u8 = 8;

pub const LIST_ID: u8 = 9;

pub const COMPOUND_ID: u8 = 10;

pub const INT_ARRAY_ID: u8 = 11;

pub const LONG_ARRAY_ID: u8 = 12;

/// What reading a tag gives: a value or an error, the bytes that are left and what has been
/// charged.
pub struct TagParse<T> {
    pub value: Result<T, NbtError>,
    pub rest: Seq<u8>,
    pub used: nat,
}

pub open spec fn parse_fail<T>(error: NbtError, rest: Seq<u8>, used: nat) -> TagParse<T> {
    TagParse { value: Err(error), rest, used }
}

/// The number of UTF-16 units of a text.
pub open spec fn utf16_len(t: Seq<char>) -> nat
    decreases t.len(),
{
    if t.len() == 0 {
        0
    } else {
        utf16_len(t.drop_last()) + if (t.last() as u32) < 0x1_0000 {
            1nat
        } else {
            2nat
        }
    }
}

/// Charging `amount` and then reading as `r` says.
pub open spec fn charge_then(quota: Option<nat>, s: Seq<u8>, used: nat, amount: nat, r: TagRead<Tag>) -> TagParse<Tag> {
    match charged(quota, used, amount) {
        Err(e) => parse_fail(e, s, used),
        Ok(u) => TagParse { value: r.value, rest: r.rest, used: u },
    }
}

/// Reading as `r` says, the number read made a tag by `f`.
pub open spec fn as_tag<T>(r: TagRead<T>, f: spec_fn(T) -> Tag) -> TagRead<Tag> {
    match r {
        TagRead { value: Ok(v), rest } => TagRead { value: Ok(f(v)), rest },
        TagRead { value: Err(e), rest } => TagRead { value: Err(e), rest },
    }
}

/// Reading the payload of a tag of type `id`, where lists and compounds may be nested `left`
/// deep.
pub open spec fn read_payload(id: u8, left: nat, quota: Option<nat>, s: Seq<u8>, used: nat) -> TagParse<Tag>
    decreases left, 0nat,
{
    if id == END_ID {
        charge_then(quota, s, used, 8, TagRead { value: Ok(Tag::End), rest: s })
    } else if id == BYTE_ID {
        charge_then(quota, s, used, 9, as_tag(java_signed(s, 1), |v: int| Tag::Byte(v)))
    } else if id == SHORT_ID {
        charge_then(quota, s, used, 10, as_tag(java_signed(s, 2), |v: int| Tag::Short(v)))
    } else if id == INT_ID {
        charge_then(quota, s, used, 12, as_tag(java_signed(s, 4), |v: int| Tag::Int(v)))
    } else if id == LONG_ID {
        charge_then(quota, s, used, 16, as_tag(java_signed(s, 8), |v: int| Tag::Long(v)))
    } else if id == FLOAT_ID {
        charge_then(quota, s, used, 12, as_tag(java_unsigned(s, 4), |v: nat| Tag::Float(v as int)))
    } else if id == DOUBLE_ID {
        charge_then(quota, s, used, 16, as_tag(java_unsigned(s, 8), |v: nat| Tag::Double(v as int)))
    } else if id == STRING_ID {
        match java_string(s) {
            TagRead { value: Err(e), rest } => parse_fail(e, rest, used),
            TagRead { value: Ok(t), rest } => charge_then(
                quota,
                rest,
                used,
                36 + 2 * utf16_len(t),
                TagRead { value: Ok(Tag::String(t)), rest },
            ),
        }
    } else if id == BYTE_ARRAY_ID || id == INT_ARRAY_ID || id == LONG_ARRAY_ID {
        match java_signed(s, 4) {
            TagRead { value: Err(e), rest } => parse_fail(e, rest, used),
            TagRead { value: Ok(n), rest } => if n < 0 {
                parse_fail(NbtError::NegativeLength(n as i32), rest, used)
            } else if id == BYTE_ARRAY_ID {
                charge_then(
                    quota,
                    rest,
                    used,
                    24 + n as nat,
                    as_tag(source_byte_array(rest, n as nat), |v: Seq<i8>| Tag::ByteArray(v)),
                )
            } else if id == INT_ARRAY_ID {
                charge_then(
                    quota,
                    rest,
                    used,
                    24 + 4 * n as nat,
                    as_tag(java_i32_array(rest, n as nat), |v: Seq<int>| Tag::IntArray(v)),
                )
            } else {
                charge_then(
                    quota,
                    rest,
                    used,
                    24 + 8 * n as nat,
                    as_tag(java_i64_array(rest, n as nat), |v: Seq<int>| Tag::LongArray(v)),
                )
            },
        }
    } else if id == LIST_ID {
        if left == 0 {
            parse_fail(NbtError::MaxDepthExceeded, s, used)
        } else {
            match java_unsigned(s, 1) {
                TagRead { value: Err(e), rest } => parse_fail(e, rest, used),
                TagRead { value: Ok(elem), rest } => match java_signed(rest, 4) {
                    TagRead { value: Err(e), rest } => parse_fail(e, rest, used),
                    TagRead { value: Ok(n), rest } => if n < 0 {
                        parse_fail(NbtError::NegativeLength(n as i32), rest, used)
                    } else if elem == END_ID && n > 0 {
                        parse_fail(NbtError::UnknownTagId(END_ID), rest, used)
                    } else {
                        match charged(quota, used, 36 + 4 * n as nat) {
                            Err(e) => parse_fail(e, rest, used),
                            Ok(u) => read_items(elem as u8, n as nat, (left - 1) as nat, quota, rest, u, Seq::empty()),
                        }
                    },
                },
            }
        }
    } else if id == COMPOUND_ID {
        if left == 0 {
            parse_fail(NbtError::MaxDepthExceeded, s, used)
        } else {
            read_compound((left - 1) as nat, quota, s, used)
        }
    } else {
        parse_fail(NbtError::UnknownTagId(id), s, used)
    }
}

/// Reading `n` more payloads of type `id` behind the tags in `head`.
pub open spec fn read_items(id: u8, n: nat, left: nat, quota: Option<nat>, s: Seq<u8>, used: nat, head: Seq<Tag>) -> TagParse<Tag>
    decreases left, n + 1,
{
    if n == 0 {
        TagParse { value: Ok(Tag::List(head)), rest: s, used }
    } else {
        match read_payload(id, left, quota, s, used) {
            TagParse { value: Err(e), rest, used } => parse_fail(e, rest, used),
            TagParse { value: Ok(t), rest, used } => read_items(id, (n - 1) as nat, left, quota, rest, used, head.push(t)),
        }
    }
}

/// Reading the entries of a compound, up to the end tag.
pub open spec fn read_compound(left: nat, quota: Option<nat>, s: Seq<u8>, used: nat) -> TagParse<Tag>
    decreases left, s.len() + 3,
{
    match charged(quota, used, 48) {
        Err(e) => parse_fail(e, s, used),
        Ok(u) => read_entries(left, quota, s, u, Seq::empty()),
    }
}

/// Reading the key and the payload of an entry of type `id`, behind the entries in `head`.
pub open spec fn read_entry(id: u8, left: nat, quota: Option<nat>, s: Seq<u8>, used: nat, head: Seq<(Seq<char>, Tag)>) -> TagParse<
    Seq<(Seq<char>, Tag)>,
>
    decreases left, 1nat,
{
    match charged(quota, used, 28) {
        Err(e) => parse_fail(e, s, used),
        Ok(u) => match java_string(s) {
            TagRead { value: Err(e), rest } => parse_fail(e, rest, u),
            TagRead { value: Ok(key), rest } => match read_payload(id, left, quota, rest, u) {
                TagParse { value: Err(e), rest, used } => parse_fail(e, rest, used),
                TagParse { value: Ok(t), rest, used } => match if key_index(head, key) is Some {
                    Ok::<nat, NbtError>(used)
                } else {
                    charged(quota, used, 36 + 2 * utf16_len(key))
                } {
                    Err(e) => parse_fail(e, rest, used),
                    Ok(u) => TagParse { value: Ok(compound_put(head, key, t)), rest, used: u },
                },
            },
        },
    }
}

/// Reading more entries of a compound behind those in `head`.
pub open spec fn read_entries(left: nat, quota: Option<nat>, s: Seq<u8>, used: nat, head: Seq<(Seq<char>, Tag)>) -> TagParse<Tag>
    decreases left, s.len() + 2,
{
    match java_unsigned(s, 1) {
        TagRead { value: Err(e), rest } => parse_fail(e, rest, used),
        TagRead { value: Ok(id), rest } => if id == END_ID {
            charge_then(quota, rest, used, 8, TagRead { value: Ok(Tag::Compound(head)), rest })
        } else {
            match read_entry(id as u8, left, quota, rest, used, head) {
                TagParse { value: Err(e), rest, used } => parse_fail(e, rest, used),
                TagParse { value: Ok(more), rest, used } => if rest.len() < s.len() {
                    read_entries(left, quota, rest, used, more)
                } else {
                    arbitrary()
                },
            }
        },
    }
}

proof fn lemma_java_string_shrinks(s: Seq<u8>)
    ensures
        java_string(s).rest.len() <= s.len(),
{
}

/// Reading never makes the input longer.
pub proof fn lemma_payload_shrinks(id: u8, left: nat, quota: Option<nat>, s: Seq<u8>, used: nat)
    ensures
        read_payload(id, left, quota, s, used).rest.len() <= s.len(),
    decreases left, 0nat,
{
    lemma_java_string_shrinks(s);
    if id == LIST_ID && left > 0 {
        let a = java_unsigned(s, 1);
        if a.value is Ok {
            let b = java_signed(a.rest, 4);
            if b.value is Ok && b.value->Ok_0 >= 0 {
                let c = charged(quota, used, 36 + 4 * (b.value->Ok_0) as nat);
                if c is Ok {
                    lemma_items_shrinks(a.value->Ok_0 as u8, b.value->Ok_0 as nat, (left - 1) as nat, quota, b.rest, c->Ok_0, Seq::empty());
                }
            }
        }
    } else if id == COMPOUND_ID && left > 0 {
        if charged(quota, used, 48) is Ok {
            lemma_entries_shrinks((left - 1) as nat, quota, s, charged(quota, used, 48)->Ok_0, Seq::empty());
        }
    }
}

proof fn lemma_items_shrinks(id: u8, n: nat, left: nat, quota: Option<nat>, s: Seq<u8>, used: nat, head: Seq<Tag>)
    ensures
        read_items(id, n, left, quota, s, used, head).rest.len() <= s.len(),
    decreases left, n + 1,
{
    if n > 0 {
        lemma_payload_shrinks(id, left, quota, s, used);
        let p = read_payload(id, left, quota, s, used);
        if p.value is Ok {
            lemma_items_shrinks(id, (n - 1) as nat, left, quota, p.rest, p.used, head.push(p.value->Ok_0));
        }
    }
}

proof fn lemma_entry_shrinks(id: u8, left: nat, quota: Option<nat>, s: Seq<u8>, used: nat, head: Seq<(Seq<char>, Tag)>)
    ensures
        read_entry(id, left, quota, s, used, head).rest.len() <= s.len(),
    decreases left, 1nat,
{
    lemma_java_string_shrinks(s);
    if charged(quota, used, 28) is Ok {
        lemma_payload_shrinks(id, left, quota, java_string(s).rest, charged(quota, used, 28)->Ok_0);
    }
}

proof fn lemma_entries_shrinks(left: nat, quota: Option<nat>, s: Seq<u8>, used: nat, head: Seq<(Seq<char>, Tag)>)
    ensures
        read_entries(left, quota, s, used, head).rest.len() <= s.len(),
    decreases left, s.len() + 2,
{
    let a = java_unsigned(s, 1);
    if a.value is Ok && a.value->Ok_0 != END_ID {
        lemma_entry_shrinks(a.value->Ok_0 as u8, left, quota, a.rest, used, head);
        let p = read_entry(a.value->Ok_0 as u8, left, quota, a.rest, used, head);
        if p.value is Ok {
            lemma_entries_shrinks(left, quota, p.rest, p.used, p.value->Ok_0);
        }
    }
}

/// Whether a result, and the reader after it, are those of `p`.
pub open spec fn tag_gives<D: NbtDataSource>(r: Result<NbtTag, NbtError>, h: NbtReadHelperJava<D>, p: TagParse<Tag>) -> bool {
    &&& p.rest == h.reader.remaining()
    &&& p.used == used_of(h.accounter)
    &&& match r {
        Ok(t) => p.value == Ok::<Tag, NbtError>(t@),
        Err(e) => p.value == Err::<Tag, NbtError>(e),
    }
}

/// The number of UTF-16 units of a text.
pub fn count_utf16(t: &str) -> (r: u128)
    ensures
        r == utf16_len(t@),
        r <= 2 * usize::MAX,
{
    let v = chars_of(t);
    let mut n: u128 = 0;
    let mut i: usize = 0;
    while i < v.len()
        invariant
            i <= v@.len(),
            v@ == t@,
            n == utf16_len(t@.take(i as int)),
            n <= 2 * i,
        decreases v.len() - i,
    {
        let c: char = v[i];
        assert(t@.take(i + 1).drop_last() =~= t@.take(i as int));
        if (c as u32) < 0x1_0000 {
            n += 1;
        } else {
            n += 2;
        }
        i += 1;
    }
    assert(t@.take(i as int) =~= t@);
    n
}

/// Reads the payload of a tag of type `id`.
pub fn get_payload<D: NbtDataSource>(h: &mut NbtReadHelperJava<D>, id: u8, left: usize) -> (r: Result<NbtTag, NbtError>)
    ensures
        quota_of(final(h).accounter) == quota_of(old(h).accounter),
        tag_gives(
            r,
            *final(h),
            read_payload(id, left as nat, quota_of(old(h).accounter), old(h).reader.remaining(), used_of(old(h).accounter)),
        ),
    decreases left, 0nat,
{
    let ghost quota = quota_of(h.accounter);
    let ghost s = h.reader.remaining();
    let ghost used = used_of(h.accounter);
    if id == END_ID {
        h.charge(8)?;
        Ok(NbtTag::End)
    } else if id == BYTE_ID {
        h.charge(9)?;
        Ok(NbtTag::Byte(h.get_i8()?))
    } else if id == SHORT_ID {
        h.charge(10)?;
        Ok(NbtTag::Short(h.get_i16()?))
    } else if id == INT_ID {
        h.charge(12)?;
        Ok(NbtTag::Int(h.get_i32()?))
    } else if id == LONG_ID {
        h.charge(16)?;
        Ok(NbtTag::Long(h.get_i64()?))
    } else if id == FLOAT_ID {
        h.charge(12)?;
        Ok(NbtTag::Float(h.get_f32()?))
    } else if id == DOUBLE_ID {
        h.charge(16)?;
        Ok(NbtTag::Double(h.get_f64()?))
    } else if id == STRING_ID {
        let t = h.get_string()?;
        let units: u128 = count_utf16(t.as_str());
        h.charge(36 + 2 * units)?;
        Ok(NbtTag::String(t))
    } else if id == BYTE_ARRAY_ID || id == INT_ARRAY_ID || id == LONG_ARRAY_ID {
        let n: i32 = h.get_i32()?;
        if n < 0 {
            return Err(NbtError::NegativeLength(n));
        }
        let len: usize = n as usize;
        if id == BYTE_ARRAY_ID {
            h.charge(24 + len as u128)?;
            Ok(NbtTag::ByteArray(h.get_byte_array(len)?))
        } else if id == INT_ARRAY_ID {
            h.charge(24 + 4 * len as u128)?;
            Ok(NbtTag::IntArray(h.get_i32_array(len)?))
        } else {
            h.charge(24 + 8 * len as u128)?;
            Ok(NbtTag::LongArray(h.get_i64_array(len)?))
        }
    } else if id == LIST_ID {
        if left == 0 {
            return Err(NbtError::MaxDepthExceeded);
        }
        let elem: u8 = h.get_u8()?;
        let n: i32 = h.get_i32()?;
        if n < 0 {
            return Err(NbtError::NegativeLength(n));
        }
        if elem == END_ID && n > 0 {
            return Err(NbtError::UnknownTagId(END_ID));
        }
        h.charge(36 + 4 * n as u128)?;
        Ok(NbtTag::List(get_items(h, elem, n as usize, left - 1)?))
    } else if id == COMPOUND_ID {
        if left == 0 {
            return Err(NbtError::MaxDepthExceeded);
        }
        Ok(NbtTag::Compound(get_compound(h, left - 1)?))
    } else {
        Err(NbtError::UnknownTagId(id))
    }
}

/// Reads `n` payloads of type `id`.
fn get_items<D: NbtDataSource>(h: &mut NbtReadHelperJava<D>, id: u8, n: usize, left: usize) -> (r: Result<Vec<NbtTag>, NbtError>)
    ensures
        quota_of(final(h).accounter) == quota_of(old(h).accounter),
        ({
            let p = read_items(
                id,
                n as nat,
                left as nat,
                quota_of(old(h).accounter),
                old(h).reader.remaining(),
                used_of(old(h).accounter),
                Seq::empty(),
            );
            &&& p.rest == final(h).reader.remaining()
            &&& p.used == used_of(final(h).accounter)
            &&& match r {
                Ok(v) => p.value == Ok::<Tag, NbtError>(Tag::List(tags_of(v@))),
                Err(e) => p.value == Err::<Tag, NbtError>(e),
            }
        }),
    decreases left, 1nat,
{
    let ghost p = read_items(
        id,
        n as nat,
        left as nat,
        quota_of(h.accounter),
        h.reader.remaining(),
        used_of(h.accounter),
        Seq::empty(),
    );
    let mut out: Vec<NbtTag> = Vec::new();
    assert(tags_of(out@) =~= Seq::<Tag>::empty());
    let mut i: usize = 0;
    while i < n
        invariant
            i <= n,
            quota_of(h.accounter) == quota_of(old(h).accounter),
            p == read_items(
                id,
                (n - i) as nat,
                left as nat,
                quota_of(old(h).accounter),
                h.reader.remaining(),
                used_of(h.accounter),
                tags_of(out@),
            ),
            p == read_items(
                id,
                n as nat,
                left as nat,
                quota_of(old(h).accounter),
                old(h).reader.remaining(),
                used_of(old(h).accounter),
                Seq::empty(),
            ),
        decreases n - i,
    {
        let t = get_payload(h, id, left)?;
        let ghost head = tags_of(out@);
        out.push(t);
        assert(tags_of(out@) =~= head.push(t@));
        i += 1;
    }
    Ok(out)
}

/// Reads the key and the payload of an entry of type `id` into `c`.
fn get_entry<D: NbtDataSource>(h: &mut NbtReadHelperJava<D>, id: u8, left: usize, c: &mut NbtCompound) -> (r: Result<(), NbtError>)
    ensures
        quota_of(final(h).accounter) == quota_of(old(h).accounter),
        ({
            let p = read_entry(
                id,
                left as nat,
                quota_of(old(h).accounter),
                old(h).reader.remaining(),
                used_of(old(h).accounter),
                old(c)@,
            );
            &&& p.rest == final(h).reader.remaining()
            &&& p.used == used_of(final(h).accounter)
            &&& match r {
                Ok(_) => p.value == Ok::<Seq<(Seq<char>, Tag)>, NbtError>(final(c)@),
                Err(e) => p.value == Err::<Seq<(Seq<char>, Tag)>, NbtError>(e),
            }
        }),
    decreases left, 1nat,
{
    h.charge(28)?;
    let key = h.get_string()?;
    let t = get_payload(h, id, left)?;
    if !c.has(key.as_str()) {
        let units: u128 = count_utf16(key.as_str());
        h.charge(36 + 2 * units)?;
    }
    c.put(key.as_str(), t);
    Ok(())
}

/// Reads the entries of a compound.
fn get_compound<D: NbtDataSource>(h: &mut NbtReadHelperJava<D>, left: usize) -> (r: Result<NbtCompound, NbtError>)
    ensures
        quota_of(final(h).accounter) == quota_of(old(h).accounter),
        compound_gives(
            r,
            *final(h),
            read_compound(left as nat, quota_of(old(h).accounter), old(h).reader.remaining(), used_of(old(h).accounter)),
        ),
    decreases left, 2nat,
{
    let ghost quota = quota_of(h.accounter);
    let ghost p = read_compound(left as nat, quota, h.reader.remaining(), used_of(h.accounter));
    h.charge(48)?;
    let mut c = NbtCompound::new();
    loop
        invariant
            quota == quota_of(old(h).accounter),
            quota_of(h.accounter) == quota,
            p == read_entries(left as nat, quota, h.reader.remaining(), used_of(h.accounter), c@),
            p == read_compound(left as nat, quota, old(h).reader.remaining(), used_of(old(h).accounter)),
        decreases h.reader.remaining().len(),
    {
        let ghost s = h.reader.remaining();
        let id: u8 = h.get_u8()?;
        if id == END_ID {
            h.charge(8)?;
            return Ok(c);
        }
        proof {
            lemma_entry_shrinks(id, left as nat, quota, h.reader.remaining(), used_of(h.accounter), c@);
        }
        get_entry(h, id, left, &mut c)?;
    }
}

/// Whether a result, and the reader after it, are those of `p`.
pub open spec fn compound_gives<D: NbtDataSource>(r: Result<NbtCompound, NbtError>, h: NbtReadHelperJava<D>, p: TagParse<Tag>) -> bool {
    &&& p.rest == h.reader.remaining()
    &&& p.used == used_of(h.accounter)
    &&& match r {
        Ok(c) => p.value == Ok::<Tag, NbtError>(Tag::Compound(c@)),
        Err(e) => p.value == Err::<Tag, NbtError>(e),
    }
}

/// What `cesu8::to_java_cesu8` makes of a text: its bytes in Java's modified UTF-8.
pub uninterp spec fn java_bytes(t: Seq<char>) -> Seq<u8>;

/// Whether a text has no null character and none beyond the basic plane.
pub open spec fn plain_string(t: Seq<char>) -> bool {
    forall|i: int| 0 <= i < t.len() ==> 0 < (#[trigger] t[i]) as u32 <= 0xffff
}

/// Whether the bytes of a text are known where it is plain, and reading gives it back from them.
pub open spec fn string_known(t: Seq<char>) -> bool {
    java_text(java_bytes(t)) == Some(t) && (plain_string(t) ==> java_bytes(t) == encode_utf8(t))
}

/// Calls `cesu8::to_java_cesu8`. Its result is a function of the text alone, and
/// `cesu8::from_java_cesu8` gives the text back. A text without null characters and without characters
/// beyond the basic plane keeps its bytes in UTF-8.
#[verifier::external_body]
fn to_java_cesu8(t: &str) -> (r: Vec<u8>)
    ensures
        r@ == java_bytes(t@),
        java_text(r@) == Some(t@),
        plain_string(t@) ==> r@ == encode_utf8(t@),
{
    cesu8::to_java_cesu8(t).into_owned()
}

/// The type number of a tag.
pub open spec fn tag_id(t: Tag) -> u8 {
    match t {
        Tag::End => END_ID,
        Tag::Byte(_) => BYTE_ID,
        Tag::Short(_) => SHORT_ID,
        Tag::Int(_) => INT_ID,
        Tag::Long(_) => LONG_ID,
        Tag::Float(_) => FLOAT_ID,
        Tag::Double(_) => DOUBLE_ID,
        Tag::ByteArray(_) => BYTE_ARRAY_ID,
        Tag::String(_) => STRING_ID,
        Tag::List(_) => LIST_ID,
        Tag::Compound(_) => COMPOUND_ID,
        Tag::IntArray(_) => INT_ARRAY_ID,
        Tag::LongArray(_) => LONG_ARRAY_ID,
    }
}

/// The bytes of a string: their number in two bytes, then themselves.
pub open spec fn string_bytes(t: Seq<char>) -> Seq<u8> {
    be_bytes(java_bytes(t).len(), 2) + java_bytes(t)
}

/// The type number of the tags of a list.
pub open spec fn list_id(ts: Seq<Tag>) -> u8 {
    if ts.len() == 0 {
        END_ID
    } else {
        tag_id(ts[0])
    }
}

/// The bytes of signed bytes.
pub open spec fn i8_bytes(v: Seq<i8>) -> Seq<u8> {
    Seq::new(v.len(), |i: int| to_unsigned(v[i] as int, 1) as u8)
}

/// The bytes of the numbers of `v` from the `i`th on, `w` bytes each.
pub open spec fn array_bytes(v: Seq<int>, w: nat, i: int) -> Seq<u8>
    decreases v.len() - i,
{
    if i < 0 || i >= v.len() {
        Seq::empty()
    } else {
        be_signed(v[i], w) + array_bytes(v, w, i + 1)
    }
}

/// The payload of a tag.
pub open spec fn payload_bytes(t: Tag) -> Seq<u8>
    decreases t, 0nat,
{
    match t {
        Tag::End => Seq::empty(),
        Tag::Byte(v) => be_signed(v, 1),
        Tag::Short(v) => be_signed(v, 2),
        Tag::Int(v) => be_signed(v, 4),
        Tag::Long(v) => be_signed(v, 8),
        Tag::Float(v) => be_bytes(v as nat, 4),
        Tag::Double(v) => be_bytes(v as nat, 8),
        Tag::ByteArray(v) => be_bytes(v.len(), 4) + i8_bytes(v),
        Tag::String(v) => string_bytes(v),
        Tag::List(v) => be_bytes(list_id(v) as nat, 1) + (be_bytes(v.len(), 4) + items_bytes(v, 0)),
        Tag::Compound(v) => entries_bytes(v, 0),
        Tag::IntArray(v) => be_bytes(v.len(), 4) + array_bytes(v, 4, 0),
        Tag::LongArray(v) => be_bytes(v.len(), 4) + array_bytes(v, 8, 0),
    }
}

/// The payloads of the tags of `v` from the `i`th on.
pub open spec fn items_bytes(v: Seq<Tag>, i: int) -> Seq<u8>
    decreases v, v.len() - i,
{
    if i < 0 || i >= v.len() {
        Seq::empty()
    } else {
        payload_bytes(v[i]) + items_bytes(v, i + 1)
    }
}

/// The entries of `v` from the `i`th on: type, key and payload of each, then the end tag.
pub open spec fn entries_bytes(v: Seq<(Seq<char>, Tag)>, i: int) -> Seq<u8>
    decreases v, v.len() - i,
{
    if i < 0 || i >= v.len() {
        be_bytes(END_ID as nat, 1)
    } else {
        be_bytes(tag_id(v[i].1) as nat, 1) + (string_bytes(v[i].0) + (payload_bytes(v[i].1) + entries_bytes(v, i + 1)))
    }
}

/// A tag: its type, then its payload.
pub open spec fn tag_bytes(t: Tag) -> Seq<u8> {
    be_bytes(tag_id(t) as nat, 1) + payload_bytes(t)
}

/// Whether a string's bytes fit their length field.
pub open spec fn string_fits(t: Seq<char>) -> bool {
    java_bytes(t).len() <= 0xffff
}

/// Whether the tag has a binary form: no string, array or list is too long for its length
/// field, the tags of a list are of one type, and no end tag is inside a list or compound.
pub open spec fn writable(t: Tag) -> bool
    decreases t, 0nat,
{
    match t {
        Tag::ByteArray(v) => v.len() <= i32::MAX,
        Tag::String(v) => string_fits(v),
        Tag::List(v) => v.len() <= i32::MAX && items_writable(v, v.len()),
        Tag::Compound(v) => entries_writable(v, v.len()),
        Tag::IntArray(v) => v.len() <= i32::MAX,
        Tag::LongArray(v) => v.len() <= i32::MAX,
        _ => true,
    }
}

/// Whether the first `n` tags can stand in one list.
pub open spec fn items_writable(v: Seq<Tag>, n: nat) -> bool
    decreases v, n,
{
    if n == 0 || n > v.len() {
        true
    } else {
        items_writable(v, (n - 1) as nat) && tag_id(v[n - 1]) == list_id(v) && tag_id(v[n - 1]) != END_ID && writable(v[n - 1])
    }
}

/// Whether the first `n` entries can stand in a compound.
pub open spec fn entries_writable(v: Seq<(Seq<char>, Tag)>, n: nat) -> bool
    decreases v, n,
{
    if n == 0 || n > v.len() {
        true
    } else {
        entries_writable(v, (n - 1) as nat) && string_fits(v[n - 1].0) && tag_id(v[n - 1].1) != END_ID && writable(v[n - 1].1)
    }
}

/// Whether the bytes of each string of the tag are known where it is plain, and reading gives it back
/// from them.
pub open spec fn strings_return(t: Tag) -> bool
    decreases t, 0nat,
{
    match t {
        Tag::String(v) => string_known(v),
        Tag::List(v) => items_return(v, v.len()),
        Tag::Compound(v) => entries_return(v, v.len()),
        _ => true,
    }
}

pub open spec fn items_return(v: Seq<Tag>, n: nat) -> bool
    decreases v, n,
{
    if n == 0 || n > v.len() {
        true
    } else {
        items_return(v, (n - 1) as nat) && strings_return(v[n - 1])
    }
}

pub open spec fn entries_return(v: Seq<(Seq<char>, Tag)>, n: nat) -> bool
    decreases v, n,
{
    if n == 0 || n > v.len() {
        true
    } else {
        entries_return(v, (n - 1) as nat) && string_known(v[n - 1].0) && strings_return(v[n - 1].1)
    }
}

impl NbtTag {
    /// The type number.
    pub fn get_type_id(&self) -> (r: u8)
        ensures
            r == tag_id(self@),
    {
        match self {
            NbtTag::End => END_ID,
            NbtTag::Byte(_) => BYTE_ID,
            NbtTag::Short(_) => SHORT_ID,
            NbtTag::Int(_) => INT_ID,
            NbtTag::Long(_) => LONG_ID,
            NbtTag::Float(_) => FLOAT_ID,
            NbtTag::Double(_) => DOUBLE_ID,
            NbtTag::ByteArray(_) => BYTE_ARRAY_ID,
            NbtTag::String(_) => STRING_ID,
            NbtTag::List(_) => LIST_ID,
            NbtTag::Compound(_) => COMPOUND_ID,
            NbtTag::IntArray(_) => INT_ARRAY_ID,
            NbtTag::LongArray(_) => LONG_ARRAY_ID,
        }
    }
}

/// Appends a string; where it is too long nothing is appended.
fn put_java_string(out: &mut Vec<u8>, t: &str) -> (r: bool)
    ensures
        r == string_fits(t@),
        r ==> final(out)@ == old(out)@ + string_bytes(t@),
        string_known(t@),
{
    let b = to_java_cesu8(t);
    if b.len() > 0xffff {
        return false;
    }
    let ghost before = out@;
    put_be(out, b.len() as u128, 2);
    put_slice(out, b.as_slice());
    assert(out@ =~= before + string_bytes(t@));
    true
}

/// Appends the payload of a tag, where it has one.
fn put_payload(t: &NbtTag, out: &mut Vec<u8>) -> (r: bool)
    ensures
        r == writable(t@),
        r ==> final(out)@ == old(out)@ + payload_bytes(t@),
        r ==> strings_return(t@),
    decreases *t, 0nat,
{
    let ghost before = out@;
    match t {
        NbtTag::End => {
            assert(before + payload_bytes(t@) =~= before);
            true
        },
        NbtTag::Byte(v) => {
            put_be(out, u8_of_i8(*v) as u128, 1);
            true
        },
        NbtTag::Short(v) => {
            put_be(out, u16_of_i16(*v) as u128, 2);
            true
        },
        NbtTag::Int(v) => {
            put_be(out, u32_of_i32(*v) as u128, 4);
            true
        },
        NbtTag::Long(v) => {
            put_be(out, u64_of_i64(*v) as u128, 8);
            true
        },
        NbtTag::Float(v) => {
            put_be(out, *v as u128, 4);
            true
        },
        NbtTag::Double(v) => {
            put_be(out, *v as u128, 8);
            true
        },
        NbtTag::ByteArray(v) => {
            if v.len() > 0x7fff_ffff {
                return false;
            }
            put_be(out, v.len() as u128, 4);
            let ghost mid = out@;
            let mut i: usize = 0;
            while i < v.len()
                invariant
                    i <= v.len(),
                    out@ =~= mid + i8_bytes(v@).take(i as int),
                decreases v.len() - i,
            {
                out.push(u8_of_i8(v[i]));
                i += 1;
            }
            assert(i8_bytes(v@).take(i as int) =~= i8_bytes(v@));
            assert(out@ =~= before + payload_bytes(t@));
            true
        },
        NbtTag::String(v) => put_java_string(out, v.as_str()),
        NbtTag::List(v) => {
            assert(tags_of(v@).len() == v@.len());
            if v.len() > 0x7fff_ffff {
                return false;
            }
            let id: u8 = if v.len() == 0 {
                END_ID
            } else {
                v[0].get_type_id()
            };
            assert(id == list_id(tags_of(v@)));
            put_be(out, id as u128, 1);
            put_be(out, v.len() as u128, 4);
            let ghost mid = out@;
            let r = put_items(v, id, out);
            proof {
                if r {
                    assert(out@ =~= before + payload_bytes(t@));
                }
            }
            r
        },
        NbtTag::Compound(c) => put_entries(c, out),
        NbtTag::IntArray(v) => {
            if v.len() > 0x7fff_ffff {
                return false;
            }
            put_be(out, v.len() as u128, 4);
            let ghost mid = out@;
            let ghost all = ints32(v@);
            let mut i: usize = 0;
            assert(mid + array_bytes(all, 4, 0) == out@ + array_bytes(all, 4, 0));
            while i < v.len()
                invariant
                    i <= v.len(),
                    all == ints32(v@),
                    mid + array_bytes(all, 4, 0) == out@ + array_bytes(all, 4, i as int),
                decreases v.len() - i,
            {
                let ghost was = out@;
                put_be(out, u32_of_i32(v[i]) as u128, 4);
                assert(was + array_bytes(all, 4, i as int) =~= out@ + array_bytes(all, 4, i + 1));
                i += 1;
            }
            assert(out@ + array_bytes(all, 4, i as int) =~= out@);
            assert(out@ =~= before + payload_bytes(t@));
            true
        },
        NbtTag::LongArray(v) => {
            if v.len() > 0x7fff_ffff {
                return false;
            }
            put_be(out, v.len() as u128, 4);
            let ghost mid = out@;
            let ghost all = ints64(v@);
            let mut i: usize = 0;
            assert(mid + array_bytes(all, 8, 0) == out@ + array_bytes(all, 8, 0));
            while i < v.len()
                invariant
                    i <= v.len(),
                    all == ints64(v@),
                    mid + array_bytes(all, 8, 0) == out@ + array_bytes(all, 8, i as int),
                decreases v.len() - i,
            {
                let ghost was = out@;
                put_be(out, u64_of_i64(v[i]) as u128, 8);
                assert(was + array_bytes(all, 8, i as int) =~= out@ + array_bytes(all, 8, i + 1));
                i += 1;
            }
            assert(out@ + array_bytes(all, 8, i as int) =~= out@);
            assert(out@ =~= before + payload_bytes(t@));
            true
        },
    }
}

/// One tag among the first `n` that cannot stand in the list rules the list out.
proof fn lemma_items_not_writable(v: Seq<Tag>, i: nat, n: nat)
    requires
        i <= n <= v.len(),
        !items_writable(v, i),
    ensures
        !items_writable(v, n),
    decreases n,
{
    if i < n {
        lemma_items_not_writable(v, i, (n - 1) as nat);
    }
}

proof fn lemma_entries_not_writable(v: Seq<(Seq<char>, Tag)>, i: nat, n: nat)
    requires
        i <= n <= v.len(),
        !entries_writable(v, i),
    ensures
        !entries_writable(v, n),
    decreases n,
{
    if i < n {
        lemma_entries_not_writable(v, i, (n - 1) as nat);
    }
}

/// Appends the payloads of the tags of a list, where they are all of type `id`.
fn put_items(v: &Vec<NbtTag>, id: u8, out: &mut Vec<u8>) -> (r: bool)
    requires
        id == list_id(tags_of(v@)),
    ensures
        r == items_writable(tags_of(v@), v@.len()),
        r ==> final(out)@ == old(out)@ + items_bytes(tags_of(v@), 0),
        r ==> items_return(tags_of(v@), v@.len()),
    decreases *v, 1nat,
{
    let ghost before = out@;
    let ghost all = tags_of(v@);
    let mut i: usize = 0;
    while i < v.len()
        invariant
            i <= v.len(),
            all == tags_of(v@),
            all.len() == v@.len(),
            id == list_id(all),
            items_writable(all, i as nat),
            items_return(all, i as nat),
            before + items_bytes(all, 0) == out@ + items_bytes(all, i as int),
        decreases v.len() - i,
    {
        let ghost was = out@;
        assert(decreases_to!(*v => v@[i as int]));
        assert(all[i as int] == v@[i as int]@);
        if v[i].get_type_id() != id || id == END_ID || !put_payload(&v[i], out) {
            proof {
                lemma_items_not_writable(all, (i + 1) as nat, all.len());
            }
            return false;
        }
        assert(was + items_bytes(all, i as int) =~= out@ + items_bytes(all, i + 1));
        i += 1;
    }
    assert(out@ + items_bytes(all, i as int) =~= out@);
    true
}

/// Appends the entries of a compound and the end tag.
fn put_entries(c: &NbtCompound, out: &mut Vec<u8>) -> (r: bool)
    ensures
        r == entries_writable(c@, c@.len()),
        r ==> final(out)@ == old(out)@ + entries_bytes(c@, 0),
        r ==> entries_return(c@, c@.len()),
    decreases *c, 1nat,
{
    let ghost before = out@;
    let ghost all = c@;
    let mut i: usize = 0;
    while i < c.child_tags.len()
        invariant
            i <= c.child_tags.len(),
            all == c@,
            all.len() == c.child_tags@.len(),
            entries_writable(all, i as nat),
            entries_return(all, i as nat),
            before + entries_bytes(all, 0) == out@ + entries_bytes(all, i as int),
        decreases c.child_tags.len() - i,
    {
        let ghost was = out@;
        assert(decreases_to!(*c => c.child_tags@[i as int].1));
        assert(all[i as int] == (c.child_tags@[i as int].0@, c.child_tags@[i as int].1@));
        let id: u8 = c.child_tags[i].1.get_type_id();
        put_be(out, id as u128, 1);
        if id == END_ID || !put_java_string(out, c.child_tags[i].0.as_str()) || !put_payload(&c.child_tags[i].1, out) {
            proof {
                lemma_entries_not_writable(all, (i + 1) as nat, all.len());
            }
            return false;
        }
        assert(was + entries_bytes(all, i as int) =~= out@ + entries_bytes(all, i + 1));
        i += 1;
    }
    put_be(out, END_ID as u128, 1);
    true
}

/// Whether the tag is nested at most `left` deep, its numbers fit their widths, its arrays fit the
/// machine's memory and no compound has a key twice.
pub open spec fn sound(t: Tag, left: nat) -> bool
    decreases t, 0nat,
{
    match t {
        Tag::Byte(v) => -0x80 <= v < 0x80,
        Tag::Short(v) => -0x8000 <= v < 0x8000,
        Tag::Int(v) => i32::MIN <= v <= i32::MAX,
        Tag::Long(v) => i64::MIN <= v <= i64::MAX,
        Tag::Float(v) => 0 <= v <= u32::MAX,
        Tag::Double(v) => 0 <= v <= u64::MAX,
        Tag::List(v) => left > 0 && items_sound(v, v.len(), (left - 1) as nat),
        Tag::Compound(v) => left > 0 && entries_sound(v, v.len(), (left - 1) as nat) && keys_distinct(v),
        Tag::IntArray(v) => 4 * v.len() <= usize::MAX && forall|i: int| 0 <= i < v.len() ==> i32::MIN <= #[trigger] v[i] <= i32::MAX,
        Tag::LongArray(v) => 8 * v.len() <= usize::MAX && forall|i: int| 0 <= i < v.len() ==> i64::MIN <= #[trigger] v[i] <= i64::MAX,
        _ => true,
    }
}

pub open spec fn items_sound(v: Seq<Tag>, n: nat, left: nat) -> bool
    decreases v, n,
{
    if n == 0 || n > v.len() {
        true
    } else {
        items_sound(v, (n - 1) as nat, left) && sound(v[n - 1], left)
    }
}

pub open spec fn entries_sound(v: Seq<(Seq<char>, Tag)>, n: nat, left: nat) -> bool
    decreases v, n,
{
    if n == 0 || n > v.len() {
        true
    } else {
        entries_sound(v, (n - 1) as nat, left) && sound(v[n - 1].1, left)
    }
}

proof fn lemma_java_unsigned(v: nat, n: nat, r: Seq<u8>)
    requires
        v < pow256(n),
    ensures
        java_unsigned(be_bytes(v, n) + r, n) == tag_done(v, r),
{
    let b = be_bytes(v, n);
    lemma_be_bytes_len(v, n);
    lemma_be_roundtrip(v, n);
    assert((b + r).take(n as int) =~= b);
    assert((b + r).skip(n as int) =~= r);
}

proof fn lemma_java_signed(v: int, n: nat, r: Seq<u8>)
    requires
        -pow256(n) <= 2 * v < pow256(n),
    ensures
        java_signed(be_signed(v, n) + r, n) == tag_done(v, r),
{
    lemma_signed_roundtrip(v, n);
    lemma_java_unsigned(to_unsigned(v, n), n, r);
}

/// A length below `2^31` is read back as itself.
proof fn lemma_java_length(n: nat, r: Seq<u8>)
    requires
        n <= i32::MAX,
    ensures
        java_signed(be_bytes(n, 4) + r, 4) == tag_done(n as int, r),
{
    lemma_pow256();
    lemma_java_unsigned(n, 4, r);
}

proof fn lemma_java_string(t: Seq<char>, r: Seq<u8>)
    requires
        string_fits(t),
        java_text(java_bytes(t)) == Some(t),
    ensures
        java_string(string_bytes(t) + r) == tag_done(t, r),
{
    let b = java_bytes(t);
    lemma_pow256();
    assert(string_bytes(t) + r =~= be_bytes(b.len(), 2) + (b + r));
    lemma_java_unsigned(b.len(), 2, b + r);
    assert((b + r).take(b.len() as int) =~= b);
    assert((b + r).skip(b.len() as int) =~= r);
}

proof fn lemma_array_bytes_len(v: Seq<int>, w: nat, i: int)
    requires
        0 <= i <= v.len(),
        w == 4 || w == 8,
    ensures
        array_bytes(v, w, i).len() == w * (v.len() - i),
    decreases v.len() - i,
{
    if i < v.len() {
        lemma_array_bytes_len(v, w, i + 1);
        lemma_be_bytes_len(to_unsigned(v[i], w), w);
    }
}

proof fn lemma_array_word(v: Seq<int>, w: nat, i: int, j: int)
    requires
        0 <= i <= j < v.len(),
        w == 4 || w == 8,
    ensures
        w * (j - i) + w <= array_bytes(v, w, i).len(),
        array_bytes(v, w, i).subrange(w * (j - i), w * (j - i) + w) == be_signed(v[j], w),
    decreases v.len() - i,
{
    lemma_array_bytes_len(v, w, i);
    lemma_be_bytes_len(to_unsigned(v[i], w), w);
    if i == j {
        assert(array_bytes(v, w, i).subrange(0, w as int) =~= be_signed(v[j], w));
    } else {
        lemma_array_word(v, w, i + 1, j);
        assert(array_bytes(v, w, i).subrange(w * (j - i), w * (j - i) + w) =~= array_bytes(v, w, i + 1).subrange(
            w * (j - i - 1),
            w * (j - i - 1) + w,
        ));
    }
}

proof fn lemma_i32_array(v: Seq<int>, r: Seq<u8>)
    requires
        v.len() <= i32::MAX,
        4 * v.len() <= usize::MAX,
        forall|i: int| 0 <= i < v.len() ==> i32::MIN <= #[trigger] v[i] <= i32::MAX,
    ensures
        java_i32_array(array_bytes(v, 4, 0) + r, v.len()) == tag_done(v, r),
{
    let b = array_bytes(v, 4, 0);
    lemma_array_bytes_len(v, 4, 0);
    lemma_pow256();
    assert((b + r).take(b.len() as int) =~= b);
    assert((b + r).skip(b.len() as int) =~= r);
    assert forall|j: int| 0 <= j < v.len() implies words32(b)[j] == v[j] by {
        lemma_array_word(v, 4, 0, j);
        lemma_signed_roundtrip(v[j], 4);
        lemma_be_roundtrip(to_unsigned(v[j], 4), 4);
    }
    assert(words32(b) =~= v);
}

proof fn lemma_i64_array(v: Seq<int>, r: Seq<u8>)
    requires
        v.len() <= i32::MAX,
        8 * v.len() <= usize::MAX,
        forall|i: int| 0 <= i < v.len() ==> i64::MIN <= #[trigger] v[i] <= i64::MAX,
    ensures
        java_i64_array(array_bytes(v, 8, 0) + r, v.len()) == tag_done(v, r),
{
    let b = array_bytes(v, 8, 0);
    lemma_array_bytes_len(v, 8, 0);
    lemma_pow256();
    assert((b + r).take(b.len() as int) =~= b);
    assert((b + r).skip(b.len() as int) =~= r);
    assert forall|j: int| 0 <= j < v.len() implies words64(b)[j] == v[j] by {
        lemma_array_word(v, 8, 0, j);
        lemma_signed_roundtrip(v[j], 8);
        lemma_be_roundtrip(to_unsigned(v[j], 8), 8);
    }
    assert(words64(b) =~= v);
}

/// Each of the first `n` tags of a list that can be written can be written itself.
proof fn lemma_item(v: Seq<Tag>, n: nat, left: nat, i: int)
    requires
        0 <= i < n <= v.len(),
        items_writable(v, n),
        items_return(v, n),
        items_sound(v, n, left),
    ensures
        tag_id(v[i]) == list_id(v),
        tag_id(v[i]) != END_ID,
        writable(v[i]),
        strings_return(v[i]),
        sound(v[i], left),
    decreases n,
{
    if i < n - 1 {
        lemma_item(v, (n - 1) as nat, left, i);
    }
}

/// Each of the first `n` entries of a compound that can be written can be written itself.
proof fn lemma_entry(v: Seq<(Seq<char>, Tag)>, n: nat, left: nat, i: int)
    requires
        0 <= i < n <= v.len(),
        entries_writable(v, n),
        entries_return(v, n),
        entries_sound(v, n, left),
    ensures
        string_fits(v[i].0),
        string_known(v[i].0),
        tag_id(v[i].1) != END_ID,
        writable(v[i].1),
        strings_return(v[i].1),
        sound(v[i].1, left),
    decreases n,
{
    if i < n - 1 {
        lemma_entry(v, (n - 1) as nat, left, i);
    }
}

/// Reading the payload of a tag gives the tag back, whatever stands behind it.
#[verifier::rlimit(60)]
proof fn lemma_payload_returns(t: Tag, left: nat, r: Seq<u8>)
    requires
        writable(t),
        strings_return(t),
        sound(t, left),
    ensures
        read_payload(tag_id(t), left, None, payload_bytes(t) + r, 0) == (TagParse { value: Ok(t), rest: r, used: 0 }),
    decreases t, 0int,
{
    lemma_pow256();
    let b = payload_bytes(t);
    match t {
        Tag::End => {
            assert(b + r =~= r);
        },
        Tag::Byte(v) => lemma_java_signed(v, 1, r),
        Tag::Short(v) => lemma_java_signed(v, 2, r),
        Tag::Int(v) => lemma_java_signed(v, 4, r),
        Tag::Long(v) => lemma_java_signed(v, 8, r),
        Tag::Float(v) => lemma_java_unsigned(v as nat, 4, r),
        Tag::Double(v) => lemma_java_unsigned(v as nat, 8, r),
        Tag::ByteArray(v) => {
            let bytes = i8_bytes(v);
            assert(b + r =~= be_bytes(v.len(), 4) + (bytes + r));
            lemma_java_length(v.len(), bytes + r);
            assert((bytes + r).take(v.len() as int) =~= bytes);
            assert((bytes + r).skip(v.len() as int) =~= r);
            assert(signed_bytes(bytes) =~= v);
        },
        Tag::String(v) => lemma_java_string(v, r),
        Tag::IntArray(v) => {
            assert(b + r =~= be_bytes(v.len(), 4) + (array_bytes(v, 4, 0) + r));
            lemma_java_length(v.len(), array_bytes(v, 4, 0) + r);
            lemma_i32_array(v, r);
        },
        Tag::LongArray(v) => {
            assert(b + r =~= be_bytes(v.len(), 4) + (array_bytes(v, 8, 0) + r));
            lemma_java_length(v.len(), array_bytes(v, 8, 0) + r);
            lemma_i64_array(v, r);
        },
        Tag::List(v) => {
            let items = items_bytes(v, 0) + r;
            let counted = be_bytes(v.len(), 4) + items;
            assert(b + r =~= be_bytes(list_id(v) as nat, 1) + counted);
            lemma_java_unsigned(list_id(v) as nat, 1, counted);
            lemma_java_length(v.len(), items);
            if v.len() > 0 {
                lemma_item(v, v.len(), (left - 1) as nat, 0);
            }
            assert(v.take(0) =~= Seq::<Tag>::empty());
            lemma_items_return(v, 0, (left - 1) as nat, r);
        },
        Tag::Compound(v) => {
            assert(v.take(0) =~= Seq::<(Seq<char>, Tag)>::empty());
            lemma_entries_return(v, 0, (left - 1) as nat, r);
        },
    }
}

proof fn lemma_items_return(v: Seq<Tag>, i: int, left: nat, r: Seq<u8>)
    requires
        0 <= i <= v.len(),
        items_writable(v, v.len()),
        items_return(v, v.len()),
        items_sound(v, v.len(), left),
    ensures
        read_items(list_id(v), (v.len() - i) as nat, left, None, items_bytes(v, i) + r, 0, v.take(i)) == (TagParse {
            value: Ok(Tag::List(v)),
            rest: r,
            used: 0,
        }),
    decreases v, v.len() - i,
{
    if i < v.len() {
        lemma_item(v, v.len(), left, i);
        let behind = items_bytes(v, i + 1) + r;
        assert(items_bytes(v, i) + r =~= payload_bytes(v[i]) + behind);
        lemma_payload_returns(v[i], left, behind);
        assert(v.take(i).push(v[i]) =~= v.take(i + 1));
        lemma_items_return(v, i + 1, left, r);
    } else {
        assert(v.take(i) =~= v);
        assert(items_bytes(v, i) + r =~= r);
    }
}

proof fn lemma_entries_return(v: Seq<(Seq<char>, Tag)>, i: int, left: nat, r: Seq<u8>)
    requires
        0 <= i <= v.len(),
        entries_writable(v, v.len()),
        entries_return(v, v.len()),
        entries_sound(v, v.len(), left),
        keys_distinct(v),
    ensures
        read_entries(left, None, entries_bytes(v, i) + r, 0, v.take(i)) == (TagParse {
            value: Ok(Tag::Compound(v)),
            rest: r,
            used: 0,
        }),
    decreases v, v.len() - i,
{
    lemma_pow256();
    if i < v.len() {
        lemma_entry(v, v.len(), left, i);
        let behind = entries_bytes(v, i + 1) + r;
        let payload = payload_bytes(v[i].1) + behind;
        let named = string_bytes(v[i].0) + payload;
        let id = tag_id(v[i].1);
        let whole = entries_bytes(v, i) + r;
        assert(whole =~= be_bytes(id as nat, 1) + named);
        lemma_be_bytes_len(id as nat, 1);
        lemma_java_unsigned(id as nat, 1, named);
        lemma_java_string(v[i].0, payload);
        lemma_payload_returns(v[i].1, left, behind);
        lemma_key_index(v.take(i), v[i].0);
        assert(key_index(v.take(i), v[i].0) is None) by {
            if key_index(v.take(i), v[i].0) is Some {
                let k = key_index(v.take(i), v[i].0)->0;
                assert(v[k].0 == v[i].0);
            }
        }
        assert(compound_put(v.take(i), v[i].0, v[i].1) =~= v.take(i + 1));
        lemma_entry_shrinks(id, left, None, named, 0, v.take(i));
        lemma_entries_return(v, i + 1, left, r);
    } else {
        assert(v.take(i) =~= v);
        lemma_java_unsigned(END_ID as nat, 1, r);
    }
}

/// Reading a tag: its type, then its payload.
pub open spec fn read_tag(left: nat, quota: Option<nat>, s: Seq<u8>, used: nat) -> TagParse<Tag> {
    match java_unsigned(s, 1) {
        TagRead { value: Err(e), rest } => parse_fail(e, rest, used),
        TagRead { value: Ok(id), rest } => read_payload(id as u8, left, quota, rest, used),
    }
}

/// Reading the bytes of a tag gives the tag back, whatever stands behind them.
pub proof fn lemma_tag_returns(t: Tag, r: Seq<u8>)
    requires
        writable(t),
        strings_return(t),
        sound(t, MAX_TAG_DEPTH as nat),
    ensures
        read_tag(MAX_TAG_DEPTH as nat, None, tag_bytes(t) + r, 0) == (TagParse { value: Ok(t), rest: r, used: 0 }),
{
    lemma_pow256();
    assert(tag_bytes(t) + r =~= be_bytes(tag_id(t) as nat, 1) + (payload_bytes(t) + r));
    lemma_java_unsigned(tag_id(t) as nat, 1, payload_bytes(t) + r);
    lemma_payload_returns(t, MAX_TAG_DEPTH as nat, r);
}

impl NbtTag {
    /// Reads a tag: its type, then its payload.
    pub fn deserialize<D: NbtDataSource>(reader: &mut NbtReadHelperJava<D>) -> (r: Result<NbtTag, NbtError>)
        ensures
            quota_of(final(reader).accounter) == quota_of(old(reader).accounter),
            tag_gives(
                r,
                *final(reader),
                read_tag(
                    MAX_TAG_DEPTH as nat,
                    quota_of(old(reader).accounter),
                    old(reader).reader.remaining(),
                    used_of(old(reader).accounter),
                ),
            ),
    {
        let id: u8 = reader.get_u8()?;
        get_payload(reader, id, MAX_TAG_DEPTH)
    }

    /// Appends a tag: its type, then its payload. Reading gives the tag back, whatever stands
    /// behind it; a tag without a binary form is refused and nothing is appended.
    pub fn serialize(&self, out: &mut Vec<u8>) -> (r: Result<(), WritingError>)
        ensures
            writable(self@) ==> r is Ok && final(out)@ == old(out)@ + tag_bytes(self@),
            !writable(self@) ==> (r matches Err(e) && e@ == wmsg("tag cannot be written")) && final(out)@ == old(out)@,
            r is Ok ==> strings_return(self@),
            r is Ok && sound(self@, MAX_TAG_DEPTH as nat) ==> forall|rest: Seq<u8>|
                read_tag(MAX_TAG_DEPTH as nat, None, #[trigger] (tag_bytes(self@) + rest), 0) == (TagParse {
                    value: Ok(self@),
                    rest,
                    used: 0,
                }),
    {
        let mut bytes: Vec<u8> = Vec::new();
        put_be(&mut bytes, self.get_type_id() as u128, 1);
        if !put_payload(self, &mut bytes) {
            return Err(cannot_write("tag cannot be written"));
        }
        assert(bytes@ =~= tag_bytes(self@));
        put_slice(out, bytes.as_slice());
        proof {
            if sound(self@, MAX_TAG_DEPTH as nat) {
                assert forall|rest: Seq<u8>|
                    read_tag(MAX_TAG_DEPTH as nat, None, #[trigger] (tag_bytes(self@) + rest), 0) == (TagParse {
                        value: Ok(self@),
                        rest,
                        used: 0,
                    }) by {
                    lemma_tag_returns(self@, rest);
                }
            }
        }
        Ok(())
    }
}

impl NbtCompound {
    /// Reads the entries of a compound.
    pub fn deserialize_content<D: NbtDataSource>(reader: &mut NbtReadHelperJava<D>) -> (r: Result<NbtCompound, NbtError>)
        ensures
            quota_of(final(reader).accounter) == quota_of(old(reader).accounter),
            compound_gives(
                r,
                *final(reader),
                read_compound(
                    (MAX_TAG_DEPTH - 1) as nat,
                    quota_of(old(reader).accounter),
                    old(reader).reader.remaining(),
                    used_of(old(reader).accounter),
                ),
            ),
    {
        get_compound(reader, MAX_TAG_DEPTH - 1)
    }
}

} // verus!
