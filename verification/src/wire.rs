//! The primitive values of the wire: fixed-width numbers, variable-length numbers, flags and
//! texts, each with the bytes it is written as and what reading gives back.
use vstd::prelude::*;
use vstd::utf8::{decode_utf8, encode_utf8, encode_utf8_decode_utf8, encode_utf8_valid_utf8, valid_utf8};
use crate::bytes::{be_bytes, be_signed, from_be, i16_of_u16, i32_of_u32, i64_of_u64, i8_of_u8, lemma_be_bytes_len, lemma_be_roundtrip, lemma_pow256, lemma_signed_roundtrip, pow256, put_be, put_slice, take_slice, to_signed, to_unsigned, u16_of_i16, u32_of_i32, u64_of_i64, u8_of_i8, value_be};
use crate::errors::{cannot_write, limit_exceeded, message, msg, too_large, wmsg, ReadFault, ReadingError, WritingError};

verus! {

/// What reading gives: a value or an error, and the input that is left.
pub struct Outcome<T> {
    pub value: Result<T, ReadFault>,
    pub rest: Seq<u8>,
}

/// A successful read.
pub open spec fn done<T>(value: T, rest: Seq<u8>) -> Outcome<T> {
    Outcome { value: Ok(value), rest }
}

/// A failed read.
pub open spec fn fail<T>(error: ReadFault, rest: Seq<u8>) -> Outcome<T> {
    Outcome { value: Err(error), rest }
}

/// The bytes that a text may take where no bound is given.
pub const MAX_TEXT_BYTES: usize = 32767;

/// Reading `n` bytes; an input that is too short is used up.
pub open spec fn read_bytes(s: Seq<u8>, n: nat) -> Outcome<Seq<u8>> {
    if s.len() < n {
        fail(ReadFault::Incomplete, Seq::empty())
    } else {
        done(s.take(n as int), s.skip(n as int))
    }
}

/// Reading an unsigned number of `n` bytes.
pub open spec fn read_unsigned(s: Seq<u8>, n: nat) -> Outcome<nat> {
    match read_bytes(s, n) {
        Outcome { value: Ok(b), rest } => done(from_be(b), rest),
        Outcome { value: Err(e), rest } => fail(e, rest),
    }
}

/// Reading a signed number of `n` bytes.
pub open spec fn read_signed(s: Seq<u8>, n: nat) -> Outcome<int> {
    match read_unsigned(s, n) {
        Outcome { value: Ok(v), rest } => done(to_signed(v, n), rest),
        Outcome { value: Err(e), rest } => fail(e, rest),
    }
}

/// Reading a flag: any byte but zero sets it.
pub open spec fn read_bool(s: Seq<u8>) -> Outcome<bool> {
    match read_unsigned(s, 1) {
        Outcome { value: Ok(v), rest } => done(v != 0, rest),
        Outcome { value: Err(e), rest } => fail(e, rest),
    }
}

/// `128` to the power `n`.
pub open spec fn pow128(n: nat) -> nat
    decreases n,
{
    if n == 0 {
        1
    } else {
        128 * pow128((n - 1) as nat)
    }
}

/// Reading a number in groups of seven bits, least significant first, where a set top bit says
/// that another group follows; at most `left` groups are allowed.
pub open spec fn read_groups(s: Seq<u8>, left: nat) -> Outcome<nat>
    decreases left,
{
    if left == 0 {
        fail(too_large("VarInt"), s)
    } else if s.len() == 0 {
        fail(ReadFault::Incomplete, Seq::empty())
    } else if s[0] < 128 {
        done(s[0] as nat, s.skip(1))
    } else {
        match read_groups(s.skip(1), (left - 1) as nat) {
            Outcome { value: Ok(v), rest } => done((s[0] - 128 + 128 * v) as nat, rest),
            Outcome { value: Err(e), rest } => fail(e, rest),
        }
    }
}

/// The groups of seven bits of `v`, least significant first.
pub open spec fn groups(v: nat) -> Seq<u8>
    decreases v,
{
    if v < 128 {
        seq![v as u8]
    } else {
        seq![(128 + v % 128) as u8] + groups(v / 128)
    }
}

/// Reading a variable-length number of 32 bits.
pub open spec fn read_var_int(s: Seq<u8>) -> Outcome<int> {
    match read_groups(s, 5) {
        Outcome { value: Ok(v), rest } => done(to_signed(v % pow256(4), 4), rest),
        Outcome { value: Err(e), rest } => fail(e, rest),
    }
}

/// The variable-length form of a signed number of 32 bits.
pub open spec fn var_int(v: int) -> Seq<u8> {
    groups(to_unsigned(v, 4))
}

/// The count that a signed number stands for where it is used unchecked: a negative one wraps
/// to a number that no input can hold.
pub open spec fn wire_count(v: int) -> nat {
    if v < 0 {
        (v + 0x1_0000_0000_0000_0000) as nat
    } else {
        v as nat
    }
}

/// Reading a text of at most `bound` bytes.
pub open spec fn read_text(s: Seq<u8>, bound: nat) -> Outcome<Seq<char>> {
    match read_var_int(s) {
        Outcome { value: Ok(n), rest } => if wire_count(n) > bound {
            fail(too_large("string"), rest)
        } else {
            match read_bytes(rest, wire_count(n)) {
                Outcome { value: Ok(b), rest } => if valid_utf8(b) {
                    done(decode_utf8(b), rest)
                } else {
                    fail(msg("string is not UTF-8"), rest)
                },
                Outcome { value: Err(e), rest } => fail(e, rest),
            }
        },
        Outcome { value: Err(e), rest } => fail(e, rest),
    }
}

/// Whether a text fits in `bound` bytes.
pub open spec fn text_fits(t: Seq<char>, bound: nat) -> bool {
    encode_utf8(t).len() <= bound
}

/// The wire form of a text: its length in bytes, then its UTF-8 bytes.
pub open spec fn text(t: Seq<char>) -> Seq<u8> {
    var_int(encode_utf8(t).len() as int) + encode_utf8(t)
}

/// The wire form of a flag.
pub open spec fn flag(b: bool) -> Seq<u8> {
    if b {
        seq![1u8]
    } else {
        seq![0u8]
    }
}

/// The powers of 128 that variable-length numbers need.
pub proof fn lemma_pow128()
    ensures
        pow128(5) == 0x8_0000_0000,
        pow128(10) == 0x40_0000_0000_0000_0000,
{
    reveal_with_fuel(pow128, 11);
}

/// Reading back what was written, with `r` behind it.
pub proof fn lemma_read_bytes(b: Seq<u8>, r: Seq<u8>)
    ensures
        read_bytes(b + r, b.len()) == done(b, r),
{
    assert((b + r).take(b.len() as int) =~= b);
    assert((b + r).skip(b.len() as int) =~= r);
}

/// An unsigned number comes back.
pub proof fn lemma_read_unsigned(v: nat, n: nat, r: Seq<u8>)
    requires
        v < pow256(n),
    ensures
        read_unsigned(be_bytes(v, n) + r, n) == done(v, r),
{
    lemma_be_bytes_len(v, n);
    lemma_be_roundtrip(v, n);
    lemma_read_bytes(be_bytes(v, n), r);
}

/// A signed number comes back.
pub proof fn lemma_read_signed(v: int, n: nat, r: Seq<u8>)
    requires
        -pow256(n) <= 2 * v < pow256(n),
    ensures
        read_signed(be_signed(v, n) + r, n) == done(v, r),
{
    lemma_signed_roundtrip(v, n);
    lemma_read_unsigned(to_unsigned(v, n), n, r);
}

/// A truth value comes back.
pub proof fn lemma_read_bool(b: bool, r: Seq<u8>)
    ensures
        read_bool(flag(b) + r) == done(b, r),
{
    lemma_pow256();
    let v: nat = if b { 1 } else { 0 };
    reveal_with_fuel(be_bytes, 2);
    assert(be_bytes(v, 1) =~= flag(b));
    lemma_read_unsigned(v, 1, r);
}

/// A number in groups of seven bits comes back.
pub proof fn lemma_read_groups(v: nat, left: nat, r: Seq<u8>)
    requires
        v < pow128(left),
        left > 0,
    ensures
        read_groups(groups(v) + r, left) == done(v, r),
    decreases left,
{
    reveal_with_fuel(pow128, 3);
    if v < 128 {
        assert((groups(v) + r).skip(1) =~= r);
    } else {
        let tail = groups(v / 128);
        lemma_read_groups(v / 128, (left - 1) as nat, r);
        assert((groups(v) + r).skip(1) =~= tail + r);
    }
}

/// A variable-length number comes back.
pub proof fn lemma_read_var_int(v: int, r: Seq<u8>)
    requires
        i32::MIN <= v <= i32::MAX,
    ensures
        read_var_int(var_int(v) + r) == done(v, r),
{
    lemma_pow256();
    lemma_pow128();
    lemma_signed_roundtrip(v, 4);
    lemma_read_groups(to_unsigned(v, 4), 5, r);
}

/// A text comes back.
pub proof fn lemma_read_text(t: Seq<char>, bound: nat, r: Seq<u8>)
    requires
        text_fits(t, bound),
        bound <= i32::MAX,
    ensures
        read_text(text(t) + r, bound) == done(t, r),
{
    let b = encode_utf8(t);
    assert(text(t) + r =~= var_int(b.len() as int) + (b + r));
    lemma_read_var_int(b.len() as int, b + r);
    lemma_read_bytes(b, r);
    encode_utf8_valid_utf8(t);
    encode_utf8_decode_utf8(t);
}

/// What `String::from_utf8` of std gives: the text whose UTF-8 bytes are `bytes`, or nothing
/// where they are no UTF-8.
#[verifier::external_body]
fn string_from_utf8(bytes: Vec<u8>) -> (r: Option<String>)
    ensures
        valid_utf8(bytes@) ==> r is Some && r->0@ == decode_utf8(bytes@),
        !valid_utf8(bytes@) ==> r is None,
{
    String::from_utf8(bytes).ok()
}

/// A copy of a byte slice.
pub fn to_vec(s: &[u8]) -> (r: Vec<u8>)
    ensures
        r@ == s@,
{
    let mut v: Vec<u8> = Vec::new();
    put_slice(&mut v, s);
    assert(v@ =~= s@);
    v
}

/// The text that UTF-8 bytes spell.
pub fn text_of_utf8(s: &[u8]) -> (r: Option<String>)
    ensures
        valid_utf8(s@) ==> r is Some && r->0@ == decode_utf8(s@),
        !valid_utf8(s@) ==> r is None,
{
    string_from_utf8(to_vec(s))
}

/// Reads `n` bytes.
pub fn get_bytes<'a>(seq: &mut &'a [u8], n: usize) -> (r: Result<&'a [u8], ReadingError>)
    ensures
        r matches Ok(b) ==> read_bytes(old(seq)@, n as nat) == done(b@, final(seq)@),
        r matches Err(e) ==> read_bytes(old(seq)@, n as nat) == fail::<Seq<u8>>(e@, final(seq)@),
{
    match take_slice(seq, n) {
        Some(b) => Ok(b),
        None => Err(ReadingError::Incomplete),
    }
}

/// Reads an unsigned number of `n` bytes.
pub fn get_unsigned(seq: &mut &[u8], n: usize) -> (r: Result<u128, ReadingError>)
    requires
        n <= 16,
    ensures
        r matches Ok(v) ==> read_unsigned(old(seq)@, n as nat) == done(v as nat, final(seq)@) && v < pow256(n as nat),
        r matches Err(e) ==> read_unsigned(old(seq)@, n as nat) == fail::<nat>(e@, final(seq)@),
{
    let b = get_bytes(seq, n)?;
    Ok(value_be(b))
}

/// Reads a byte.
pub fn get_u8(seq: &mut &[u8]) -> (r: Result<u8, ReadingError>)
    ensures
        r matches Ok(v) ==> read_unsigned(old(seq)@, 1) == done(v as nat, final(seq)@),
        r matches Err(e) ==> read_unsigned(old(seq)@, 1) == fail::<nat>(e@, final(seq)@),
{
    proof {
        lemma_pow256();
    }
    Ok(get_unsigned(seq, 1)? as u8)
}

/// Reads a signed byte.
pub fn get_i8(seq: &mut &[u8]) -> (r: Result<i8, ReadingError>)
    ensures
        r matches Ok(v) ==> read_signed(old(seq)@, 1) == done(v as int, final(seq)@),
        r matches Err(e) ==> read_signed(old(seq)@, 1) == fail::<int>(e@, final(seq)@),
{
    Ok(i8_of_u8(get_u8(seq)?))
}

/// Reads a signed number of two bytes.
pub fn get_i16_be(seq: &mut &[u8]) -> (r: Result<i16, ReadingError>)
    ensures
        r matches Ok(v) ==> read_signed(old(seq)@, 2) == done(v as int, final(seq)@),
        r matches Err(e) ==> read_signed(old(seq)@, 2) == fail::<int>(e@, final(seq)@),
{
    proof {
        lemma_pow256();
    }
    Ok(i16_of_u16(get_unsigned(seq, 2)? as u16))
}

/// Reads a number of four bytes: an unsigned one or the bit pattern of a floating-point one.
pub fn get_u32(seq: &mut &[u8]) -> (r: Result<u32, ReadingError>)
    ensures
        r matches Ok(v) ==> read_unsigned(old(seq)@, 4) == done(v as nat, final(seq)@),
        r matches Err(e) ==> read_unsigned(old(seq)@, 4) == fail::<nat>(e@, final(seq)@),
{
    proof {
        lemma_pow256();
    }
    Ok(get_unsigned(seq, 4)? as u32)
}

/// Reads a signed number of four bytes.
pub fn get_i32(seq: &mut &[u8]) -> (r: Result<i32, ReadingError>)
    ensures
        r matches Ok(v) ==> read_signed(old(seq)@, 4) == done(v as int, final(seq)@),
        r matches Err(e) ==> read_signed(old(seq)@, 4) == fail::<int>(e@, final(seq)@),
{
    Ok(i32_of_u32(get_u32(seq)?))
}

/// Reads a number of eight bytes: an unsigned one or the bit pattern of a floating-point one.
pub fn get_u64(seq: &mut &[u8]) -> (r: Result<u64, ReadingError>)
    ensures
        r matches Ok(v) ==> read_unsigned(old(seq)@, 8) == done(v as nat, final(seq)@),
        r matches Err(e) ==> read_unsigned(old(seq)@, 8) == fail::<nat>(e@, final(seq)@),
{
    proof {
        lemma_pow256();
    }
    Ok(get_unsigned(seq, 8)? as u64)
}

/// Reads a signed number of eight bytes.
pub fn get_i64_be(seq: &mut &[u8]) -> (r: Result<i64, ReadingError>)
    ensures
        r matches Ok(v) ==> read_signed(old(seq)@, 8) == done(v as int, final(seq)@),
        r matches Err(e) ==> read_signed(old(seq)@, 8) == fail::<int>(e@, final(seq)@),
{
    Ok(i64_of_u64(get_u64(seq)?))
}

/// Reads a flag.
pub fn get_bool(seq: &mut &[u8]) -> (r: Result<bool, ReadingError>)
    ensures
        r matches Ok(v) ==> read_bool(old(seq)@) == done(v, final(seq)@),
        r matches Err(e) ==> read_bool(old(seq)@) == fail::<bool>(e@, final(seq)@),
{
    Ok(get_u8(seq)? != 0)
}

/// Reads up to `left` groups of seven bits.
pub fn get_groups(seq: &mut &[u8], left: usize) -> (r: Result<u128, ReadingError>)
    requires
        left <= 10,
    ensures
        r matches Ok(v) ==> read_groups(old(seq)@, left as nat) == done(v as nat, final(seq)@) && v < pow128(left as nat),
        r matches Err(e) ==> read_groups(old(seq)@, left as nat) == fail::<nat>(e@, final(seq)@),
    decreases left,
{
    if left == 0 {
        return Err(limit_exceeded("VarInt"));
    }
    match take_slice(seq, 1) {
        None => {
            Err(ReadingError::Incomplete)
        },
        Some(b) => {
            let first: u8 = b[0];
            proof {
                reveal_with_fuel(pow128, 11);
            }
            if first < 128 {
                Ok(first as u128)
            } else {
                let high: u128 = get_groups(seq, left - 1)?;
                Ok(first as u128 - 128 + 128 * high)
            }
        },
    }
}

/// Reads a variable-length number of 32 bits.
pub fn get_var_int(seq: &mut &[u8]) -> (r: Result<i32, ReadingError>)
    ensures
        r matches Ok(v) ==> read_var_int(old(seq)@) == done(v as int, final(seq)@),
        r matches Err(e) ==> read_var_int(old(seq)@) == fail::<int>(e@, final(seq)@),
{
    proof {
        lemma_pow256();
    }
    let v: u128 = get_groups(seq, 5)?;
    Ok(i32_of_u32((v % 0x1_0000_0000) as u32))
}

/// The count that a signed number stands for where it is used unchecked.
pub fn count_of(v: i32) -> (r: u64)
    ensures
        r == wire_count(v as int),
{
    if v < 0 {
        (v as i128 + 0x1_0000_0000_0000_0000) as u64
    } else {
        v as u64
    }
}

/// Reads a text of at most `bound` bytes.
pub fn get_str_bounded(seq: &mut &[u8], bound: usize) -> (r: Result<String, ReadingError>)
    ensures
        r matches Ok(v) ==> read_text(old(seq)@, bound as nat) == done(v@, final(seq)@),
        r matches Err(e) ==> read_text(old(seq)@, bound as nat) == fail::<Seq<char>>(e@, final(seq)@),
{
    let n: u64 = count_of(get_var_int(seq)?);
    if n > bound as u64 {
        return Err(limit_exceeded("string"));
    }
    let b = get_bytes(seq, n as usize)?;
    match text_of_utf8(b) {
        Some(t) => Ok(t),
        None => Err(message("string is not UTF-8")),
    }
}

/// Reads a text.
pub fn get_str(seq: &mut &[u8]) -> (r: Result<String, ReadingError>)
    ensures
        r matches Ok(v) ==> read_text(old(seq)@, MAX_TEXT_BYTES as nat) == done(v@, final(seq)@),
        r matches Err(e) ==> read_text(old(seq)@, MAX_TEXT_BYTES as nat) == fail::<Seq<char>>(e@, final(seq)@),
{
    get_str_bounded(seq, MAX_TEXT_BYTES)
}

/// Appends the groups of seven bits of `v`.
pub fn put_groups(out: &mut Vec<u8>, v: u64)
    ensures
        final(out)@ == old(out)@ + groups(v as nat),
    decreases v,
{
    let ghost before = out@;
    if v < 128 {
        out.push(v as u8);
        assert(out@ =~= before + groups(v as nat));
    } else {
        out.push((128 + v % 128) as u8);
        put_groups(out, v / 128);
        assert(out@ =~= before + groups(v as nat));
    }
}

/// Appends a variable-length number of 32 bits.
pub fn write_var_int(out: &mut Vec<u8>, v: i32)
    ensures
        final(out)@ == old(out)@ + var_int(v as int),
{
    put_groups(out, u32_of_i32(v) as u64);
}

/// Appends a byte.
pub fn write_u8(out: &mut Vec<u8>, v: u8)
    ensures
        final(out)@ == old(out)@ + be_bytes(v as nat, 1),
{
    put_be(out, v as u128, 1);
}

/// Appends a signed byte.
pub fn write_i8(out: &mut Vec<u8>, v: i8)
    ensures
        final(out)@ == old(out)@ + be_signed(v as int, 1),
{
    put_be(out, u8_of_i8(v) as u128, 1);
}

/// Appends a signed number of two bytes.
pub fn write_i16_be(out: &mut Vec<u8>, v: i16)
    ensures
        final(out)@ == old(out)@ + be_signed(v as int, 2),
{
    put_be(out, u16_of_i16(v) as u128, 2);
}

/// Appends a number of four bytes.
pub fn write_u32(out: &mut Vec<u8>, v: u32)
    ensures
        final(out)@ == old(out)@ + be_bytes(v as nat, 4),
{
    put_be(out, v as u128, 4);
}

/// Appends a signed number of four bytes.
pub fn write_i32(out: &mut Vec<u8>, v: i32)
    ensures
        final(out)@ == old(out)@ + be_signed(v as int, 4),
{
    put_be(out, u32_of_i32(v) as u128, 4);
}

/// Appends a number of eight bytes.
pub fn write_u64(out: &mut Vec<u8>, v: u64)
    ensures
        final(out)@ == old(out)@ + be_bytes(v as nat, 8),
{
    put_be(out, v as u128, 8);
}

/// Appends a signed number of eight bytes.
pub fn write_i64_be(out: &mut Vec<u8>, v: i64)
    ensures
        final(out)@ == old(out)@ + be_signed(v as int, 8),
{
    put_be(out, u64_of_i64(v) as u128, 8);
}

/// Appends a flag.
pub fn write_bool(out: &mut Vec<u8>, v: bool)
    ensures
        final(out)@ == old(out)@ + flag(v),
{
    let ghost before = out@;
    if v {
        out.push(1);
    } else {
        out.push(0);
    }
    assert(out@ =~= before + flag(v));
}

/// Appends a text of at most `bound` bytes; a longer one is refused and nothing is written.
pub fn write_string_bounded(out: &mut Vec<u8>, t: &str, bound: usize) -> (r: Result<(), WritingError>)
    requires
        bound <= i32::MAX,
    ensures
        text_fits(t@, bound as nat) ==> r == Ok::<(), WritingError>(()) && final(out)@ == old(out)@ + text(t@),
        !text_fits(t@, bound as nat) ==> (r matches Err(e) && e@ == wmsg("string is too long")) && final(out)@ == old(out)@,
{
    let b: &[u8] = t.as_bytes();
    let n: usize = b.len();
    if n > bound {
        return Err(cannot_write("string is too long"));
    }
    let ghost before = out@;
    write_var_int(out, n as i32);
    put_slice(out, b);
    assert(out@ =~= before + text(t@));
    Ok(())
}

/// Appends a text.
pub fn write_string(out: &mut Vec<u8>, t: &str) -> (r: Result<(), WritingError>)
    ensures
        text_fits(t@, MAX_TEXT_BYTES as nat) ==> r == Ok::<(), WritingError>(()) && final(out)@ == old(out)@ + text(t@),
        !text_fits(t@, MAX_TEXT_BYTES as nat) ==> (r matches Err(e) && e@ == wmsg("string is too long")) && final(out)@
            == old(out)@,
{
    write_string_bounded(out, t, MAX_TEXT_BYTES)
}

} // verus!
