//! Byte-level building blocks: big- and little-endian integers, two's complement and
//! taking bytes off the front of an input slice.
use vstd::prelude::*;
use vstd::slice::slice_subrange;

verus! {

/// `256` to the power `n`.
pub open spec fn pow256(n: nat) -> nat
    decreases n,
{
    if n == 0 {
        1
    } else {
        256 * pow256((n - 1) as nat)
    }
}

/// The `n` low bytes of `v`, most significant first.
pub open spec fn be_bytes(v: nat, n: nat) -> Seq<u8>
    decreases n,
{
    if n == 0 {
        Seq::empty()
    } else {
        be_bytes(v / 256, (n - 1) as nat).push((v % 256) as u8)
    }
}

/// The number that the bytes of `s` write, most significant first.
pub open spec fn from_be(s: Seq<u8>) -> nat
    decreases s.len(),
{
    if s.len() == 0 {
        0
    } else {
        from_be(s.drop_last()) * 256 + s.last() as nat
    }
}

/// The signed number whose two's complement in `n` bytes is `v`.
pub open spec fn to_signed(v: nat, n: nat) -> int {
    if 2 * v < pow256(n) {
        v as int
    } else {
        v - pow256(n)
    }
}

/// The two's complement of `v` in `n` bytes.
pub open spec fn to_unsigned(v: int, n: nat) -> nat {
    if v < 0 {
        (v + pow256(n)) as nat
    } else {
        v as nat
    }
}

/// `v` in two's complement, `n` bytes, most significant first.
pub open spec fn be_signed(v: int, n: nat) -> Seq<u8> {
    be_bytes(to_unsigned(v, n), n)
}

/// The powers of 256 that fixed-width numbers need.
pub proof fn lemma_pow256()
    ensures
        pow256(1) == 0x100,
        pow256(2) == 0x1_0000,
        pow256(4) == 0x1_0000_0000,
        pow256(8) == 0x1_0000_0000_0000_0000,
        pow256(16) == 0x1_0000_0000_0000_0000_0000_0000_0000_0000,
{
    reveal_with_fuel(pow256, 17);
}

/// Powers of 256 grow with their exponents.
pub proof fn lemma_pow256_monotonic(m: nat, n: nat)
    requires
        m <= n,
    ensures
        0 < pow256(m) <= pow256(n),
    decreases n,
{
    if m < n {
        lemma_pow256_monotonic(m, (n - 1) as nat);
    } else if m > 0 {
        lemma_pow256_monotonic((m - 1) as nat, (n - 1) as nat);
    }
}

/// A number has as many bytes as it is asked for.
pub broadcast proof fn lemma_be_bytes_len(v: nat, n: nat)
    ensures
        #[trigger] be_bytes(v, n).len() == n,
    decreases n,
{
    if n > 0 {
        lemma_be_bytes_len(v / 256, (n - 1) as nat);
    }
}

/// Reading the bytes of a number gives the number back.
pub broadcast proof fn lemma_be_roundtrip(v: nat, n: nat)
    requires
        v < pow256(n),
    ensures
        from_be(#[trigger] be_bytes(v, n)) == v,
    decreases n,
{
    if n > 0 {
        let low = be_bytes(v / 256, (n - 1) as nat);
        lemma_be_roundtrip(v / 256, (n - 1) as nat);
        assert(be_bytes(v, n).drop_last() =~= low);
    }
}

/// What some bytes spell is below the power of 256 of their count.
pub proof fn lemma_from_be_bound(s: Seq<u8>)
    ensures
        from_be(s) < pow256(s.len()),
    decreases s.len(),
{
    if s.len() > 0 {
        lemma_from_be_bound(s.drop_last());
    }
}

/// Two's complement loses nothing on the numbers that fit.
pub proof fn lemma_signed_roundtrip(v: int, n: nat)
    requires
        -pow256(n) <= 2 * v < pow256(n),
    ensures
        to_signed(to_unsigned(v, n), n) == v,
        to_unsigned(v, n) < pow256(n),
{
}

/// The signed value of an unsigned 32-bit pattern.
pub fn i32_of_u32(v: u32) -> (r: i32)
    ensures
        r == to_signed(v as nat, 4),
{
    proof {
        lemma_pow256();
    }

    if v < 0x8000_0000 {
        v as i32
    } else {
        (v as i64 - 0x1_0000_0000) as i32
    }
}

/// The bit pattern of a signed 32-bit value.
pub fn u32_of_i32(v: i32) -> (r: u32)
    ensures
        r == to_unsigned(v as int, 4),
{
    proof {
        lemma_pow256();
    }

    if v < 0 {
        (v as i64 + 0x1_0000_0000) as u32
    } else {
        v as u32
    }
}

/// The signed value of an unsigned 64-bit pattern.
pub fn i64_of_u64(v: u64) -> (r: i64)
    ensures
        r == to_signed(v as nat, 8),
{
    proof {
        lemma_pow256();
    }

    if v < 0x8000_0000_0000_0000 {
        v as i64
    } else {
        (v as i128 - 0x1_0000_0000_0000_0000) as i64
    }
}

/// The bit pattern of a signed 64-bit value.
pub fn u64_of_i64(v: i64) -> (r: u64)
    ensures
        r == to_unsigned(v as int, 8),
{
    proof {
        lemma_pow256();
    }

    if v < 0 {
        (v as i128 + 0x1_0000_0000_0000_0000) as u64
    } else {
        v as u64
    }
}

/// The signed value of an unsigned 16-bit pattern.
pub fn i16_of_u16(v: u16) -> (r: i16)
    ensures
        r == to_signed(v as nat, 2),
{
    proof {
        lemma_pow256();
    }

    if v < 0x8000 {
        v as i16
    } else {
        (v as i32 - 0x1_0000) as i16
    }
}

/// The bit pattern of a signed 16-bit value.
pub fn u16_of_i16(v: i16) -> (r: u16)
    ensures
        r == to_unsigned(v as int, 2),
{
    proof {
        lemma_pow256();
    }

    if v < 0 {
        (v as i32 + 0x1_0000) as u16
    } else {
        v as u16
    }
}

/// The signed value of a byte.
pub fn i8_of_u8(v: u8) -> (r: i8)
    ensures
        r == to_signed(v as nat, 1),
{
    proof {
        lemma_pow256();
    }

    if v < 0x80 {
        v as i8
    } else {
        (v as i16 - 0x100) as i8
    }
}

/// The bit pattern of a signed byte.
pub fn u8_of_i8(v: i8) -> (r: u8)
    ensures
        r == to_unsigned(v as int, 1),
{
    proof {
        lemma_pow256();
    }

    if v < 0 {
        (v as i16 + 0x100) as u8
    } else {
        v as u8
    }
}

/// Appends the `n` low bytes of `v`, most significant first.
pub fn put_be(out: &mut Vec<u8>, v: u128, n: usize)
    ensures
        final(out)@ == old(out)@ + be_bytes(v as nat, n as nat),
    decreases n,
{
    if n > 0 {
        put_be(out, v / 256, n - 1);
        out.push((v % 256) as u8);
        assert(out@ =~= old(out)@ + be_bytes(v as nat, n as nat));
    } else {
        assert(out@ =~= old(out)@ + be_bytes(v as nat, n as nat));
    }
}

/// Appends `bytes`.
pub fn put_slice(out: &mut Vec<u8>, bytes: &[u8])
    ensures
        final(out)@ == old(out)@ + bytes@,
{
    let ghost before = out@;
    let mut i: usize = 0;
    while i < bytes.len()
        invariant
            i <= bytes.len(),
            out@ =~= before + bytes@.take(i as int),
        decreases bytes.len() - i,
    {
        out.push(bytes[i]);
        i += 1;
    }
    assert(bytes@.take(i as int) =~= bytes@);
}

/// The number that the bytes of `s` write, most significant first.
pub fn value_be(s: &[u8]) -> (r: u128)
    requires
        s.len() <= 16,
    ensures
        r == from_be(s@),
        r < pow256(s@.len()),
{
    proof {
        lemma_pow256();
    }

    let mut acc: u128 = 0;
    let mut i: usize = 0;
    while i < s.len()
        invariant
            i <= s.len() <= 16,
            acc == from_be(s@.take(i as int)),
        decreases s.len() - i,
    {
        proof {
            let next = s@.take(i + 1);
            assert(next.drop_last() =~= s@.take(i as int));
            assert(from_be(next) == from_be(s@.take(i as int)) * 256 + s@[i as int]);
            lemma_from_be_bound(next);
            lemma_pow256();
            lemma_pow256_monotonic(next.len(), 16);
        }
        acc = acc * 256 + s[i] as u128;
        i += 1;
    }
    assert(s@.take(i as int) =~= s@);
    proof {
        lemma_from_be_bound(s@);
    }
    acc
}

/// Takes the next `n` bytes off the front of the input; too short an input is used up.
pub fn take_slice<'a>(input: &mut &'a [u8], n: usize) -> (r: Option<&'a [u8]>)
    ensures
        old(input)@.len() >= n ==> r is Some && r->0@ == old(input)@.take(n as int) && final(input)@
            == old(input)@.skip(n as int),
        old(input)@.len() < n ==> r is None && final(input)@ == Seq::<u8>::empty(),
{
    let all: &'a [u8] = *input;
    let len: usize = all.len();
    if len < n {
        *input = slice_subrange(all, len, len);
        assert(input@ =~= Seq::<u8>::empty());
        None
    } else {
        let head = slice_subrange(all, 0, n);
        *input = slice_subrange(all, n, len);
        Some(head)
    }
}

/// Bytes may be joined in any order of joining, and nothing may stand before or behind them.
pub proof fn lemma_regroup(a: Seq<u8>, b: Seq<u8>, c: Seq<u8>)
    ensures
        (a + b) + c == a + (b + c),
        Seq::<u8>::empty() + a == a,
        a + Seq::<u8>::empty() == a,
{
    assert((a + b) + c =~= a + (b + c));
    assert(Seq::<u8>::empty() + a =~= a);
    assert(a + Seq::<u8>::empty() =~= a);
}

} // verus!
