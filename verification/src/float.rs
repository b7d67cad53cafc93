//! Floating-point numbers by their bit patterns: what integer one truncates to, and which one is
//! nearest to a number.
use vstd::arithmetic::power2::{lemma_pow2_pos, lemma_pow2_strictly_increases, lemma_pow2_unfold, pow2};
use vstd::prelude::*;
use crate::same::float_nan;

verus! {

/// One more than the largest fraction of a floating-point number of `n` bytes.
pub open spec fn fraction_size(n: nat) -> int {
    if n == 4 {
        0x80_0000
    } else {
        0x10_0000_0000_0000
    }
}

/// The exponent of the last place of the smallest numbers.
pub open spec fn least_exponent(n: nat) -> int {
    if n == 4 {
        -149
    } else {
        -1074
    }
}

/// The bit pattern of infinity.
pub open spec fn infinity(n: nat) -> int {
    if n == 4 {
        0x7f80_0000
    } else {
        0x7ff0_0000_0000_0000
    }
}

/// The bit of the sign.
pub open spec fn sign_bit(n: nat) -> int {
    if n == 4 {
        0x8000_0000
    } else {
        0x8000_0000_0000_0000
    }
}

/// The bit pattern without the sign.
pub open spec fn magnitude(n: nat, bits: int) -> int {
    bits % sign_bit(n)
}

/// The integer whose multiple by a power of two a finite number is.
pub open spec fn significand(n: nat, bits: int) -> nat {
    let m = magnitude(n, bits);
    if m < fraction_size(n) {
        m as nat
    } else {
        (m % fraction_size(n) + fraction_size(n)) as nat
    }
}

/// The exponent of that power of two.
pub open spec fn exponent(n: nat, bits: int) -> int {
    let m = magnitude(n, bits);
    if m < fraction_size(n) {
        least_exponent(n)
    } else {
        m / fraction_size(n) - 1 + least_exponent(n)
    }
}

/// `a` times two to the power `e`, without what is behind the point.
pub open spec fn scaled(a: nat, e: int) -> nat {
    if e >= 0 {
        a * pow2(e as nat)
    } else {
        a / pow2((-e) as nat)
    }
}

/// The number nearest to `v` between two bounds.
pub open spec fn clamp(v: int, lo: int, hi: int) -> int {
    if v < lo {
        lo
    } else if v > hi {
        hi
    } else {
        v
    }
}

/// The integer that a number truncates to between two bounds; zero for what is not a number.
pub open spec fn float_to_int(n: nat, bits: int, lo: int, hi: int) -> int {
    if float_nan(n, bits) {
        0
    } else if magnitude(n, bits) == infinity(n) {
        if bits >= sign_bit(n) {
            lo
        } else {
            hi
        }
    } else if bits >= sign_bit(n) {
        clamp(-(scaled(significand(n, bits), exponent(n, bits)) as int), lo, hi)
    } else {
        clamp(scaled(significand(n, bits), exponent(n, bits)) as int, lo, hi)
    }
}

/// Two to the power `e`.
fn power_of_two(e: u32) -> (r: u128)
    requires
        e <= 64,
    ensures
        r == pow2(e as nat),
        r <= 0x1_0000_0000_0000_0000,
{
    let mut r: u128 = 1;
    let mut i: u32 = 0;
    proof {
        vstd::arithmetic::power2::lemma2_to64();
    }
    while i < e
        invariant
            i <= e <= 64,
            r == pow2(i as nat),
            pow2(64) == 0x1_0000_0000_0000_0000,
            r <= 0x1_0000_0000_0000_0000,
        decreases e - i,
    {
        proof {
            lemma_pow2_unfold((i + 1) as nat);
            if i + 1 < 64 {
                lemma_pow2_strictly_increases((i + 1) as nat, 64);
            }
        }
        r = 2 * r;
        i += 1;
    }
    r
}

/// The integer that a number truncates to between two bounds.
fn truncate(wide: bool, bits: u64, lo: i64, hi: i64) -> (r: i64)
    requires
        !wide ==> bits <= 0xffff_ffff,
        lo <= 0 <= hi,
    ensures
        r == float_to_int(if wide { 8 } else { 4 }, bits as int, lo as int, hi as int),
{
    let ghost n: nat = if wide {
        8
    } else {
        4
    };
    let sign: u64 = if wide {
        0x8000_0000_0000_0000
    } else {
        0x8000_0000
    };
    let size: u64 = if wide {
        0x10_0000_0000_0000
    } else {
        0x80_0000
    };
    let inf: u64 = if wide {
        0x7ff0_0000_0000_0000
    } else {
        0x7f80_0000
    };
    let least: i64 = if wide {
        -1074
    } else {
        -149
    };
    let m: u64 = bits % sign;
    let negative: bool = bits >= sign;
    if m > inf {
        return 0;
    }
    if m == inf {
        return if negative {
            lo
        } else {
            hi
        };
    }
    let a: u64 = if m < size {
        m
    } else {
        m % size + size
    };
    let e: i64 = if m < size {
        least
    } else {
        (m / size) as i64 - 1 + least
    };
    assert(a == significand(n, bits as int) && e == exponent(n, bits as int));
    let v: u128 = if e >= 0 {
        if e > 64 {
            proof {
                assert(m >= size && a >= 1);
                lemma_pow2_strictly_increases(64, e as nat);
                vstd::arithmetic::power2::lemma2_to64();
                assert(a * pow2(e as nat) >= pow2(e as nat)) by (nonlinear_arith)
                    requires
                        a >= 1,
                ;
            }
            return if negative {
                lo
            } else {
                hi
            };
        }
        let p: u128 = power_of_two(e as u32);
        assert(a as u128 * p <= 0xffff_ffff_ffff_ffff * 0x1_0000_0000_0000_0000) by (nonlinear_arith)
            requires
                a <= 0xffff_ffff_ffff_ffff,
                p <= 0x1_0000_0000_0000_0000,
        ;
        a as u128 * p
    } else if e < -64 {
        proof {
            lemma_pow2_strictly_increases(64, (-e) as nat);
            vstd::arithmetic::power2::lemma2_to64();
            vstd::arithmetic::div_mod::lemma_basic_div(a as int, pow2((-e) as nat) as int);
        }
        0
    } else {
        let p: u128 = power_of_two((-e) as u32);
        proof {
            lemma_pow2_pos((-e) as nat);
        }
        a as u128 / p
    };
    assert(v == scaled(a as nat, e as int));
    if negative {
        if v > -(lo as i128) as u128 {
            lo
        } else {
            (-(v as i128)) as i64
        }
    } else if v > hi as u128 {
        hi
    } else {
        v as i64
    }
}

/// The 32-bit integer that a 32-bit number truncates to.
pub fn f32_to_i32(bits: u32) -> (r: i32)
    ensures
        r == float_to_int(4, bits as int, i32::MIN as int, i32::MAX as int),
{
    truncate(false, bits as u64, -0x8000_0000, 0x7fff_ffff) as i32
}

/// The 32-bit integer that a 64-bit number truncates to.
pub fn f64_to_i32(bits: u64) -> (r: i32)
    ensures
        r == float_to_int(8, bits as int, i32::MIN as int, i32::MAX as int),
{
    truncate(true, bits, -0x8000_0000, 0x7fff_ffff) as i32
}

/// The 64-bit integer that a 32-bit number truncates to.
pub fn f32_to_i64(bits: u32) -> (r: i64)
    ensures
        r == float_to_int(4, bits as int, i64::MIN as int, i64::MAX as int),
{
    truncate(false, bits as u64, i64::MIN, i64::MAX)
}

/// The 64-bit integer that a 64-bit number truncates to.
pub fn f64_to_i64(bits: u64) -> (r: i64)
    ensures
        r == float_to_int(8, bits as int, i64::MIN as int, i64::MAX as int),
{
    truncate(true, bits, i64::MIN, i64::MAX)
}

/// How many bits `a` has.
pub open spec fn bit_length(a: nat) -> nat
    decreases a,
{
    if a == 0 {
        0
    } else {
        1 + bit_length(a / 2)
    }
}

/// `a` divided by `d`, rounded to the nearest integer and to the even one of two.
pub open spec fn round_even(a: nat, d: nat) -> nat {
    let q = a / d;
    let r = a % d;
    if 2 * r < d {
        q
    } else if 2 * r > d {
        q + 1
    } else {
        q + q % 2
    }
}

/// How many bits a significand has.
pub open spec fn precision(n: nat) -> int {
    if n == 4 {
        24
    } else {
        53
    }
}

/// The exponent of the last place of the number nearest to `a` times two to the power `e`.
pub open spec fn last_place_exponent(n: nat, a: nat, e: int) -> int {
    let q = e + bit_length(a) - precision(n);
    if q > least_exponent(n) {
        q
    } else {
        least_exponent(n)
    }
}

/// The bit pattern, without the sign, of the number nearest to `a` times two to the power `e`.
pub open spec fn nearest(n: nat, a: nat, e: int) -> int {
    let q = last_place_exponent(n, a, e);
    let m = (q - least_exponent(n)) * fraction_size(n) + in_places(a, e, q);
    if a == 0 {
        0
    } else if m >= infinity(n) {
        infinity(n)
    } else {
        m
    }
}

/// The bit pattern of a number with a sign.
pub open spec fn with_sign(n: nat, negative: bool, m: int) -> int {
    if negative {
        m + sign_bit(n)
    } else {
        m
    }
}

/// The number of `n` bytes nearest to an integer.
pub open spec fn float_of_int(n: nat, v: int) -> int {
    if v < 0 {
        with_sign(n, true, nearest(n, (-v) as nat, 0))
    } else {
        nearest(n, v as nat, 0)
    }
}

/// The number of `n` bytes nearest to a number of `m` bytes.
pub open spec fn float_of_float(n: nat, m: nat, bits: int) -> int {
    let negative = bits >= sign_bit(m);
    if float_nan(m, bits) {
        // The fraction keeps its first places, and the first of them is set.
        let fraction = magnitude(m, bits) % fraction_size(m);
        let kept = if n == m {
            fraction
        } else if n == 8 {
            fraction * 0x2000_0000
        } else {
            fraction / 0x2000_0000
        };
        with_sign(n, negative, infinity(n) + (if kept < fraction_size(n) / 2 { kept + fraction_size(n) / 2 } else { kept }))
    } else if magnitude(m, bits) == infinity(m) {
        with_sign(n, negative, infinity(n))
    } else {
        with_sign(n, negative, nearest(n, significand(m, bits), exponent(m, bits)))
    }
}

pub(crate) proof fn lemma_bit_length(a: nat, l: nat)
    requires
        a < pow2(l),
    ensures
        bit_length(a) <= l,
    decreases l,
{
    if a > 0 {
        if l == 0 {
            vstd::arithmetic::power2::lemma2_to64();
        } else {
            lemma_pow2_unfold(l);
            lemma_bit_length(a / 2, (l - 1) as nat);
        }
    }
}

pub(crate) proof fn lemma_bit_length_bounds(a: nat)
    ensures
        a < pow2(bit_length(a)),
        a > 0 ==> bit_length(a) > 0 && a >= pow2((bit_length(a) - 1) as nat),
    decreases a,
{
    vstd::arithmetic::power2::lemma2_to64();
    if a > 0 {
        lemma_bit_length_bounds(a / 2);
        let l = bit_length(a);
        lemma_pow2_unfold(l);
        if a / 2 > 0 {
            lemma_pow2_unfold((l - 1) as nat);
        } else {
            assert(bit_length(0) == 0);
        }
    }
}

fn count_bits(a: u64) -> (r: u32)
    ensures
        r == bit_length(a as nat),
        r <= 64,
{
    let mut rest: u64 = a;
    let mut r: u32 = 0;
    proof {
        vstd::arithmetic::power2::lemma2_to64();
        lemma_bit_length(a as nat, 64);
    }
    while rest > 0
        invariant
            r + bit_length(rest as nat) == bit_length(a as nat),
            bit_length(a as nat) <= 64,
        decreases rest,
    {
        rest = rest / 2;
        r += 1;
    }
    r
}

proof fn lemma_rounds_to_zero(a: nat, l: nat, s: nat)
    requires
        a < pow2(l),
        l < s,
    ensures
        round_even(a, pow2(s)) == 0,
{
    lemma_pow2_unfold(s);
    lemma_pow2_pos(s);
    if l < s - 1 {
        lemma_pow2_strictly_increases(l, (s - 1) as nat);
    }
    vstd::arithmetic::div_mod::lemma_basic_div(a as int, pow2(s) as int);
    vstd::arithmetic::div_mod::lemma_small_mod(a, pow2(s));
}

proof fn lemma_round_bound(a: nat, s: nat, l: nat, p: nat)
    requires
        a < pow2(l),
        l <= s + p,
    ensures
        round_even(a, pow2(s)) <= pow2(p),
{
    lemma_pow2_pos(s);
    vstd::arithmetic::power2::lemma_pow2_adds(s, p);
    if l < s + p {
        lemma_pow2_strictly_increases(l, s + p);
    }
    let d = pow2(s);
    let q = a / d;
    assert(a < d * pow2(p));
    assert(q < pow2(p)) by (nonlinear_arith)
        requires
            q == a / d,
            a < d * pow2(p),
            d > 0,
    ;
}

/// `a` times two to the power `e`, in units of two to the power `q`.
pub open spec fn in_places(a: nat, e: int, q: int) -> nat {
    if q <= e {
        a * pow2((e - q) as nat)
    } else {
        round_even(a, pow2((q - e) as nat))
    }
}

fn count_places(a: u64, len: u32, e: i64, q: i64, prec: u32) -> (r: u64)
    requires
        a > 0,
        len == bit_length(a as nat),
        len <= 64,
        prec <= 53,
        -5000 <= e <= 5000,
        -5000 <= q <= 5000,
        e + len - prec <= q,
    ensures
        r == in_places(a as nat, e as int, q as int),
        r <= pow2(prec as nat),
{
    proof {
        lemma_bit_length_bounds(a as nat);
        vstd::arithmetic::power2::lemma2_to64();
        vstd::arithmetic::power2::lemma2_to64_rest();
        if prec < 53 {
            lemma_pow2_strictly_increases(prec as nat, 53);
        }
    }
    if q <= e {
        let s: u32 = (e - q) as u32;
        let p: u128 = power_of_two(s);
        proof {
            vstd::arithmetic::power2::lemma_pow2_adds(len as nat, s as nat);
            assert(a as nat * pow2(s as nat) < pow2(len as nat) * pow2(s as nat)) by (nonlinear_arith)
                requires
                    (a as nat) < pow2(len as nat),
                    pow2(s as nat) > 0,
            ;
            if len + s < prec {
                lemma_pow2_strictly_increases((len + s) as nat, prec as nat);
            }
        }
        (a as u128 * p) as u64
    } else {
        let s: i64 = q - e;
        if s > len as i64 {
            proof {
                lemma_rounds_to_zero(a as nat, len as nat, s as nat);
            }
            0
        } else {
            let d: u128 = power_of_two(s as u32);
            proof {
                lemma_round_bound(a as nat, s as nat, len as nat, prec as nat);
                lemma_pow2_pos(s as nat);
            }
            let quotient: u128 = a as u128 / d;
            let remainder: u128 = a as u128 % d;
            assert(quotient <= a) by (nonlinear_arith)
                requires
                    quotient == a as u128 / d,
                    d > 0,
            ;
            let rounded: u128 = if 2 * remainder < d {
                quotient
            } else if 2 * remainder > d {
                quotient + 1
            } else {
                quotient + quotient % 2
            };
            rounded as u64
        }
    }
}

/// The bit pattern, without the sign, of the number nearest to `a` times two to the power `e`.
fn nearest_bits(wide: bool, a: u64, e: i64) -> (r: u64)
    requires
        -2000 <= e <= 2000,
    ensures
        r == nearest(if wide { 8 } else { 4 }, a as nat, e as int),
        r <= infinity(if wide { 8 } else { 4 }),
{
    if a == 0 {
        return 0;
    }
    let len: u32 = count_bits(a);
    if wide {
        let top: i64 = e + len as i64 - 53;
        let q: i64 = if top > -1074 {
            top
        } else {
            -1074
        };
        let places: u64 = count_places(a, len, e, q, 53);
        let m: u128 = (q + 1074) as u128 * 0x10_0000_0000_0000 + places as u128;
        if m >= 0x7ff0_0000_0000_0000 {
            0x7ff0_0000_0000_0000
        } else {
            m as u64
        }
    } else {
        let top: i64 = e + len as i64 - 24;
        let q: i64 = if top > -149 {
            top
        } else {
            -149
        };
        let places: u64 = count_places(a, len, e, q, 24);
        let m: u128 = (q + 149) as u128 * 0x80_0000 + places as u128;
        if m >= 0x7f80_0000 {
            0x7f80_0000
        } else {
            m as u64
        }
    }
}

fn signed_bits(wide: bool, negative: bool, m: u64) -> (r: u64)
    requires
        m <= infinity(if wide { 8 } else { 4 }),
    ensures
        r == with_sign(if wide { 8 } else { 4 }, negative, m as int),
        !wide ==> r <= 0xffff_ffff,
{
    if negative {
        if wide {
            m + 0x8000_0000_0000_0000
        } else {
            m + 0x8000_0000
        }
    } else {
        m
    }
}

/// The size of a number.
fn absolute(v: i64) -> (r: u64)
    ensures
        r == (if v < 0 { -v } else { v as int }),
{
    if v < 0 {
        (-(v as i128)) as u64
    } else {
        v as u64
    }
}

/// The 64-bit number nearest to an integer.
pub fn f64_of_int(v: i64) -> (r: u64)
    ensures
        r == float_of_int(8, v as int),
{
    signed_bits(true, v < 0, nearest_bits(true, absolute(v), 0))
}

/// The 32-bit number nearest to an integer.
pub fn f32_of_int(v: i64) -> (r: u32)
    ensures
        r == float_of_int(4, v as int),
{
    signed_bits(false, v < 0, nearest_bits(false, absolute(v), 0)) as u32
}

/// The 64-bit number that a 32-bit number is.
pub fn f64_of_f32(bits: u32) -> (r: u64)
    ensures
        r == float_of_float(8, 4, bits as int),
{
    let negative: bool = bits >= 0x8000_0000;
    let m: u32 = bits % 0x8000_0000;
    if m > 0x7f80_0000 {
        let kept: u64 = (m % 0x80_0000) as u64 * 0x2000_0000;
        let fraction: u64 = if kept < 0x8_0000_0000_0000 {
            kept + 0x8_0000_0000_0000
        } else {
            kept
        };
        return if negative {
            0xfff0_0000_0000_0000 + fraction
        } else {
            0x7ff0_0000_0000_0000 + fraction
        };
    }
    if m == 0x7f80_0000 {
        return signed_bits(true, negative, 0x7ff0_0000_0000_0000);
    }
    let a: u64 = if m < 0x80_0000 {
        m as u64
    } else {
        (m % 0x80_0000 + 0x80_0000) as u64
    };
    let e: i64 = if m < 0x80_0000 {
        -149
    } else {
        (m / 0x80_0000) as i64 - 150
    };
    signed_bits(true, negative, nearest_bits(true, a, e))
}

/// The 32-bit number nearest to a 64-bit number.
pub fn f32_of_f64(bits: u64) -> (r: u32)
    ensures
        r == float_of_float(4, 8, bits as int),
{
    let negative: bool = bits >= 0x8000_0000_0000_0000;
    let m: u64 = bits % 0x8000_0000_0000_0000;
    if m > 0x7ff0_0000_0000_0000 {
        let kept: u64 = (m % 0x10_0000_0000_0000) / 0x2000_0000;
        let fraction: u64 = if kept < 0x40_0000 {
            kept + 0x40_0000
        } else {
            kept
        };
        return if negative {
            (0xff80_0000 + fraction) as u32
        } else {
            (0x7f80_0000 + fraction) as u32
        };
    }
    if m == 0x7ff0_0000_0000_0000 {
        return signed_bits(false, negative, 0x7f80_0000) as u32;
    }
    let a: u64 = if m < 0x10_0000_0000_0000 {
        m
    } else {
        m % 0x10_0000_0000_0000 + 0x10_0000_0000_0000
    };
    let e: i64 = if m < 0x10_0000_0000_0000 {
        -1074
    } else {
        (m / 0x10_0000_0000_0000) as i64 - 1075
    };
    signed_bits(false, negative, nearest_bits(false, a, e)) as u32
}

/// A number times an integer, rounded.
pub open spec fn float_times(n: nat, bits: int, k: nat) -> int {
    if magnitude(n, bits) >= infinity(n) {
        bits
    } else {
        with_sign(n, bits >= sign_bit(n), nearest(n, significand(n, bits) * k, exponent(n, bits)))
    }
}

/// A 32-bit number times a small integer, rounded.
pub fn f32_times(bits: u32, k: u32) -> (r: u32)
    requires
        k <= 1000,
    ensures
        r == float_times(4, bits as int, k as nat),
{
    let m: u32 = bits % 0x8000_0000;
    if m >= 0x7f80_0000 {
        return bits;
    }
    let e: u32 = m / 0x80_0000;
    let f: u32 = m % 0x80_0000;
    let (a, x): (u64, i64) = if e == 0 {
        (f as u64, -149)
    } else {
        (f as u64 + 0x80_0000, e as i64 - 150)
    };
    assert(a == significand(4, bits as int) && x == exponent(4, bits as int));
    assert(a * k <= 0x100_0000 * 1000) by (nonlinear_arith)
        requires
            a <= 0x100_0000,
            k <= 1000,
            0 <= a,
            0 <= k,
    ;
    let p: u64 = nearest_bits(false, a * k as u64, x);
    if bits >= 0x8000_0000 {
        p as u32 + 0x8000_0000
    } else {
        p as u32
    }
}

} // verus!
