//! Floating-point numbers that are whole.
use vstd::arithmetic::div_mod::lemma_fundamental_div_mod_converse;
use vstd::arithmetic::power2::{lemma_pow2_adds, lemma_pow2_pos, lemma_pow2_unfold, pow2};
use vstd::prelude::*;
use crate::float::{
    bit_length, exponent, float_of_int, float_times, float_to_int, fraction_size, in_places, infinity, least_exponent, lemma_bit_length_bounds, nearest,
    precision, round_even, sign_bit, significand,
};

verus! {

proof fn lemma_sizes(n: nat)
    requires
        n == 4 || n == 8,
    ensures
        fraction_size(n) == pow2((precision(n) - 1) as nat),
        pow2(precision(n) as nat) == 2 * fraction_size(n),
{
    vstd::arithmetic::power2::lemma2_to64();
    vstd::arithmetic::power2::lemma2_to64_rest();
    assert(pow2(52) == 0x10_0000_0000_0000);
    lemma_pow2_unfold(53);
}

proof fn lemma_shifted_length(v: nat, s: nat)
    requires
        v > 0,
    ensures
        bit_length(v * pow2(s)) == bit_length(v) + s,
    decreases s,
{
    if s > 0 {
        lemma_shifted_length(v, (s - 1) as nat);
        lemma_pow2_unfold(s);
        lemma_pow2_pos((s - 1) as nat);
        let w = v * pow2((s - 1) as nat);
        assert(v * pow2(s) == 2 * w) by (nonlinear_arith)
            requires
                pow2(s) == 2 * pow2((s - 1) as nat),
                w == v * pow2((s - 1) as nat),
        ;
        assert(w > 0) by (nonlinear_arith)
            requires
                v > 0,
                pow2((s - 1) as nat) > 0,
                w == v * pow2((s - 1) as nat),
        ;
        assert((2 * w) / 2 == w);
    } else {
        vstd::arithmetic::power2::lemma2_to64();
        assert(v * pow2(0) == v) by (nonlinear_arith)
            requires
                pow2(0) == 1,
        ;
    }
}

/// The significand of a whole number, with all its places.
spec fn all_places(n: nat, v: nat) -> nat {
    v * pow2((precision(n) - bit_length(v)) as nat)
}

/// The bit pattern of a whole number.
spec fn whole(n: nat, v: nat) -> int {
    (bit_length(v) - precision(n) - least_exponent(n)) * fraction_size(n) + all_places(n, v)
}

proof fn lemma_all_places(n: nat, v: nat)
    requires
        n == 4 || n == 8,
        0 < v < pow2(precision(n) as nat),
    ensures
        0 < bit_length(v) <= precision(n),
        fraction_size(n) <= all_places(n, v) < 2 * fraction_size(n),
{
    lemma_sizes(n);
    lemma_bit_length_bounds(v);
    crate::float::lemma_bit_length(v, precision(n) as nat);
    let l = bit_length(v);
    let s = (precision(n) - l) as nat;
    lemma_pow2_adds(l, s);
    lemma_pow2_adds((l - 1) as nat, s);
    lemma_pow2_pos(s);
    assert(v * pow2(s) < pow2(l) * pow2(s)) by (nonlinear_arith)
        requires
            v < pow2(l),
            pow2(s) > 0,
    ;
    assert(v * pow2(s) >= pow2((l - 1) as nat) * pow2(s)) by (nonlinear_arith)
        requires
            v >= pow2((l - 1) as nat),
    ;
}

proof fn lemma_nearest_whole(n: nat, v: nat, s: nat)
    requires
        n == 4 || n == 8,
        0 < v < pow2(precision(n) as nat),
        s <= precision(n),
    ensures
        nearest(n, v * pow2(s), -(s as int)) == whole(n, v),
        0 < whole(n, v) < infinity(n),
{
    lemma_sizes(n);
    lemma_all_places(n, v);
    lemma_shifted_length(v, s);
    lemma_pow2_pos(s);
    let a = v * pow2(s);
    let l = bit_length(v);
    let q = l - precision(n);
    let m = all_places(n, v);
    assert(a > 0) by (nonlinear_arith)
        requires
            v > 0,
            pow2(s) > 0,
            a == v * pow2(s),
    ;
    if q <= -(s as int) {
        let d = (-(s as int) - q) as nat;
        lemma_pow2_adds(s, d);
        assert(v * pow2(s) * pow2(d) == v * (pow2(s) * pow2(d))) by (nonlinear_arith);
        assert(in_places(a, -(s as int), q) == m);
    } else {
        let d = (q + s) as nat;
        let t = (-q) as nat;
        lemma_pow2_adds(t, d);
        lemma_pow2_pos(d);
        assert(v * pow2(s) == (v * pow2(t)) * pow2(d)) by (nonlinear_arith)
            requires
                pow2(s) == pow2(t) * pow2(d),
        ;
        lemma_fundamental_div_mod_converse(a as int, pow2(d) as int, m as int, 0);
        assert(round_even(a, pow2(d)) == m);
    }
    let f = fraction_size(n);
    let k = q - least_exponent(n);
    assert(0 <= k * f <= (if n == 4 { 149 } else { 1074int }) * f) by (nonlinear_arith)
        requires
            0 <= k <= (if n == 4 { 149 } else { 1074int }),
            f > 0,
    ;
}

proof fn lemma_whole_parts(n: nat, v: nat)
    requires
        n == 4 || n == 8,
        0 < v < pow2(precision(n) as nat),
    ensures
        significand(n, whole(n, v)) == all_places(n, v),
        exponent(n, whole(n, v)) == bit_length(v) - precision(n),
        0 < whole(n, v) < infinity(n),
{
    lemma_nearest_whole(n, v, 0);
    lemma_all_places(n, v);
    let f = fraction_size(n);
    let m = whole(n, v);
    let k = bit_length(v) - precision(n) - least_exponent(n);
    let r = all_places(n, v) - f;
    assert(m == (k + 1) * f + r) by (nonlinear_arith)
        requires
            m == k * f + (r + f),
    ;
    lemma_fundamental_div_mod_converse(m, f, k + 1, r);
    assert(m >= f) by (nonlinear_arith)
        requires
            m == (k + 1) * f + r,
            k >= 0,
            r >= 0,
            f > 0,
    ;
}

/// A whole number below two to the power of the precision is a floating-point number, and truncating gives it
/// back, with either sign.
pub proof fn lemma_whole_numbers_return(n: nat, v: int, lo: int, hi: int)
    requires
        n == 4 || n == 8,
        -pow2(precision(n) as nat) < v < pow2(precision(n) as nat),
        lo <= v <= hi,
        lo <= 0 <= hi,
    ensures
        float_to_int(n, float_of_int(n, v), lo, hi) == v,
{
    vstd::arithmetic::power2::lemma2_to64();
    if v == 0 {
        lemma_pow2_pos((-least_exponent(n)) as nat);
        assert(0nat / pow2((-least_exponent(n)) as nat) == 0) by (nonlinear_arith)
            requires
                pow2((-least_exponent(n)) as nat) > 0,
        ;
    } else {
        let a = (if v < 0 {
            -v
        } else {
            v
        }) as nat;
        lemma_nearest_whole(n, a, 0);
        assert(a * pow2(0) == a) by (nonlinear_arith)
            requires
                pow2(0) == 1,
        ;
        lemma_whole_parts(n, a);
        lemma_all_places(n, a);
        let t = (precision(n) - bit_length(a)) as nat;
        lemma_pow2_pos(t);
        lemma_fundamental_div_mod_converse(all_places(n, a) as int, pow2(t) as int, a as int, 0);
        if v < 0 {
            let m = whole(n, a);
            let b = m + sign_bit(n);
            assert(b % sign_bit(n) == m);
        }
    }
}

/// The product of whole numbers below two to the power of the precision is exact.
pub proof fn lemma_whole_products(v: nat, k: nat)
    requires
        0 < v,
        0 < k,
        v * k < pow2(24),
    ensures
        float_times(4, float_of_int(4, v as int), k) == float_of_int(4, (v * k) as int),
{
    vstd::arithmetic::power2::lemma2_to64();
    let p = v * k;
    assert(v <= p && p > 0) by (nonlinear_arith)
        requires
            v > 0,
            k > 0,
            p == v * k,
    ;
    assert(v * pow2(0) == v && p * pow2(0) == p) by (nonlinear_arith)
        requires
            pow2(0) == 1,
    ;
    lemma_nearest_whole(4, v, 0);
    lemma_nearest_whole(4, p, 0);
    lemma_whole_parts(4, v);
    lemma_all_places(4, v);
    let s = (24 - bit_length(v)) as nat;
    assert((v * pow2(s)) * k == p * pow2(s)) by (nonlinear_arith)
        requires
            p == v * k,
    ;
    lemma_nearest_whole(4, p, s);
}

/// Consuming that takes some whole seconds takes twenty times as many ticks.
pub proof fn lemma_ticks_of_seconds(seconds: nat)
    requires
        0 < seconds <= 100_000,
    ensures
        float_to_int(4, float_times(4, float_of_int(4, seconds as int), 20), i32::MIN as int, i32::MAX as int) == 20 * seconds,
{
    vstd::arithmetic::power2::lemma2_to64();
    lemma_whole_products(seconds, 20);
    lemma_whole_numbers_return(4, (seconds * 20) as int, i32::MIN as int, i32::MAX as int);
}

/// What is not a number truncates to zero, and what is infinite to the nearest bound.
pub proof fn lemma_no_numbers(bits: u32, lo: int, hi: int)
    ensures
        bits % 0x8000_0000 > 0x7f80_0000 ==> float_to_int(4, bits as int, lo, hi) == 0,
        float_to_int(4, 0x7f80_0000, lo, hi) == hi,
        float_to_int(4, 0xff80_0000, lo, hi) == lo,
        bits % 0x8000_0000 >= 0x7f80_0000 ==> float_times(4, bits as int, 20) == bits,
{
}

} // verus!
