//! Fixed-point arithmetic core.
//!
//! A real number `r` is carried as the 64-bit integer `r * FP`, rounded
//! toward zero, so one whole unit is `FP` and the encoding has six decimal
//! fractional digits. Every division in the crate rounds toward zero;
//! `div_trunc` is the specification of that rounding rule.

use vstd::prelude::*;
use vstd::arithmetic::div_mod::{lemma_div_is_ordered, lemma_div_multiples_vanish, lemma_fundamental_div_mod};
use vstd::arithmetic::mul::lemma_mul_inequality;

verus! {

/// One whole unit of the fixed-point encoding: the real number 1.0.
pub const FP: i64 = 1_000_000;

/// Magnitude of an integer.
pub open spec fn abs(n: int) -> int {
    if n >= 0 { n } else { -n }
}

/// Quotient of `n` by `d`, rounded toward zero (the rounding of every
/// fixed-point division in this crate). Meaningful only for `d != 0`.
pub open spec fn div_trunc(n: int, d: int) -> int {
    let q = abs(n) / abs(d);
    if (0 <= n) == (0 <= d) { q } else { -q }
}

/// `v` clamped into `[lo, hi]`.
pub open spec fn clamp_spec(v: int, lo: int, hi: int) -> int {
    if v < lo { lo } else if v > hi { hi } else { v }
}

/// A quotient with a positive divisor is bounded by `m` whenever the
/// dividend is bounded by `d * m`.
pub proof fn lemma_div_trunc_bound(n: int, d: int, m: int)
    requires
        1 <= d,
        0 <= m,
        abs(n) <= d * m,
    ensures
        -m <= div_trunc(n, d) <= m,
        abs(div_trunc(n, d)) <= m,
{
    lemma_div_is_ordered(abs(n), d * m, d);
    lemma_div_multiples_vanish(m, d);
}

/// Dividing a smaller nonnegative dividend by the same positive divisor
/// gives a smaller quotient.
pub proof fn lemma_div_trunc_ordered(n1: int, n2: int, d: int)
    requires
        1 <= d,
        0 <= n1 <= n2,
    ensures
        0 <= div_trunc(n1, d) <= div_trunc(n2, d),
{
    lemma_div_is_ordered(0, n1, d);
    lemma_div_is_ordered(n1, n2, d);
}

/// `n / d` rounding toward zero, for a positive divisor.
pub(crate) fn div_trunc_i128(n: i128, d: i128) -> (q: i128)
    requires
        1 <= d,
        -0x7fffffffffffffffffffffffffffffff <= n,
    ensures
        q == div_trunc(n as int, d as int),
        abs(q as int) <= abs(n as int),
{
    let dd: u128 = d as u128;
    if n >= 0 {
        let un: u128 = n as u128;
        let q0: u128 = un / dd;
        proof {
            lemma_fundamental_div_mod(un as int, dd as int);
            lemma_mul_inequality(1, dd as int, q0 as int);
        }
        q0 as i128
    } else {
        let un: u128 = (-n) as u128;
        let q0: u128 = un / dd;
        proof {
            lemma_fundamental_div_mod(un as int, dd as int);
            lemma_mul_inequality(1, dd as int, q0 as int);
        }
        -(q0 as i128)
    }
}

/// Truncated `(a * b) / d`, computed without intermediate overflow.
pub(crate) fn mul_div_trunc(a: i64, b: i64, d: i64) -> (r: i64)
    requires
        1 <= d,
        -0x7fff_ffff_ffff_ffff <= div_trunc(a * b, d as int) <= 0x7fff_ffff_ffff_ffff,
    ensures
        r == div_trunc(a * b, d as int),
{
    proof {
        assert((a as int) * (b as int) <= 0x8000_0000_0000_0000 * 0x8000_0000_0000_0000
            && -(0x8000_0000_0000_0000 * 0x8000_0000_0000_0000) <= (a as int) * (b as int))
            by (nonlinear_arith)
            requires
                -0x8000_0000_0000_0000 <= a <= 0x7fff_ffff_ffff_ffff,
                -0x8000_0000_0000_0000 <= b <= 0x7fff_ffff_ffff_ffff,
        ;
    }
    let p: i128 = (a as i128) * (b as i128);
    let q: i128 = div_trunc_i128(p, d as i128);
    q as i64
}

/// Truncated `(a * b) / d`, clamped into `[-cap, cap]`, for operands of
/// either sign.
pub(crate) fn mul_div_clamp(a: i64, b: i64, d: i64, cap: i64) -> (r: i64)
    requires
        1 <= d,
        0 <= cap,
    ensures
        r == clamp_spec(div_trunc(a * b, d as int), -cap as int, cap as int),
        -cap <= r <= cap,
{
    proof {
        assert((a as int) * (b as int) <= 0x8000_0000_0000_0000 * 0x8000_0000_0000_0000
            && -(0x8000_0000_0000_0000 * 0x8000_0000_0000_0000) <= (a as int) * (b as int))
            by (nonlinear_arith)
            requires
                -0x8000_0000_0000_0000 <= a <= 0x7fff_ffff_ffff_ffff,
                -0x8000_0000_0000_0000 <= b <= 0x7fff_ffff_ffff_ffff,
        ;
    }
    let p: i128 = (a as i128) * (b as i128);
    let q: i128 = div_trunc_i128(p, d as i128);
    clamp_i128(q, -cap, cap)
}

/// `v` clamped into `[lo, hi]` and narrowed to 64 bits.
pub(crate) fn clamp_i128(v: i128, lo: i64, hi: i64) -> (r: i64)
    requires
        lo <= hi,
    ensures
        r == clamp_spec(v as int, lo as int, hi as int),
        lo <= r <= hi,
{
    if v < lo as i128 {
        lo
    } else if v > hi as i128 {
        hi
    } else {
        v as i64
    }
}

} // verus!
