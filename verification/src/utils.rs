//! Interpolation helpers and the RGBA color type.

use vstd::prelude::*;
use crate::fixed::{FP, abs, div_trunc, div_trunc_i128, lemma_div_trunc_bound, lemma_div_trunc_ordered};

verus! {

/// Largest magnitude the interpolation helpers accept, far beyond any
/// value the pipeline produces; it keeps the 128-bit intermediates of
/// `lerp` and `inv_lerp` inside their machine range.
pub const INTERP_MAX: i64 = 4_000_000_000_000;

/// Linear interpolation from `a` to `b` by `t`, where `t == FP` means 1.0:
/// the fixed-point value of `(1 - t) * a + t * b`.
pub open spec fn lerp_spec(a: int, b: int, t: int) -> int {
    div_trunc((FP - t) * a + t * b, FP as int)
}

/// Inverse linear interpolation: where `v` sits between `a` and `b`, as a
/// fixed-point fraction of the way (`(v - a) / (b - a)`).
pub open spec fn inv_lerp_spec(a: int, b: int, v: int) -> int {
    div_trunc((v - a) * FP, b - a)
}

/// `lerp_spec` stays within the interval spanned by bounds on its inputs.
pub proof fn lemma_lerp_bound(a: int, b: int, t: int, m: int)
    requires
        0 <= t <= FP,
        0 <= m,
        abs(a) <= m,
        abs(b) <= m,
    ensures
        abs(lerp_spec(a, b, t)) <= m,
{
    assert(abs((FP - t) * a + t * b) <= FP * m) by (nonlinear_arith)
        requires
            0 <= t <= FP,
            0 <= m,
            abs(a) <= m,
            abs(b) <= m,
    ;
    lemma_div_trunc_bound((FP - t) * a + t * b, FP as int, m);
}

/// For nonnegative endpoints, `lerp_spec` stays within `[lo, hi]`.
pub proof fn lemma_lerp_in_range(a: int, b: int, t: int, lo: int, hi: int)
    requires
        0 <= t <= FP,
        0 <= lo,
        lo <= a <= hi,
        lo <= b <= hi,
    ensures
        lo <= lerp_spec(a, b, t) <= hi,
{
    let n = (FP - t) * a + t * b;
    assert(FP * lo <= (FP - t) * a + t * b <= FP * hi) by (nonlinear_arith)
        requires
            0 <= t <= FP,
            lo <= a <= hi,
            lo <= b <= hi,
    ;
    assert(0 <= lo * FP) by (nonlinear_arith)
        requires 0 <= lo,
    ;
    lemma_div_trunc_ordered(lo * FP, n, FP as int);
    lemma_div_trunc_ordered(n, hi * FP, FP as int);
    vstd::arithmetic::div_mod::lemma_div_multiples_vanish(lo, FP as int);
    vstd::arithmetic::div_mod::lemma_div_multiples_vanish(hi, FP as int);
}

/// Inverse interpolation of a value between its observed extremes lands
/// in the unit interval.
pub proof fn lemma_inv_lerp_unit(lo: int, hi: int, v: int)
    requires
        lo < hi,
        lo <= v <= hi,
    ensures
        0 <= inv_lerp_spec(lo, hi, v) <= FP,
{
    assert(0 <= (v - lo) * FP <= (hi - lo) * FP) by (nonlinear_arith)
        requires
            lo < hi,
            lo <= v <= hi,
    ;
    lemma_div_trunc_ordered(0, (v - lo) * FP, hi - lo);
    lemma_div_trunc_ordered((v - lo) * FP, (hi - lo) * FP, hi - lo);
    vstd::arithmetic::div_mod::lemma_div_multiples_vanish(FP as int, hi - lo);
    assert((hi - lo) * FP == FP * (hi - lo)) by (nonlinear_arith);
}

/// Linear interpolation from `a` to `b` by `t` (`t` in `[0, FP]`).
pub fn lerp(a: i64, b: i64, t: i64) -> (r: i64)
    requires
        0 <= t <= FP,
        -INTERP_MAX <= a <= INTERP_MAX,
        -INTERP_MAX <= b <= INTERP_MAX,
    ensures
        r == lerp_spec(a as int, b as int, t as int),
        -INTERP_MAX <= r <= INTERP_MAX,
{
    proof {
        assert(abs((FP - t) * a) <= FP * INTERP_MAX && abs(t * b) <= FP * INTERP_MAX
            && abs((FP - t) * a + t * b) <= FP * INTERP_MAX) by (nonlinear_arith)
            requires
                0 <= t <= FP,
                -INTERP_MAX <= a <= INTERP_MAX,
                -INTERP_MAX <= b <= INTERP_MAX,
        ;
        lemma_div_trunc_bound((FP - t) * a + t * b, FP as int, INTERP_MAX as int);
    }
    let n: i128 = (FP - t) as i128 * (a as i128) + (t as i128) * (b as i128);
    let q: i128 = div_trunc_i128(n, FP as i128);
    q as i64
}

/// Inverse linear interpolation: the fixed-point fraction of the way `v`
/// sits from `a` toward `b`. The endpoints must differ; the quotient must
/// fit the 64-bit result.
pub fn inv_lerp(a: i64, b: i64, v: i64) -> (r: i64)
    requires
        a != b,
        -INTERP_MAX <= a <= INTERP_MAX,
        -INTERP_MAX <= b <= INTERP_MAX,
        -INTERP_MAX <= v <= INTERP_MAX,
    ensures
        r == inv_lerp_spec(a as int, b as int, v as int),
{
    let n: i128 = (v as i128 - a as i128) * (FP as i128);
    let d: i128 = b as i128 - a as i128;
    proof {
        assert(abs((v - a) * FP) <= 2 * INTERP_MAX * FP
            && abs(b - a) * (2 * INTERP_MAX * FP) >= 2 * INTERP_MAX * FP) by (nonlinear_arith)
            requires
                a != b,
                -INTERP_MAX <= a <= INTERP_MAX,
                -INTERP_MAX <= b <= INTERP_MAX,
                -INTERP_MAX <= v <= INTERP_MAX,
        ;
        lemma_div_trunc_bound((v - a) * FP, abs(b - a), 2 * INTERP_MAX * FP);
        assert(div_trunc((v - a) * FP, (b - a) as int)
            == if b > a { div_trunc((v - a) * FP, abs(b - a)) } else { -div_trunc((v - a) * FP, abs(b - a)) });
    }
    if d > 0 {
        let q: i128 = div_trunc_i128(n, d);
        q as i64
    } else {
        let q: i128 = div_trunc_i128(n, -d);
        (-q) as i64
    }
}

/// An RGBA color; each channel is a fixed-point value in `[0, FP]`, with
/// `FP` standing for full intensity.
#[derive(Clone, Copy, PartialEq, Eq, Structural, Debug)]
pub struct Rgba {
    pub r: i64,
    pub g: i64,
    pub b: i64,
    pub a: i64,
}

impl Rgba {
    /// All channels lie in the unit interval.
    pub open spec fn wf(self) -> bool {
        &&& 0 <= self.r <= FP
        &&& 0 <= self.g <= FP
        &&& 0 <= self.b <= FP
        &&& 0 <= self.a <= FP
    }

    /// Fully transparent black: the defined fallback for cells no terrain
    /// region covers.
    pub fn transparent() -> (c: Rgba)
        ensures
            c == (Rgba { r: 0, g: 0, b: 0, a: 0 }),
            c.wf(),
    {
        Rgba { r: 0, g: 0, b: 0, a: 0 }
    }

    /// Opaque black.
    pub fn black() -> (c: Rgba)
        ensures
            c == (Rgba { r: 0, g: 0, b: 0, a: FP as i64 }),
            c.wf(),
    {
        Rgba { r: 0, g: 0, b: 0, a: FP }
    }

    /// Opaque white.
    pub fn white() -> (c: Rgba)
        ensures
            c == (Rgba { r: FP as i64, g: FP as i64, b: FP as i64, a: FP as i64 }),
            c.wf(),
    {
        Rgba { r: FP, g: FP, b: FP, a: FP }
    }
}

/// The color `t` of the way from `color0` to `color1`: each of the red,
/// green and blue channels interpolated linearly, the result fully opaque.
pub open spec fn color_lerp_spec(color0: Rgba, color1: Rgba, t: int) -> Rgba {
    Rgba {
        r: lerp_spec(color0.r as int, color1.r as int, t) as i64,
        g: lerp_spec(color0.g as int, color1.g as int, t) as i64,
        b: lerp_spec(color0.b as int, color1.b as int, t) as i64,
        a: FP as i64,
    }
}

/// Blend of two colors, channel by channel, by `t` in `[0, FP]`; the
/// result is always fully opaque, whatever the input alphas.
pub fn color_lerp(color0: Rgba, color1: Rgba, t: i64) -> (c: Rgba)
    requires
        0 <= t <= FP,
        color0.wf(),
        color1.wf(),
    ensures
        c == color_lerp_spec(color0, color1, t as int),
        c.wf(),
{
    proof {
        lemma_lerp_in_range(color0.r as int, color1.r as int, t as int, 0, FP as int);
        lemma_lerp_in_range(color0.g as int, color1.g as int, t as int, 0, FP as int);
        lemma_lerp_in_range(color0.b as int, color1.b as int, t as int, 0, FP as int);
    }
    Rgba {
        r: lerp(color0.r, color1.r, t),
        g: lerp(color0.g, color1.g, t),
        b: lerp(color0.b, color1.b, t),
        a: FP,
    }
}

} // verus!
