//! Coherent noise source.
//!
//! A pure sampling function over 2D fixed-point coordinates: each unit
//! lattice corner is given a pseudo-random elevation derived from the seed
//! by modular hashing, and points between corners are interpolated
//! bilinearly, so nearby coordinates get nearby values. The sample is a
//! function of the seed and the coordinates alone, and always lies in
//! `[-FP, FP]` (the real interval [-1, 1]).

use vstd::prelude::*;
use vstd::arithmetic::div_mod::{lemma_hoist_over_denominator, lemma_mod_multiples_vanish};
use crate::fixed::FP;
use crate::utils::{lerp, lerp_spec, lemma_lerp_bound};

verus! {

/// Largest coordinate magnitude the sampler accepts; the generator clamps
/// every sampling coordinate to this range, a trillion lattice cells on
/// either side of the origin.
pub const COORD_MAX: i64 = 1_000_000_000_000_000_000;

/// `COORD_MAX` in whole lattice cells: `COORD_MAX / FP`.
pub const CELL_MAX: i64 = 1_000_000_000_000;

/// Shift that makes any lattice cell index nonnegative before hashing.
pub const CELL_SHIFT: u64 = 2_000_000_000_000;

/// Modulus of the corner hash: a Mersenne prime.
pub const HASH_P: u64 = 2_147_483_647;

/// Multiplier of the mixing steps (the classic minimal-standard one).
pub const HASH_A: u64 = 48_271;

/// Multiplier of the scrambling rounds.
pub const HASH_B: u64 = 69_621;

/// Additive constant of the scrambling rounds.
pub const HASH_C: u64 = 12_345;

/// The pseudo-random elevation of lattice corner `(u, v)` under `seed`:
/// a chain of multiply-add-reduce rounds modulo `HASH_P`, folded into
/// `[-FP, FP]`.
pub open spec fn corner_spec(seed: u32, u: int, v: int) -> int {
    let a = (u + CELL_SHIFT) % (HASH_P as int);
    let b = (v + CELL_SHIFT) % (HASH_P as int);
    let h1 = (a * HASH_A + b) % (HASH_P as int);
    let h2 = (h1 * HASH_A + seed) % (HASH_P as int);
    let h3 = (h2 * HASH_B + HASH_C) % (HASH_P as int);
    let h4 = (h3 * HASH_B + HASH_C) % (HASH_P as int);
    h4 % (2 * FP + 1) - FP
}

/// The noise value at fixed-point coordinates `(x, y)`: the four corners
/// of the surrounding unit lattice cell, interpolated bilinearly by the
/// fractional parts of the coordinates.
pub open spec fn sample_spec(seed: u32, x: int, y: int) -> int {
    let cx = x / (FP as int);
    let cy = y / (FP as int);
    let fx = x % (FP as int);
    let fy = y % (FP as int);
    let top = lerp_spec(corner_spec(seed, cx, cy), corner_spec(seed, cx + 1, cy), fx);
    let bot = lerp_spec(corner_spec(seed, cx, cy + 1), corner_spec(seed, cx + 1, cy + 1), fx);
    lerp_spec(top, bot, fy)
}

/// Every sample lies in `[-FP, FP]`.
pub proof fn lemma_sample_bounded(seed: u32, x: int, y: int)
    ensures
        -FP <= sample_spec(seed, x, y) <= FP,
{
    let cx = x / (FP as int);
    let cy = y / (FP as int);
    let fx = x % (FP as int);
    let fy = y % (FP as int);
    lemma_lerp_bound(corner_spec(seed, cx, cy), corner_spec(seed, cx + 1, cy), fx, FP as int);
    lemma_lerp_bound(corner_spec(seed, cx, cy + 1), corner_spec(seed, cx + 1, cy + 1), fx, FP as int);
    let top = lerp_spec(corner_spec(seed, cx, cy), corner_spec(seed, cx + 1, cy), fx);
    let bot = lerp_spec(corner_spec(seed, cx, cy + 1), corner_spec(seed, cx + 1, cy + 1), fx);
    lemma_lerp_bound(top, bot, fy, FP as int);
}

/// The corner hash, computed in 64-bit arithmetic.
fn corner(seed: u32, u: i64, v: i64) -> (r: i64)
    requires
        -CELL_MAX - 1 <= u <= CELL_MAX + 1,
        -CELL_MAX - 1 <= v <= CELL_MAX + 1,
    ensures
        r == corner_spec(seed, u as int, v as int),
        -FP <= r <= FP,
{
    let a: u64 = ((u + CELL_SHIFT as i64) as u64) % HASH_P;
    let b: u64 = ((v + CELL_SHIFT as i64) as u64) % HASH_P;
    let h1: u64 = (a * HASH_A + b) % HASH_P;
    let h2: u64 = (h1 * HASH_A + seed as u64) % HASH_P;
    let h3: u64 = (h2 * HASH_B + HASH_C) % HASH_P;
    let h4: u64 = (h3 * HASH_B + HASH_C) % HASH_P;
    (h4 % (2 * FP as u64 + 1)) as i64 - FP
}

/// Cell index (floor) and fractional part of a fixed-point coordinate.
fn split_cell(x: i64) -> (r: (i64, i64))
    requires
        -COORD_MAX <= x <= COORD_MAX,
    ensures
        r.0 == (x as int) / (FP as int),
        r.1 == (x as int) % (FP as int),
        -CELL_MAX <= r.0 <= CELL_MAX,
        0 <= r.1 < FP,
{
    let s: u64 = (x + COORD_MAX) as u64;
    let q0: u64 = s / (FP as u64);
    let r0: u64 = s % (FP as u64);
    proof {
        lemma_hoist_over_denominator(x as int, CELL_MAX as int, FP as nat);
        lemma_mod_multiples_vanish(CELL_MAX as int, x as int, FP as int);
        vstd::arithmetic::div_mod::lemma_div_is_ordered(s as int, 2 * COORD_MAX, FP as int);
        vstd::arithmetic::div_mod::lemma_div_multiples_vanish(2 * CELL_MAX, FP as int);
    }
    (q0 as i64 - CELL_MAX, r0 as i64)
}

/// The noise value at `(x, y)`: deterministic in the seed and the
/// coordinates, and always within `[-FP, FP]`.
pub fn sample(seed: u32, x: i64, y: i64) -> (v: i64)
    requires
        -COORD_MAX <= x <= COORD_MAX,
        -COORD_MAX <= y <= COORD_MAX,
    ensures
        v == sample_spec(seed, x as int, y as int),
        -FP <= v <= FP,
{
    let (cx, fx) = split_cell(x);
    let (cy, fy) = split_cell(y);
    let c00 = corner(seed, cx, cy);
    let c10 = corner(seed, cx + 1, cy);
    let c01 = corner(seed, cx, cy + 1);
    let c11 = corner(seed, cx + 1, cy + 1);
    proof {
        lemma_lerp_bound(c00 as int, c10 as int, fx as int, FP as int);
        lemma_lerp_bound(c01 as int, c11 as int, fx as int, FP as int);
    }
    let top = lerp(c00, c10, fx);
    let bot = lerp(c01, c11, fx);
    proof {
        lemma_lerp_bound(top as int, bot as int, fy as int, FP as int);
    }
    lerp(top, bot, fy)
}

} // verus!
