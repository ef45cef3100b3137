//! Seeded pseudo-random stream for per-octave jitter offsets.
//!
//! The single entropy source of the whole pipeline is one 32-bit seed; the
//! stream it unfolds is modeled by the uninterpreted function
//! `std_rng_draw`, so everything downstream is a pure function of the
//! configuration.

use vstd::prelude::*;

verus! {

/// The value rand's `StdRng`, unfolded from `seed`, returns for a draw
/// from `[lo, hi)` after the draws recorded in `history` (the ranges of
/// every earlier draw, oldest first). The history matters, not only its
/// length: integer range sampling consumes a range-dependent number of
/// words of the underlying stream, so earlier ranges shift the stream
/// position of this draw. Given seed and history the value is determined,
/// but it has no shorter description than the generator itself, so it is
/// only named.
pub uninterp spec fn std_rng_draw(seed: u64, history: Seq<(i64, i64)>, lo: i64, hi: i64) -> i64;

/// rand's `StdRng`, declared so that a generator can sit in a field of a
/// verified struct.
#[verifier::external_type_specification]
#[verifier::external_body]
pub struct ExStdRng(rand::rngs::StdRng);

/// Relies on rand's `StdRng::seed_from_u64`: the generator it returns is
/// a pure, panic-free function of the seed. rand documents the algorithm
/// as deterministic though not reproducible across library versions or
/// configurations; the contracts here claim determinism only within the
/// one build they are verified against.
#[verifier::external_body]
fn std_rng_new(seed: u64) -> rand::rngs::StdRng {
    <rand::rngs::StdRng as rand::SeedableRng>::seed_from_u64(seed)
}

/// A pseudo-random stream unfolded deterministically from a seed,
/// recording the range of every draw made so far.
pub struct SeededRng {
    rng: rand::rngs::StdRng,
    seed: Ghost<u64>,
    history: Ghost<Seq<(i64, i64)>>,
}

impl SeededRng {
    /// The seed this stream was unfolded from.
    pub closed spec fn seed(self) -> u64 {
        self.seed@
    }

    /// The ranges of the draws made from the stream, oldest first.
    pub closed spec fn history(self) -> Seq<(i64, i64)> {
        self.history@
    }

    /// A fresh stream with nothing drawn yet.
    pub fn from_seed(seed: u64) -> (r: SeededRng)
        ensures
            r.seed() == seed,
            r.history() == Seq::<(i64, i64)>::empty(),
    {
        SeededRng {
            rng: std_rng_new(seed),
            seed: Ghost(seed),
            history: Ghost(Seq::empty()),
        }
    }

    /// Relies on rand's `Rng::gen_range`: it returns a value of the
    /// nonempty range `lo..hi` (it panics on an empty one), and on a
    /// generator seeded with `StdRng::seed_from_u64` the value is
    /// determined by the seed and by the ranges of all draws made before
    /// this one — range sampling rejects and redraws words of the seeded
    /// stream, so each draw advances it by an amount that depends on the
    /// range, and the rejections themselves are determined by the seed.
    #[verifier::external_body]
    pub fn next_in(&mut self, lo: i64, hi: i64) -> (r: i64)
        requires
            lo < hi,
        ensures
            lo <= r < hi,
            r == std_rng_draw(old(self).seed(), old(self).history(), lo, hi),
            final(self).seed() == old(self).seed(),
            final(self).history() == old(self).history().push((lo, hi)),
    {
        rand::Rng::gen_range(&mut self.rng, lo..hi)
    }
}

} // verus!
