//! The simulator's randomness source: a seeded pseudo-random generator from
//! the `rand` crate, reached through two trusted wrappers. Everything that
//! turns raw draws into bounded values is verified here.

use vstd::prelude::*;

verus! {

#[verifier::external_type_specification]
#[verifier::external_body]
pub struct ExStdRng(rand::rngs::StdRng);

/// Relies on rand_core's SeedableRng::seed_from_u64: builds a generator whose
/// whole stream is a function of the seed, so a run is reproducible.
#[verifier::external_body]
pub fn rng_from_seed(seed: u64) -> rand::rngs::StdRng {
    <rand::rngs::StdRng as rand::SeedableRng>::seed_from_u64(seed)
}

/// Relies on rand_core's RngCore::next_u64: one raw draw. Nothing is promised
/// of the value; callers must hold for every outcome.
#[verifier::external_body]
pub fn rng_next(rng: &mut rand::rngs::StdRng) -> u64 {
    rand::RngCore::next_u64(rng)
}

/// A draw strictly below `n`.
pub fn draw_below(rng: &mut rand::rngs::StdRng, n: u64) -> (r: u64)
    requires
        n >= 1,
    ensures
        r < n,
{
    let raw = rng_next(rng);
    raw % n
}

/// A draw from the inclusive range `lo ..= hi`.
pub fn draw_i64(rng: &mut rand::rngs::StdRng, lo: i64, hi: i64) -> (r: i64)
    requires
        lo <= hi,
        (hi as int) - (lo as int) < u64::MAX as int,
    ensures
        lo <= r <= hi,
{
    let width: u64 = ((hi as i128) - (lo as i128) + 1) as u64;
    assert(1 <= width as int && width as int == (hi as int) - (lo as int) + 1);
    let off = draw_below(rng, width);
    ((lo as i128) + (off as i128)) as i64
}

/// A biased coin: true with probability `threshold_micro` millionths.
pub fn draw_coin(rng: &mut rand::rngs::StdRng, threshold_micro: i64) -> (r: bool)
{
    let u = draw_below(rng, crate::MICRO as u64);
    (u as i64) < threshold_micro
}

} // verus!
