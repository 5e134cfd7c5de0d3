//! The simulation's single pseudo-random source: a seeded `StdRng` threaded
//! through the state, so that targeting, skins and spawn points are
//! reproducible under a fixed seed. Every draw goes through the trusted
//! wrappers below; nothing is promised about which value comes back, only its
//! range, so all callers are verified for every outcome.
use vstd::prelude::*;

verus! {

#[verifier::external_type_specification]
#[verifier::external_body]
pub struct ExStdRng(rand::rngs::StdRng);

/// Relies on rand's `SeedableRng::seed_from_u64`: builds a generator from a
/// seed. Nothing is assumed about the stream it will produce.
#[verifier::external_body]
pub(crate) fn rng_from_seed(seed: u64) -> rand::rngs::StdRng {
    <rand::rngs::StdRng as rand::SeedableRng>::seed_from_u64(seed)
}

/// Relies on rand's `RngExt::random_range`: a sample from `0..n`, which is
/// non-empty, so the call returns and the result is below `n`.
#[verifier::external_body]
pub(crate) fn rng_below(rng: &mut rand::rngs::StdRng, n: u64) -> (r: u64)
    requires
        n >= 1,
    ensures
        r < n,
{
    rand::RngExt::random_range(rng, 0..n)
}

/// Relies on rand's `RngExt::random_range`, as `rng_below` does, for the wide
/// totals that weighted target selection accumulates.
#[verifier::external_body]
pub(crate) fn rng_below_wide(rng: &mut rand::rngs::StdRng, n: u128) -> (r: u128)
    requires
        n >= 1,
    ensures
        r < n,
{
    rand::RngExt::random_range(rng, 0..n)
}

} // verus!
