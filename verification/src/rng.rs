//! The random number generator of the power-of-two-choices balancer, from the
//! `rand` crate.
//!
//! What a generator yields depends on chance, so no result is named; the
//! contracts state only what holds of every outcome.

use rand::rngs::SmallRng;
use rand::SeedableRng;
use vstd::prelude::*;

verus! {

#[verifier::external_type_specification]
#[verifier::external_body]
pub struct ExSmallRng(SmallRng);

#[verifier::external_type_specification]
#[verifier::external_body]
pub struct ExRandError(rand::Error);

/// Calls `SeedableRng::from_rng` for `SmallRng`, seeding a new generator
/// from `rng`. The seed is drawn with `try_fill_bytes`, which for `SmallRng`
/// fills the bytes and always returns `Ok`, so the result is `Ok`. Nothing
/// is promised of the new generator's state.
#[verifier::external_body]
pub(crate) fn small_rng_from_rng(rng: SmallRng) -> (r: Result<SmallRng, rand::Error>)
    ensures
        r is Ok,
{
    SmallRng::from_rng(rng)
}

/// Calls `SmallRng::from_entropy`: a generator seeded by the operating
/// system. Nothing is promised of its state. The call panics only where the
/// operating system cannot provide entropy, which no argument can rule out.
#[verifier::external_body]
pub(crate) fn small_rng_from_entropy() -> (rng: SmallRng) {
    SmallRng::from_entropy()
}

/// Calls `SmallRng::clone`: a generator in the same state. `SmallRng`
/// derives `Clone` over its plain state words, so the clone equals the
/// original.
#[verifier::external_body]
pub(crate) fn small_rng_clone(rng: &SmallRng) -> (r: SmallRng)
    ensures
        r == *rng,
{
    rng.clone()
}

/// Calls `rand::seq::index::sample(rng, len, 2)` and reads the two sampled
/// indices: two distinct indices below `len`, in random order. `sample`
/// panics when fewer than two indices can be drawn, so `len` must be at
/// least 2.
#[verifier::external_body]
pub(crate) fn sample_two_indices(rng: &mut SmallRng, len: usize) -> (r: (usize, usize))
    requires
        len >= 2,
    ensures
        r.0 < len,
        r.1 < len,
        r.0 != r.1,
{
    let idxs = rand::seq::index::sample(rng, len, 2);
    (idxs.index(0), idxs.index(1))
}

} // verus!
