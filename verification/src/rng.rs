//! The simulation's randomness: a local, independently seeded small
//! PRNG from the `rand` crate, behind trusted wrappers.

use vstd::prelude::*;

verus! {

/// rand's `SmallRng`, the non-cryptographic PRNG the simulation draws
/// from; opaque here, one lives inside each `LavaLamp`.
#[verifier::external_type_specification]
#[verifier::external_body]
pub struct ExSmallRng(rand::rngs::SmallRng);

/// Relies on rand's `SeedableRng::from_entropy`: a fresh PRNG seeded
/// from system entropy. Nothing is promised of its stream.
#[verifier::external_body]
pub(crate) fn rng_new() -> rand::rngs::SmallRng {
    <rand::rngs::SmallRng as rand::SeedableRng>::from_entropy()
}

/// Relies on rand's `Rng::gen_range` over an inclusive `u64` range: it
/// returns a uniform value within the bounds, and panics only on an
/// empty range, which the precondition rules out.
#[verifier::external_body]
pub(crate) fn rng_range(rng: &mut rand::rngs::SmallRng, lo: u64, hi: u64) -> (r: u64)
    requires
        lo <= hi,
    ensures
        lo <= r <= hi,
{
    rand::Rng::gen_range(rng, lo..=hi)
}

} // verus!
