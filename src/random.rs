//! The pseudo-random source that picks food cells.

use rand_core::RngCore;
use vstd::prelude::*;

verus! {

/// The generator of `bevy_prng`, carried through opaque.
#[verifier::external_type_specification]
#[verifier::external_body]
pub struct ExWyRand(bevy_prng::WyRand);

/// Relies on `rand_core::RngCore::next_u64` as `bevy_prng::WyRand` forwards it
/// to `wyrand::WyRand`: the generator's next pseudo-random `u64`. Any value may
/// come back, so nothing is promised of it.
#[verifier::external_body]
pub(crate) fn next_random(rng: &mut bevy_prng::WyRand) -> u64 {
    rng.next_u64()
}

} // verus!
