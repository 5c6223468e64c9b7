//! The renderer's only source of randomness: rand's standard generator,
//! declared opaquely. Each worker owns one generator, so samples never
//! contend on shared state. Nothing is assumed about the values drawn;
//! every caller states what holds of its result whatever comes back.

use vstd::prelude::*;

verus! {

/// rand's standard pseudo-random generator, opaque to verification.
#[verifier::external_type_specification]
#[verifier::external_body]
pub struct ExStdRng(rand::rngs::StdRng);

/// Relies on rand's `Rng::next_u32` for `StdRng`: draws the next
/// pseudo-random 32-bit value. No property of the value is assumed.
#[verifier::external_body]
pub(crate) fn rng_next_u32(rng: &mut rand::rngs::StdRng) -> u32 {
    rand::Rng::next_u32(rng)
}

} // verus!
