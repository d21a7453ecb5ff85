use rand::rngs::StdRng;
use vstd::prelude::*;

verus! {

/// rand's seeded generator, carried through the commuting stage.
#[verifier::external_type_specification]
#[verifier::external_body]
pub struct ExStdRng(StdRng);

/// Relies on rand's `RngCore::next_u64` for `StdRng`: the next value of the generator's
/// stream. Any `u64` may come back, so nothing is stated of it.
#[verifier::external_body]
pub(crate) fn next_draw(rng: &mut StdRng) -> (r: u64) {
    rand::RngCore::next_u64(rng)
}

} // verus!
