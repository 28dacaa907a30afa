//! The source of chance for patterns that place things at random.

use vstd::prelude::*;
use rand::rngs::StdRng;
use rand::{Rng, SeedableRng};

verus! {

#[verifier::external_type_specification]
#[verifier::external_body]
pub struct ExStdRng(StdRng);

/// Makes a generator with `StdRng::from_seed`, which sets it up from the 32
/// bytes of `seed` and cannot fail. Nothing is claimed of the generator.
#[verifier::external_body]
pub(crate) fn seeded(seed: [u8; 32]) -> (rng: StdRng) {
    StdRng::from_seed(seed)
}

/// Draws a number with `Rng::gen_range`, which samples uniformly from
/// `low` up to but not including `high`, and panics unless `low < high`.
/// The contract claims no more than that the number lies in that range.
#[verifier::external_body]
pub(crate) fn draw(rng: &mut StdRng, low: u64, high: u64) -> (value: u64)
    requires
        low < high,
    ensures
        low <= value < high,
{
    rng.gen_range(low, high)
}

} // verus!
