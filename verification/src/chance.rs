//! Random draws, from a ChaCha generator with eight rounds.

use rand::{Rng, SeedableRng};
use vstd::prelude::*;

verus! {

/// The generator of the `rand_chacha` crate. Its state is not modelled.
#[verifier::external_type_specification]
#[verifier::external_body]
pub struct ExChaCha8Rng(rand_chacha::ChaCha8Rng);

/// Calls `rand::SeedableRng::seed_from_u64`: a generator whose stream is
/// fixed by `seed`. Nothing is claimed of the generator.
#[verifier::external_body]
pub(crate) fn seeded_generator(seed: u64) -> rand_chacha::ChaCha8Rng {
    rand_chacha::ChaCha8Rng::seed_from_u64(seed)
}

/// Calls `rand::Rng::gen_range` on the inclusive range from `low` to
/// `high`. The call panics on an empty range, which `low <= high` rules
/// out; the value drawn lies in the range. Which value is drawn is not
/// claimed.
#[verifier::external_body]
pub(crate) fn draw(generator: &mut rand_chacha::ChaCha8Rng, low: u64, high: u64) -> (value: u64)
    requires
        low <= high,
    ensures
        low <= value <= high,
{
    generator.gen_range(low..=high)
}

} // verus!
