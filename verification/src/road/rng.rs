//! The random generator behind track generation. What it draws is not
//! modelled: callers are verified for every value that a draw may have.

use rand::{Rng, SeedableRng};
use rand_chacha::ChaCha8Rng;
use vstd::prelude::*;

verus! {

/// `rand_chacha::ChaCha8Rng`, carried through the generator as an opaque value.
#[verifier::external_type_specification]
#[verifier::external_body]
pub struct ExChaCha8Rng(ChaCha8Rng);

/// Calls `ChaCha8Rng::seed_from_u64`. Nothing is claimed of the generator that
/// comes back.
#[verifier::external_body]
pub(crate) fn rng_from_seed(seed: u64) -> ChaCha8Rng {
    ChaCha8Rng::seed_from_u64(seed)
}

/// Calls `Rng::random_ratio`, which panics when `denominator` is zero or
/// `numerator` exceeds it, and which documents the two certain cases: a draw
/// with `numerator == denominator` is `true`, one with `numerator == 0` is
/// `false`. Any other draw may come out either way.
#[verifier::external_body]
pub(crate) fn random_ratio(rng: &mut ChaCha8Rng, numerator: u32, denominator: u32) -> (hit: bool)
    requires
        denominator > 0,
        numerator <= denominator,
    ensures
        numerator == denominator ==> hit,
        numerator == 0 ==> !hit,
{
    rng.random_ratio(numerator, denominator)
}

/// Calls `Rng::random_range` on the half-open range `low..high`, which panics
/// when the range is empty. The value drawn lies in the range.
#[verifier::external_body]
pub(crate) fn random_range(rng: &mut ChaCha8Rng, low: usize, high: usize) -> (value: usize)
    requires
        low < high,
    ensures
        low <= value < high,
{
    rng.random_range(low..high)
}

} // verus!
