//! The source of randomness: a generator of the `rand` crate, handed in by
//! the caller so that a run can be repeated from a seed.

use rand::rngs::StdRng;
use rand::Rng;
use vstd::prelude::*;

verus! {

/// The generator of the `rand` crate, known to the verifier by name only:
/// nothing is assumed about what it holds.
#[verifier::external_type_specification]
#[verifier::external_body]
pub struct ExStdRng(rand::rngs::StdRng);

/// Draws an integer between `low` and `high`, both included.
///
/// Trusted: the body calls `rand::Rng::random_range` on the inclusive range
/// `low..=high`. That method panics on an empty range, which `requires` rules
/// out, and otherwise returns a value of the range. Nothing is claimed about
/// which value is drawn, nor about the state the generator is left in.
#[verifier::external_body]
pub(crate) fn uniform(rng: &mut StdRng, low: i32, high: i32) -> (value: i32)
    requires
        low <= high,
    ensures
        low <= value <= high,
{
    rng.random_range(low..=high)
}

} // verus!
