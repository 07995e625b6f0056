//! The random source that fresh identifiers are drawn from.

use rand::Rng;
use vstd::prelude::*;

verus! {

/// Draws one number from the thread-local generator of the `rand` crate, by
/// `rand::rng().random_range(low..high)`.
///
/// Not proved: the contract takes from the crate's documentation that the draw
/// lies in the range asked for. Which number comes is left open, so two calls
/// may differ. The crate panics on an empty range; `requires` keeps it out.
#[verifier::external_body]
pub(crate) fn random_in_range(low: u64, high: u64) -> (drawn: u64)
    requires
        low < high,
    ensures
        low <= drawn < high,
{
    rand::rng().random_range(low..high)
}

} // verus!
