//! The two places where the process's random number generator is asked.

use vstd::prelude::*;
use rand::Rng;

verus! {

/// `rand::thread_rng().gen_range(low, high)` on `u64`: a value drawn from
/// `[low, high)`.
///
/// Trusted, not proved: the result lies in the half-open range. The outside
/// function panics where `low >= high`, which the precondition leaves out;
/// it also panics where the system has no entropy to seed the generator of
/// the thread, which no argument decides. Which value comes is up to that
/// generator, so nothing more is claimed and two calls may differ.
#[verifier::external_body]
pub(crate) fn random_in_range(low: u64, high: u64) -> (r: u64)
    requires
        low < high,
    ensures
        low <= r < high,
{
    rand::thread_rng().gen_range(low, high)
}

/// `rand::random::<u8>()`: one byte from the generator of the thread.
///
/// Trusted, not proved: nothing is claimed of the byte. The outside function
/// panics where the system has no entropy to seed the generator of the
/// thread.
#[verifier::external_body]
pub(crate) fn random_byte() -> u8 {
    rand::random::<u8>()
}

} // verus!
