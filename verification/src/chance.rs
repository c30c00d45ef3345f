//! Random numbers, drawn by the `rand` crate.

use vstd::prelude::*;

verus! {

/// A number below `n`, drawn by `rand::random_range(0..n)` from the
/// generator of the thread. Claimed: the number lies in the range. Which
/// number it is depends on chance. `rand` panics on an empty range, so `n`
/// must not be zero.
#[verifier::external_body]
pub(crate) fn random_below(n: u32) -> (r: u32)
    requires
        n > 0,
    ensures
        r < n,
{
    rand::random_range(0..n)
}

/// The number of seconds to wait before a run starts, so that runs started
/// together do not all begin at once: a random number below `max_delay`,
/// and none for a limit of zero.
pub fn start_delay(max_delay: u32) -> (r: u32)
    ensures
        max_delay == 0 ==> r == 0,
        max_delay > 0 ==> r < max_delay,
{
    if max_delay == 0 {
        0
    } else {
        random_below(max_delay)
    }
}

} // verus!
