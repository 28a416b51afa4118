//! The one place where the library draws random numbers.

use vstd::prelude::*;
use rand::Rng;

verus! {

/// Calls `rand::Rng::gen_range` with the half-open range `low..high` on the
/// generator that `rand::thread_rng` hands out for the current thread. The
/// range must not be empty, since `gen_range` panics on an empty range.
/// Verus takes on trust that the number returned lies in the range; which
/// number it is differs from call to call. The generator is seeded by the
/// system on its first use in a thread, and panics where the system cannot
/// do that, which no argument decides.
#[verifier::external_body]
pub(crate) fn random_in_range(low: i64, high: i64) -> (r: i64)
    requires
        low < high,
    ensures
        low <= r < high,
{
    rand::thread_rng().gen_range(low..high)
}

} // verus!
