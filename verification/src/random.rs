//! The one source of chance the library draws on.

use rand::Rng;
use vstd::prelude::*;

verus! {

/// Draws an index below `bound` from `rand`'s thread-local generator, by
/// `thread_rng().gen_range(0..bound)`.
///
/// Trusted: `gen_range` returns a value of the half-open range it is given,
/// and panics on an empty range, which `bound > 0` rules out. Nothing is
/// claimed of which value comes back.
#[verifier::external_body]
pub(crate) fn random_below(bound: usize) -> (drawn: usize)
    requires
        bound > 0,
    ensures
        drawn < bound,
{
    rand::thread_rng().gen_range(0..bound)
}

} // verus!
