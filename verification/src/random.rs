//! The random source: the thread-local generator of the `rand` crate.
//!
//! Nothing in this file is proved. It states what the rest of the library
//! takes for granted about `rand`.

use vstd::prelude::*;
use rand::rngs::ThreadRng;
use rand::Rng;

verus! {

/// `rand::rngs::ThreadRng`, the handle to the generator of a thread. It is
/// opaque here: the library only passes it on.
#[verifier::external_type_specification]
#[verifier::external_body]
pub struct ExThreadRng(rand::rngs::ThreadRng);

/// `rand::thread_rng` hands out a handle to the generator of the current
/// thread. Nothing is claimed of the handle. The call panics if the
/// operating system cannot seed the generator.
pub assume_specification[ rand::thread_rng ]() -> (rng: ThreadRng);

/// `rand::Rng::gen_range` on the half-open range `0..bound`: the number drawn
/// is below `bound`. Which number it is depends on the generator, so two calls
/// may differ. `gen_range` panics on an empty range, hence `bound > 0`.
#[verifier::external_body]
pub(crate) fn random_below(rng: &mut ThreadRng, bound: usize) -> (index: usize)
    requires
        bound > 0,
    ensures
        index < bound,
{
    rng.gen_range(0..bound)
}

} // verus!
