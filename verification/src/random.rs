//! Sampling from the thread-local generator of `rand`.

use vstd::prelude::*;
use rand::Rng;

verus! {

/// The thread-local generator of `rand`, carried through the library opaquely.
#[verifier::external_type_specification]
#[verifier::external_body]
pub struct ExThreadRng(rand::rngs::ThreadRng);

/// Calls `Rng::random_range(lo..hi)` on `usize`.
/// The `rand` source asserts that the range is not empty, and samples uniformly
/// from it, so the result lies in `[lo, hi)`. Which value comes out is chance
/// and is not stated.
#[verifier::external_body]
pub(crate) fn random_below(rng: &mut rand::rngs::ThreadRng, lo: usize, hi: usize) -> (r: usize)
    requires
        lo < hi,
    ensures
        lo <= r < hi,
{
    rng.random_range(lo..hi)
}

} // verus!

verus! {

/// Calls `Rng::random::<u16>()`: a value drawn from the whole range of `u16`.
/// Nothing is stated of it beyond its type.
#[verifier::external_body]
pub(crate) fn random_u16(rng: &mut rand::rngs::ThreadRng) -> (r: u16) {
    rng.random::<u16>()
}

} // verus!
