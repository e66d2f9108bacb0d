use vstd::prelude::*;

use rand::rngs::ThreadRng;
use rand::Rng;

verus! {

#[verifier::external_type_specification]
#[verifier::external_body]
pub struct ExThreadRng(ThreadRng);

/// `rand::rng()`: a handle to the thread-local random generator. Nothing is claimed
/// of its state.
#[verifier::external_body]
pub(crate) fn thread_rng() -> (rng: ThreadRng) {
    rand::rng()
}

/// `Rng::random_range(lo..=hi)`: a number drawn from the generator, somewhere in
/// `lo..=hi`; which one is left to chance. The range is not empty, so the call does
/// not panic.
#[verifier::external_body]
pub(crate) fn random_in_range(rng: &mut ThreadRng, lo: u64, hi: u64) -> (r: u64)
    requires
        lo <= hi,
    ensures
        lo <= r <= hi,
{
    rng.random_range(lo..=hi)
}

} // verus!
