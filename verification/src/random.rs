//! The source of randomness behind deck generation, dealing and player
//! precedence. Nothing here is proved: each item states what the random number
//! library documents of every outcome.

use rand::seq::SliceRandom;
use vstd::prelude::*;

verus! {

/// The thread-local random number generator of the `rand` library. Its state
/// is hidden.
#[verifier::external_type_specification]
#[verifier::external_body]
pub struct ExThreadRng(rand::rngs::ThreadRng);

/// `rand::thread_rng`: a handle to the generator of the current thread.
/// Nothing is claimed of it.
#[verifier::external_body]
pub(crate) fn thread_rng() -> rand::rngs::ThreadRng {
    rand::thread_rng()
}

/// `rand::seq::index::sample`, converted with `IndexVec::into_vec`: exactly
/// `amount` distinct indices below `length`, in an order that nothing is
/// claimed of. The call panics where `amount` exceeds `length`, which the
/// precondition rules out.
#[verifier::external_body]
pub(crate) fn sample_indices(rng: &mut rand::rngs::ThreadRng, length: usize, amount: usize) -> (v:
    Vec<usize>)
    requires
        amount <= length,
    ensures
        v@.len() == amount,
        forall|i: int| 0 <= i < v@.len() ==> v@[i] < length,
        forall|i: int, j: int| 0 <= i < j < v@.len() ==> v@[i] != v@[j],
{
    rand::seq::index::sample(rng, length, amount).into_vec()
}

/// `SliceRandom::shuffle`: reorders the items in place by swaps, so that the
/// result holds the same items as before, each as often as before.
#[verifier::external_body]
pub(crate) fn shuffle_ids(rng: &mut rand::rngs::ThreadRng, ids: &mut Vec<u32>)
    ensures
        final(ids)@.to_multiset() == old(ids)@.to_multiset(),
{
    ids.shuffle(rng)
}

} // verus!
