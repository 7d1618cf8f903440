//! The identities of the bets of a chunk, in a vector of bounded size.

use arrayvec::ArrayVec;
use vstd::prelude::*;

verus! {

/// How many bets one chunk holds at most.
pub const CHUNK_SIZE: usize = 1500;

/// `arrayvec::ArrayVec`: a vector that keeps its items in an array of
/// fixed size. Nothing is known of what is inside one but through the
/// functions below.
#[verifier::external_type_specification]
#[verifier::external_body]
#[verifier::reject_recursive_types(T)]
pub struct ExArrayVec<T, const CAP: usize>(ArrayVec<T, CAP>);

/// The identities that a chunk-sized vector holds, in their order.
pub uninterp spec fn chunk_ids(ids: ArrayVec<u128, 1500>) -> Seq<u128>;

/// Makes an empty vector through `ArrayVec::new`, which holds nothing.
#[verifier::external_body]
pub(crate) fn new_chunk_ids() -> (ids: ArrayVec<u128, 1500>)
    ensures
        chunk_ids(ids) == Seq::<u128>::empty(),
{
    ArrayVec::new()
}

/// Appends an identity through `ArrayVec::push`, which puts it behind the
/// items that are there, and panics on a full vector: a vector with fewer
/// items than its capacity is asked for.
#[verifier::external_body]
pub(crate) fn push_chunk_id(ids: &mut ArrayVec<u128, 1500>, id: u128)
    requires
        chunk_ids(*old(ids)).len() < 1500,
    ensures
        chunk_ids(*final(ids)) == chunk_ids(*old(ids)).push(id),
{
    ids.push(id)
}

} // verus!
