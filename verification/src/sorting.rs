use vstd::prelude::*;
use std::cmp::Ordering;
use crate::order::{TotalOrder, sorted};

verus! {

/// Orders two values by their ranks.
pub fn rank_order<TI: TotalOrder>(a: &TI, b: &TI) -> (res: Ordering)
    ensures
        a.rank() < b.rank() ==> res == Ordering::Less,
        a.rank() == b.rank() ==> res == Ordering::Equal,
        a.rank() > b.rank() ==> res == Ordering::Greater,
{
    if a.at_most(b) {
        if b.at_most(a) {
            Ordering::Equal
        } else {
            Ordering::Less
        }
    } else {
        Ordering::Greater
    }
}

/// Sorts `x` by rank, with the standard library's `sort_by` on slices.
///
/// The contract claims what that function documents: afterwards the elements
/// stand in ascending order of the comparison, and they are the elements that
/// were there before, each as often as before. The comparison is a total
/// order, so the call does not panic.
#[verifier::external_body]
pub(crate) fn sort_by_rank<TI: TotalOrder>(x: &mut Vec<TI>)
    ensures
        sorted(final(x)@),
        final(x)@.to_multiset() == old(x)@.to_multiset(),
{
    x.sort_by(|a, b| rank_order(a, b))
}

} // verus!
