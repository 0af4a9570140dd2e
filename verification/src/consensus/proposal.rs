//! What consensus agrees on.
use vstd::prelude::*;

verus! {

/// A value that validators propose and vote on.
pub trait Proposal: Sized {
    /// Whether the proposal can be hashed.
    spec fn hashable(&self) -> bool;

    /// When two proposals count as the same.
    spec fn same_as(&self, other: &Self) -> bool;

    /// Being the same proposal does not depend on which of the two is asked.
    proof fn lemma_same_as_symmetric(&self, other: &Self)
        ensures
            self.same_as(other) == other.same_as(self),
    ;

    /// Every proposal is the same as itself.
    proof fn lemma_same_as_reflexive(&self)
        ensures
            self.same_as(self),
    ;

    /// The hash that votes name the proposal by.
    fn hash(&self) -> (r: crate::hash::Hash)
        requires
            self.hashable(),
    ;

    /// Whether `self` and `other` are the same proposal.
    fn same(&self, other: &Self) -> (r: bool)
        ensures
            r == self.same_as(other),
    ;
}

} // verus!
