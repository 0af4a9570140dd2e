//! The proposal a validator is locked on.
use vstd::prelude::*;

verus! {

/// The round in which a validator locked on a proposal, and the proposal's hash.
#[derive(Debug, Clone, Copy, PartialEq, Eq, Hash)]
pub struct Lock {
    pub round: u32,
    pub proposal_hash: crate::hash::Hash,
}

} // verus!
