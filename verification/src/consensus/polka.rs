//! A proposal together with the quorum of prevotes it received.
use vstd::prelude::*;
use crate::consensus::justification::Justification;

verus! {

/// A proposal, its hash, and the prevotes of a quorum for it.
#[derive(Clone)]
pub struct Polka<P> {
    pub proposal: P,
    pub proposal_hash: crate::hash::Hash,
    pub justification: Justification,
}

} // verus!
