//! The prevotes that justify a proposal.
use vstd::prelude::*;
use crate::address::{same_address, Address};
use crate::crypto::{same_signature, Signature};

verus! {

/// The prevotes a quorum cast for a proposal at a height and round.
#[derive(Debug, Clone, PartialEq, Eq, Hash)]
pub struct Justification {
    pub height: u128,
    pub round: u32,
    pub evidences: Vec<Evidence>,
}

/// One prevote of a justification: the voter and its signature.
#[derive(Debug, Clone, Copy, PartialEq, Eq, Hash)]
pub struct Evidence {
    pub address: Address,
    pub signature: Signature,
}

/// A justification as a mathematical value.
pub struct JustificationModel {
    pub height: u128,
    pub round: u32,
    pub evidences: Seq<Evidence>,
}

impl View for Justification {
    type V = JustificationModel;

    open spec fn view(&self) -> JustificationModel {
        JustificationModel { height: self.height, round: self.round, evidences: self.evidences@ }
    }
}

impl Justification {
    pub fn new(height: u128, round: u32, evidences: Vec<Evidence>) -> (r: Self)
        ensures
            r.height == height,
            r.round == round,
            r.evidences == evidences,
    {
        Self { height, round, evidences }
    }
}

impl Evidence {
    pub fn new(address: Address, signature: Signature) -> (r: Self)
        ensures
            r == (Evidence { address, signature }),
    {
        Self { address, signature }
    }
}

/// Whether two justifications say the same.
pub fn same_justification(a: &Justification, b: &Justification) -> (r: bool)
    ensures
        r <==> a@ == b@,
{
    if a.height != b.height || a.round != b.round || a.evidences.len() != b.evidences.len() {
        return false;
    }
    let mut i: usize = 0;
    while i < a.evidences.len()
        invariant
            i <= a.evidences@.len(),
            a.evidences@.len() == b.evidences@.len(),
            forall|k: int| 0 <= k < i ==> a.evidences@[k] == b.evidences@[k],
        decreases a.evidences@.len() - i,
    {
        let x = a.evidences[i];
        let y = b.evidences[i];
        if !(same_address(&x.address, &y.address) && same_signature(&x.signature, &y.signature)) {
            return false;
        }
        i = i + 1;
    }
    assert(a.evidences@ =~= b.evidences@);
    true
}

} // verus!
