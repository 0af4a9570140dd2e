//! What drives the consensus state machine: the start of a height or a round,
//! received messages and timeouts.
use vstd::prelude::*;
use crate::address::{same_address, Address};
use crate::consensus::justification::{same_justification, Justification};
use crate::consensus::proposal::Proposal;
use crate::crypto::{same_signature, Signature};

verus! {

#[allow(inconsistent_fields)]
#[derive(Debug, Clone, PartialEq, Eq)]
pub enum StateInput<P> {
    StartHeight { height: u128 },
    StartRound { height: u128, round: u32 },
    ProposalReceived {
        height: u128,
        round: u32,
        proposal: P,
        justification: Option<Justification>,
    },
    PrevoteReceived {
        height: u128,
        round: u32,
        address: Address,
        proposal_hash: Option<crate::hash::Hash>,
        signature: Signature,
    },
    PrecommitReceived {
        height: u128,
        round: u32,
        address: Address,
        proposal_hash: Option<crate::hash::Hash>,
        signature: Signature,
    },
    RoundTimeout { height: u128, round: u32 },
}

/// The height and round an input belongs to; the start of a height belongs to its
/// round 0.
pub open spec fn input_height_round<P>(x: StateInput<P>) -> (u128, u32) {
    match x {
        StateInput::StartHeight { height } => (height, 0),
        StateInput::StartRound { height, round } => (height, round),
        StateInput::ProposalReceived { height, round, .. } => (height, round),
        StateInput::PrevoteReceived { height, round, .. } => (height, round),
        StateInput::PrecommitReceived { height, round, .. } => (height, round),
        StateInput::RoundTimeout { height, round } => (height, round),
    }
}

/// How early an input is handled among those of the same height and round: the
/// higher, the earlier.
pub open spec fn input_priority<P>(x: StateInput<P>) -> nat {
    match x {
        StateInput::StartHeight { .. } => 1,
        StateInput::StartRound { .. } => 0,
        StateInput::ProposalReceived { .. } => 4,
        StateInput::PrevoteReceived { .. } => 2,
        StateInput::PrecommitReceived { .. } => 3,
        StateInput::RoundTimeout { .. } => 0,
    }
}

/// Whether `(h1, r1)` comes before `(h2, r2)`.
pub open spec fn height_round_lt(a: (u128, u32), b: (u128, u32)) -> bool {
    a.0 < b.0 || (a.0 == b.0 && a.1 < b.1)
}

/// Whether input `a` is handled before input `b`: an earlier height and round first,
/// and within one height and round the higher priority first.
pub open spec fn input_lt<P>(a: StateInput<P>, b: StateInput<P>) -> bool {
    let ha = input_height_round(a);
    let hb = input_height_round(b);
    height_round_lt(ha, hb) || (ha == hb && input_priority(a) > input_priority(b))
}

/// Whether two inputs are the same input.
pub open spec fn inputs_same<P: Proposal>(a: StateInput<P>, b: StateInput<P>) -> bool {
    match (a, b) {
        (StateInput::StartHeight { height: h1 }, StateInput::StartHeight { height: h2 }) => h1
            == h2,
        (
            StateInput::StartRound { height: h1, round: r1 },
            StateInput::StartRound { height: h2, round: r2 },
        ) => h1 == h2 && r1 == r2,
        (
            StateInput::ProposalReceived {
                height: h1,
                round: r1,
                proposal: p1,
                justification: j1,
            },
            StateInput::ProposalReceived {
                height: h2,
                round: r2,
                proposal: p2,
                justification: j2,
            },
        ) => h1 == h2 && r1 == r2 && p1.same_as(&p2) && match (j1, j2) {
            (Some(x), Some(y)) => x@ == y@,
            (None, None) => true,
            _ => false,
        },
        (
            StateInput::PrevoteReceived {
                height: h1,
                round: r1,
                address: a1,
                proposal_hash: p1,
                signature: s1,
            },
            StateInput::PrevoteReceived {
                height: h2,
                round: r2,
                address: a2,
                proposal_hash: p2,
                signature: s2,
            },
        ) => h1 == h2 && r1 == r2 && a1 == a2 && p1 == p2 && s1 == s2,
        (
            StateInput::PrecommitReceived {
                height: h1,
                round: r1,
                address: a1,
                proposal_hash: p1,
                signature: s1,
            },
            StateInput::PrecommitReceived {
                height: h2,
                round: r2,
                address: a2,
                proposal_hash: p2,
                signature: s2,
            },
        ) => h1 == h2 && r1 == r2 && a1 == a2 && p1 == p2 && s1 == s2,
        (
            StateInput::RoundTimeout { height: h1, round: r1 },
            StateInput::RoundTimeout { height: h2, round: r2 },
        ) => h1 == h2 && r1 == r2,
        _ => false,
    }
}

/// Being the same input does not depend on which of the two is asked.
pub proof fn lemma_inputs_same_symmetric<P: Proposal>(a: StateInput<P>, b: StateInput<P>)
    ensures
        inputs_same(a, b) == inputs_same(b, a),
{
    if let (
        StateInput::ProposalReceived { proposal: p1, .. },
        StateInput::ProposalReceived { proposal: p2, .. },
    ) = (a, b) {
        p1.lemma_same_as_symmetric(&p2);
    }
}

/// Every input is the same as itself.
pub proof fn lemma_inputs_same_reflexive<P: Proposal>(a: StateInput<P>)
    ensures
        inputs_same(a, a),
{
    if let StateInput::ProposalReceived { proposal, .. } = a {
        proposal.lemma_same_as_reflexive();
    }
}

/// The height and round an input belongs to.
pub fn height_round<P>(state_input: &StateInput<P>) -> (r: (u128, u32))
    ensures
        r == input_height_round(*state_input),
{
    match state_input {
        StateInput::StartHeight { height } => (*height, 0),
        StateInput::StartRound { height, round } => (*height, *round),
        StateInput::ProposalReceived { height, round, .. } => (*height, *round),
        StateInput::PrevoteReceived { height, round, .. } => (*height, *round),
        StateInput::PrecommitReceived { height, round, .. } => (*height, *round),
        StateInput::RoundTimeout { height, round } => (*height, *round),
    }
}

/// How early an input is handled among those of the same height and round.
pub fn priority<P>(state_input: &StateInput<P>) -> (r: usize)
    ensures
        r == input_priority(*state_input),
{
    match state_input {
        StateInput::StartHeight { .. } => 1,
        StateInput::StartRound { .. } => 0,
        StateInput::ProposalReceived { .. } => 4,
        StateInput::PrevoteReceived { .. } => 2,
        StateInput::PrecommitReceived { .. } => 3,
        StateInput::RoundTimeout { .. } => 0,
    }
}

/// Whether input `a` is handled before input `b`.
pub fn input_before<P>(a: &StateInput<P>, b: &StateInput<P>) -> (r: bool)
    ensures
        r == input_lt(*a, *b),
{
    let (ha, ra) = height_round(a);
    let (hb, rb) = height_round(b);
    if ha != hb {
        return ha < hb;
    }
    if ra != rb {
        return ra < rb;
    }
    priority(a) > priority(b)
}

fn same_hash_option(a: &Option<crate::hash::Hash>, b: &Option<crate::hash::Hash>) -> (r: bool)
    ensures
        r <==> *a == *b,
{
    match (a, b) {
        (Some(x), Some(y)) => crate::hash::same_hash(x, y),
        (None, None) => true,
        _ => false,
    }
}

/// Whether two inputs are the same input.
pub fn same_input<P: Proposal>(a: &StateInput<P>, b: &StateInput<P>) -> (r: bool)
    ensures
        r == inputs_same(*a, *b),
{
    match (a, b) {
        (StateInput::StartHeight { height: h1 }, StateInput::StartHeight { height: h2 }) => *h1
            == *h2,
        (
            StateInput::StartRound { height: h1, round: r1 },
            StateInput::StartRound { height: h2, round: r2 },
        ) => *h1 == *h2 && *r1 == *r2,
        (
            StateInput::ProposalReceived {
                height: h1,
                round: r1,
                proposal: p1,
                justification: j1,
            },
            StateInput::ProposalReceived {
                height: h2,
                round: r2,
                proposal: p2,
                justification: j2,
            },
        ) => {
            if *h1 != *h2 || *r1 != *r2 || !p1.same(p2) {
                return false;
            }
            match (j1, j2) {
                (Some(x), Some(y)) => same_justification(x, y),
                (None, None) => true,
                _ => false,
            }
        },
        (
            StateInput::PrevoteReceived {
                height: h1,
                round: r1,
                address: a1,
                proposal_hash: p1,
                signature: s1,
            },
            StateInput::PrevoteReceived {
                height: h2,
                round: r2,
                address: a2,
                proposal_hash: p2,
                signature: s2,
            },
        ) => *h1 == *h2 && *r1 == *r2 && same_address(a1, a2) && same_hash_option(p1, p2)
            && same_signature(s1, s2),
        (
            StateInput::PrecommitReceived {
                height: h1,
                round: r1,
                address: a1,
                proposal_hash: p1,
                signature: s1,
            },
            StateInput::PrecommitReceived {
                height: h2,
                round: r2,
                address: a2,
                proposal_hash: p2,
                signature: s2,
            },
        ) => *h1 == *h2 && *r1 == *r2 && same_address(a1, a2) && same_hash_option(p1, p2)
            && same_signature(s1, s2),
        (
            StateInput::RoundTimeout { height: h1, round: r1 },
            StateInput::RoundTimeout { height: h2, round: r2 },
        ) => *h1 == *h2 && *r1 == *r2,
        _ => false,
    }
}

} // verus!
