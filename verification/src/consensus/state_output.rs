//! What the consensus state machine asks of the driver that runs it.
use vstd::prelude::*;
use crate::consensus::polka::Polka;

verus! {

/// A request of the state machine: start a timer or a round, propose, vote, commit a
/// proposal, or give up a round for the reason `R` it reports.
#[allow(inconsistent_fields)]
#[derive(Clone)]
pub enum StateOutput<P, R> {
    StartTimeout { height: u128, round: u32, timeout_ms: u64 },
    StartRound { height: u128, round: u32 },
    Propose { height: u128, round: u32, polka: Option<Polka<P>> },
    Prevote { height: u128, round: u32, proposal_hash: Option<crate::hash::Hash> },
    Precommit { height: u128, round: u32, proposal_hash: Option<crate::hash::Hash> },
    Commit { height: u128, round: u32, proposal: P },
    RoundFailure { height: u128, round: u32, reason: R },
}

} // verus!
