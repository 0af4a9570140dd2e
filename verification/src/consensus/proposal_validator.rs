//! Deciding whether a proposal may be voted for.
use vstd::prelude::*;
use crate::chain_config::ChainConfig;
use crate::consensus::consensus_config::ConsensusConfig;
use crate::consensus::proposal::Proposal;

verus! {

/// Decides whether a proposal for a height and round is acceptable.
pub trait ProposalValidator<P: Proposal> {
    fn validate(
        &self,
        height: u128,
        round: u32,
        proposal: &P,
        chain_config: &ChainConfig,
        consensus_config: &ConsensusConfig,
    ) -> bool;
}

} // verus!
