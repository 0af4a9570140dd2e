//! Accepting proposed blocks by their height and the checks that need no state.
use vstd::prelude::*;
use crate::chain_config::ChainConfig;
use crate::consensus::consensus_config::ConsensusConfig;
use crate::consensus::consensus_driver::proposal_block::ProposalBlock;
use crate::consensus::proposal_validator::ProposalValidator;
use crate::rules::rule_block::{block_verification, verify_block_stateless};

verus! {

/// Accepts a proposed block when it is for the height being decided and passes the
/// block checks.
pub struct ProposalBlockValidator;

impl ProposalValidator<ProposalBlock> for ProposalBlockValidator {
    fn validate(
        &self,
        height: u128,
        _round: u32,
        proposal: &ProposalBlock,
        chain_config: &ChainConfig,
        _consensus_config: &ConsensusConfig,
    ) -> (r: bool)
        ensures
            r == (proposal.block().block_height == height && block_verification(
                proposal.block()@,
                *chain_config,
            ) is Ok),
    {
        let block = proposal.as_block();
        if block.block_height != height {
            return false;
        }
        verify_block_stateless(block, chain_config).is_ok()
    }
}

} // verus!
