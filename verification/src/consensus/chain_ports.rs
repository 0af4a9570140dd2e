//! What a validator backed by a chain decides when consensus asks it for a block,
//! asks it to judge a proposal, or commits a block.
use vstd::prelude::*;
use crate::block::Block;
use crate::chain::{Chain, ChainAppendError};
use crate::chain_config::ChainConfig;
use crate::consensus::consensus_driver::proposal_block::ProposalBlock;
use crate::entries::{merge, nonempty};
use crate::hash::block_hash;
use crate::rules::rule_block::{block_execution, execute_block};
use crate::state::WritableState;

verus! {

/// Whether `proposal` is acceptable to `chain` at `height`: `height` is the chain's
/// next height and the block executes on the chain's state.
pub fn validate_proposal_on_chain<S: WritableState>(
    chain: &Chain<S>,
    height: u128,
    proposal: &ProposalBlock,
    chain_config: &ChainConfig,
) -> (r: bool)
    requires
        chain.wf(),
    ensures
        r == (chain.tip().block_height < u128::MAX && height == chain.tip().block_height + 1
            && block_execution(
            proposal.block()@,
            *chain_config,
            chain.current_state().entries(),
        ) is Ok),
{
    let expected_height = match chain.next_block_height() {
        Some(h) => h,
        None => return false,
    };
    if expected_height != height {
        return false;
    }
    execute_block(proposal.as_block(), chain_config, chain.state()).is_ok()
}

/// The candidate block for `height` when that is the chain's next height: a block
/// of the chain's id and version at that height, with the previous block hash and
/// the state hash of the tip block and no transactions.
pub fn candidate_block<S: WritableState>(chain: &Chain<S>, height: u128) -> (r: Option<Block>)
    requires
        chain.wf(),
    ensures
        r is Some <==> (chain.tip().block_height < u128::MAX && height == chain.tip().block_height
            + 1),
        r matches Some(b) ==> {
            &&& b.chain_id == chain.cfg().chain_id
            &&& b.chain_version == chain.cfg().chain_version
            &&& b.block_height == height
            &&& b.previous_block_hash == chain.tip().previous_block_hash
            &&& b.state_hash == chain.tip().state_hash
            &&& b@.transactions.len() == 0
        },
{
    let next_height = match chain.next_block_height() {
        Some(h) => h,
        None => return None,
    };
    if next_height != height {
        return None;
    }
    let config = chain.config();
    let tip_block = chain.tip_block();
    Some(
        Block::new(
            config.chain_id,
            config.chain_version,
            next_height,
            tip_block.previous_block_hash,
            tip_block.state_hash,
            Vec::new(),
        ),
    )
}

/// Appends a block committed at `height` to the chain, when `height` is the block's
/// own height; otherwise the block is ignored.
pub fn commit_block<S: WritableState>(chain: &mut Chain<S>, height: u128, block: Block) -> (r: Option<
    Result<(), ChainAppendError>,
>)
    requires
        old(chain).wf(),
    ensures
        final(chain).wf(),
        height != block.block_height ==> r is None && *final(chain) == *old(chain),
        height == block.block_height ==> match old(chain).append_result(block@) {
            Err(e) => r == Some(Err::<(), ChainAppendError>(e)) && *final(chain) == *old(chain),
            Ok(d) => {
                &&& r == Some(Ok::<(), ChainAppendError>(()))
                &&& final(chain).cfg() == old(chain).cfg()
                &&& final(chain).tip() == block
                &&& final(chain).tip_hash()@ == block_hash(block@)
                &&& nonempty(final(chain).current_state().entries()) == nonempty(
                    merge(old(chain).current_state().entries(), d),
                )
            },
        },
{
    if height != block.block_height {
        return None;
    }
    let result = chain.append_block(block);
    proof {
        if let Ok(u) = result {
            assert(u == ());
            assert(result == Ok::<(), ChainAppendError>(()));
        }
    }
    Some(result)
}

} // verus!
