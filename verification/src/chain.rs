//! A chain: a state and the block at its tip, growing only by blocks that
//! follow the tip and execute correctly on the state.
use vstd::prelude::*;
use crate::block::{Block, BlockModel};
use crate::chain_config::ChainConfig;
use crate::entries::{
    lemma_nonempty_merge, lemma_total_balance_nonempty, merge, nonempty, total_balance, Entry,
};
use crate::genesis::Genesis;
use crate::hash::{
    block_hash, compute_block_hash, lemma_hash_view_injective, lemma_state_hash_ignores_empty,
    same_hash, state_hash, zero_hash,
};
use crate::rules::rule_block::{
    block_execution, execute_block, lemma_block_execution_nonempty, lemma_block_keeps_total_balance,
    BlockExecuteError,
};
use crate::state::{State, StateView, WritableState};

verus! {

#[derive(Debug, Clone, PartialEq, Eq)]
pub struct Chain<S: WritableState> {
    config: ChainConfig,
    state: S,
    tip_block: Block,
    tip_block_hash: crate::hash::Hash,
}

#[derive(Debug, Clone, Copy, PartialEq, Eq)]
pub enum ChainAppendError {
    BlockHeightOverflow,
    UnexpectedBlockHeight { expected: u128, actual: u128 },
    PreviousBlockHashMismatch { expected: crate::hash::Hash, actual: crate::hash::Hash },
    BlockExecutionError(BlockExecuteError),
}

impl<S: WritableState> Chain<S> {
    pub closed spec fn cfg(&self) -> ChainConfig {
        self.config
    }

    pub closed spec fn current_state(&self) -> S {
        self.state
    }

    pub closed spec fn tip(&self) -> Block {
        self.tip_block
    }

    pub closed spec fn tip_hash(&self) -> crate::hash::Hash {
        self.tip_block_hash
    }

    /// The state is well formed, the tip block's transactions can be counted in two
    /// bytes, and the tip hash is the hash of the tip block.
    pub open spec fn wf(&self) -> bool {
        &&& self.current_state().wf()
        &&& self.tip()@.transactions.len() <= 0xffff
        &&& self.tip_hash()@ == block_hash(self.tip()@)
    }

    /// What appending a block with model `b` gives: the change the block makes to the
    /// state, or why it is refused.
    pub open spec fn append_result(&self, b: BlockModel) -> Result<Seq<Entry>, ChainAppendError> {
        let height = self.tip()@.block_height;
        if height == u128::MAX {
            Err(ChainAppendError::BlockHeightOverflow)
        } else if b.block_height != height + 1 {
            Err(
                ChainAppendError::UnexpectedBlockHeight {
                    expected: (height + 1) as u128,
                    actual: b.block_height,
                },
            )
        } else if b.previous_block_hash != self.tip_hash() {
            Err(
                ChainAppendError::PreviousBlockHashMismatch {
                    expected: self.tip_hash(),
                    actual: b.previous_block_hash,
                },
            )
        } else {
            match block_execution(b, self.cfg(), self.current_state().entries()) {
                Err(e) => Err(ChainAppendError::BlockExecutionError(e)),
                Ok((d, h)) => Ok(d),
            }
        }
    }

    /// `after` is what this chain becomes when it takes a block with model `b`: the
    /// block is accepted, becomes the tip, and its change is laid over the state.
    pub open spec fn appended(&self, b: BlockModel, after: Self) -> bool {
        &&& self.append_result(b) is Ok
        &&& after.wf()
        &&& after.cfg() == self.cfg()
        &&& after.tip()@ == b
        &&& after.tip_hash()@ == block_hash(b)
        &&& nonempty(after.current_state().entries()) == nonempty(
            merge(self.current_state().entries(), self.append_result(b)->Ok_0),
        )
        &&& total_balance(after.current_state().entries()) == total_balance(
            self.current_state().entries(),
        )
    }

    /// The chain whose tip is the genesis block and whose state is the initial state.
    pub fn new(genesis: Genesis<S>) -> (r: Self)
        requires
            genesis.initial_state.wf(),
        ensures
            r.wf(),
            r.cfg() == genesis.config,
            r.current_state() == genesis.initial_state,
            r.tip().chain_id == genesis.config.chain_id,
            r.tip().chain_version == genesis.config.chain_version,
            r.tip().block_height == 0,
            r.tip().previous_block_hash@ == zero_hash(),
            r.tip().state_hash@ == state_hash(genesis.initial_state.entries()),
            r.tip()@.transactions.len() == 0,
    {
        let (config, state, _validators, tip_block) = genesis.into_genesis_block();
        let tip_block_hash = compute_block_hash(&tip_block);
        Self { config, state, tip_block, tip_block_hash }
    }

    pub fn config(&self) -> (r: &ChainConfig)
        ensures
            *r == self.cfg(),
    {
        &self.config
    }

    pub fn state(&self) -> (r: &S)
        ensures
            *r == self.current_state(),
    {
        &self.state
    }

    pub fn tip_block(&self) -> (r: &Block)
        ensures
            *r == self.tip(),
    {
        &self.tip_block
    }

    pub fn tip_height(&self) -> (r: u128)
        ensures
            r == self.tip().block_height,
    {
        self.tip_block.block_height
    }

    /// The height the next block must have, unless the tip is at the last height.
    pub fn next_block_height(&self) -> (r: Option<u128>)
        ensures
            r == (if self.tip().block_height == u128::MAX {
                None::<u128>
            } else {
                Some((self.tip().block_height + 1) as u128)
            }),
    {
        self.tip_height().checked_add(1)
    }

    pub fn tip_block_hash(&self) -> (r: crate::hash::Hash)
        ensures
            r == self.tip_hash(),
    {
        self.tip_block_hash
    }

    /// Appends `block` when it follows the tip and executes on the state with the
    /// state hash it claims. A refused block leaves the chain as it was.
    pub fn append_block(&mut self, block: Block) -> (r: Result<(), ChainAppendError>)
        requires
            old(self).wf(),
        ensures
            final(self).wf(),
            match old(self).append_result(block@) {
                Err(e) => r == Err::<(), ChainAppendError>(e) && *final(self) == *old(self),
                Ok(d) => {
                    &&& r is Ok
                    &&& old(self).appended(block@, *final(self))
                    &&& block.block_height == old(self).tip().block_height + 1
                    &&& block.previous_block_hash == old(self).tip_hash()
                    &&& final(self).cfg() == old(self).cfg()
                    &&& final(self).tip() == block
                    &&& final(self).tip_hash()@ == block_hash(block@)
                    &&& nonempty(final(self).current_state().entries()) == nonempty(
                        merge(old(self).current_state().entries(), d),
                    )
                    &&& total_balance(final(self).current_state().entries()) == total_balance(
                        old(self).current_state().entries(),
                    )
                },
            },
    {
        let expected_height = match self.tip_block.block_height.checked_add(1) {
            Some(h) => h,
            None => return Err(ChainAppendError::BlockHeightOverflow),
        };
        if block.block_height != expected_height {
            return Err(
                ChainAppendError::UnexpectedBlockHeight {
                    expected: expected_height,
                    actual: block.block_height,
                },
            );
        }
        if !same_hash(&block.previous_block_hash, &self.tip_block_hash) {
            return Err(
                ChainAppendError::PreviousBlockHashMismatch {
                    expected: self.tip_block_hash,
                    actual: block.previous_block_hash,
                },
            );
        }
        let outcome = match execute_block(&block, &self.config, &self.state) {
            Ok(outcome) => outcome,
            Err(err) => return Err(ChainAppendError::BlockExecutionError(err)),
        };
        let block_hash = compute_block_hash(&block);
        let ghost before = self.state.entries();
        let ghost d = outcome.state_delta@;
        proof {
            self.state.lemma_wf_sorted();
            lemma_block_keeps_total_balance(block@, self.config, before);
        }
        self.state.apply_delta(outcome.state_delta);
        proof {
            lemma_total_balance_nonempty(self.state.entries());
            lemma_total_balance_nonempty(merge(before, d));
        }
        self.tip_block = block;
        self.tip_block_hash = block_hash;
        Ok(())
    }
}

/// Two chains that agree on their configuration, their tip, their tip hash and the
/// non-empty accounts of their states answer a block alike, and when they take it
/// they agree again on the non-empty accounts of their states.
pub proof fn lemma_chains_agree<S: WritableState, T: WritableState>(
    a: Chain<S>,
    b: Chain<T>,
    block: BlockModel,
)
    requires
        a.wf(),
        b.wf(),
        a.cfg() == b.cfg(),
        a.tip()@ == b.tip()@,
        a.tip_hash() == b.tip_hash(),
        nonempty(a.current_state().entries()) == nonempty(b.current_state().entries()),
    ensures
        a.append_result(block) == b.append_result(block),
        a.append_result(block) matches Ok(d) ==> nonempty(merge(a.current_state().entries(), d))
            == nonempty(merge(b.current_state().entries(), d)) && state_hash(
            merge(a.current_state().entries(), d),
        ) == state_hash(merge(b.current_state().entries(), d)),
{
    let sa = a.current_state().entries();
    let sb = b.current_state().entries();
    a.current_state().lemma_wf_sorted();
    b.current_state().lemma_wf_sorted();
    lemma_block_execution_nonempty(block, a.cfg(), sa);
    lemma_block_execution_nonempty(block, b.cfg(), sb);
    if let Ok(d) = a.append_result(block) {
        crate::rules::rule_block::lemma_block_change_in_turn(block, a.cfg(), sa);
        crate::rules::rule_block::lemma_transactions_in_turn(
            block.transactions,
            a.cfg(),
            sa,
            Seq::empty(),
            0,
        );
        lemma_nonempty_merge(sa, d);
        lemma_nonempty_merge(sb, d);
        lemma_state_hash_ignores_empty(zero_hash(), merge(sa, d));
        lemma_state_hash_ignores_empty(zero_hash(), merge(sb, d));
    }
}


/// Two chains agree on their configuration, their tip, their tip hash and the
/// non-empty accounts of their states.
pub open spec fn chains_agree<S: WritableState, T: WritableState>(a: Chain<S>, b: Chain<T>) -> bool {
    &&& a.cfg() == b.cfg()
    &&& a.tip()@ == b.tip()@
    &&& a.tip_hash() == b.tip_hash()
    &&& nonempty(a.current_state().entries()) == nonempty(b.current_state().entries())
}

/// Two chains that agree, and that take the same blocks in the same order, agree
/// after every block: on configuration, tip, tip hash, non-empty accounts and state
/// hash. Each has moved up one height per block and kept its total balance.
pub proof fn lemma_replay_agrees<S: WritableState, T: WritableState>(
    a: Seq<Chain<S>>,
    b: Seq<Chain<T>>,
    blocks: Seq<BlockModel>,
)
    requires
        a.len() == blocks.len() + 1,
        b.len() == blocks.len() + 1,
        a[0].wf(),
        b[0].wf(),
        chains_agree(a[0], b[0]),
        forall|i: int| 0 <= i < blocks.len() ==> #[trigger] a[i].appended(blocks[i], a[i + 1]),
        forall|i: int| 0 <= i < blocks.len() ==> #[trigger] b[i].appended(blocks[i], b[i + 1]),
    ensures
        a.last().wf(),
        b.last().wf(),
        chains_agree(a.last(), b.last()),
        state_hash(a.last().current_state().entries()) == state_hash(
            b.last().current_state().entries(),
        ),
        a.last().tip()@.block_height == a[0].tip()@.block_height + blocks.len(),
        total_balance(a.last().current_state().entries()) == total_balance(
            a[0].current_state().entries(),
        ),
        total_balance(b.last().current_state().entries()) == total_balance(
            b[0].current_state().entries(),
        ),
    decreases blocks.len(),
{
    let k = blocks.len() as int;
    if k == 0 {
        lemma_state_hash_ignores_empty(zero_hash(), a[0].current_state().entries());
        lemma_state_hash_ignores_empty(zero_hash(), b[0].current_state().entries());
    } else {
        let a0 = a.drop_last();
        let b0 = b.drop_last();
        let bl = blocks.drop_last();
        assert forall|i: int| 0 <= i < bl.len() implies #[trigger] a0[i].appended(bl[i], a0[i + 1]) by {
            assert(a0[i] == a[i] && a0[i + 1] == a[i + 1] && bl[i] == blocks[i]);
            assert(a[i].appended(blocks[i], a[i + 1]));
        }
        assert forall|i: int| 0 <= i < bl.len() implies #[trigger] b0[i].appended(bl[i], b0[i + 1]) by {
            assert(b0[i] == b[i] && b0[i + 1] == b[i + 1] && bl[i] == blocks[i]);
            assert(b[i].appended(blocks[i], b[i + 1]));
        }
        lemma_replay_agrees(a0, b0, bl);
        let pa = a[k - 1];
        let pb = b[k - 1];
        assert(pa == a0.last() && pb == b0.last());
        assert(pa.appended(blocks[k - 1], a[k]));
        assert(pb.appended(blocks[k - 1], b[k]));
        lemma_chains_agree(pa, pb, blocks[k - 1]);
        let na = a.last();
        let nb = b.last();
        assert(na == a[k] && nb == b[k]);
        lemma_hash_view_injective(na.tip_hash(), nb.tip_hash());
        lemma_state_hash_ignores_empty(zero_hash(), na.current_state().entries());
        lemma_state_hash_ignores_empty(zero_hash(), nb.current_state().entries());
        assert(a0[0] == a[0]);
        assert(b0[0] == b[0]);
    }
}


/// Two chains of `State` that agree and take the same blocks in the same order end
/// with the same accounts, row for row, besides the same tip, tip hash and state
/// hash.
pub proof fn lemma_replay_same_state(
    a: Seq<Chain<State>>,
    b: Seq<Chain<State>>,
    blocks: Seq<BlockModel>,
)
    requires
        a.len() == blocks.len() + 1,
        b.len() == blocks.len() + 1,
        a[0].wf(),
        b[0].wf(),
        chains_agree(a[0], b[0]),
        forall|i: int| 0 <= i < blocks.len() ==> #[trigger] a[i].appended(blocks[i], a[i + 1]),
        forall|i: int| 0 <= i < blocks.len() ==> #[trigger] b[i].appended(blocks[i], b[i + 1]),
    ensures
        a.last().current_state().entries() == b.last().current_state().entries(),
        a.last().tip()@ == b.last().tip()@,
        a.last().tip_hash() == b.last().tip_hash(),
        state_hash(a.last().current_state().entries()) == state_hash(
            b.last().current_state().entries(),
        ),
{
    lemma_replay_agrees(a, b, blocks);
    a.last().current_state().lemma_keeps_no_empty_rows();
    b.last().current_state().lemma_keeps_no_empty_rows();
}

} // verus!
