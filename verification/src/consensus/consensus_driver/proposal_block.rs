//! Blocks as the proposals of consensus.
use vstd::prelude::*;
use crate::block::{same_block, Block};
use crate::consensus::proposal::Proposal;
use crate::hash::{block_hash_value, compute_block_hash};

verus! {

/// A block proposed for a height.
#[derive(Debug, Clone, PartialEq, Eq, Hash)]
pub struct ProposalBlock(Block);

impl ProposalBlock {
    pub closed spec fn block(&self) -> Block {
        self.0
    }

    pub fn new(block: Block) -> (r: Self)
        ensures
            r.block() == block,
    {
        Self(block)
    }

    pub fn as_block(&self) -> (r: &Block)
        ensures
            *r == self.block(),
    {
        &self.0
    }

    pub fn into_block(self) -> (r: Block)
        ensures
            r == self.block(),
    {
        self.0
    }
}

impl Proposal for ProposalBlock {
    open spec fn hashable(&self) -> bool {
        self.block()@.transactions.len() <= 0xffff
    }

    open spec fn same_as(&self, other: &Self) -> bool {
        self.block()@ == other.block()@
    }

    proof fn lemma_same_as_symmetric(&self, other: &Self) {
    }

    proof fn lemma_same_as_reflexive(&self) {
    }

    /// The block's hash.
    fn hash(&self) -> (r: crate::hash::Hash)
        ensures
            r == block_hash_value(self.block()@),
    {
        compute_block_hash(&self.0)
    }

    fn same(&self, other: &Self) -> (r: bool) {
        same_block(&self.0, &other.0)
    }
}

} // verus!
