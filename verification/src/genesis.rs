//! The first block of a chain and the state it starts from.
use vstd::prelude::*;
use crate::address::Address;
use crate::block::Block;
use crate::chain_config::ChainConfig;
use crate::hash::{compute_state_hash, state_hash, zero_hash};
use crate::state::StateView;

verus! {

/// What a chain starts from: its configuration, its initial state and its validators.
#[derive(Debug, Clone, PartialEq, Eq)]
pub struct Genesis<S: StateView> {
    pub config: ChainConfig,
    pub initial_state: S,
    pub validators: Vec<Address>,
}

impl<S: StateView> Genesis<S> {
    pub fn new(config: ChainConfig, initial_state: S, validators: Vec<Address>) -> (r: Self)
        ensures
            r.config == config,
            r.initial_state == initial_state,
            r.validators == validators,
    {
        Self { config, initial_state, validators }
    }

    /// The hash of the initial state.
    pub fn state_hash(&self) -> (r: crate::hash::Hash)
        requires
            self.initial_state.wf(),
        ensures
            r@ == state_hash(self.initial_state.entries()),
    {
        compute_state_hash(&self.initial_state)
    }

    /// The genesis block: height 0, the zero previous hash, the initial state's hash
    /// and no transactions.
    pub fn block(&self) -> (r: Block)
        requires
            self.initial_state.wf(),
        ensures
            r.chain_id == self.config.chain_id,
            r.chain_version == self.config.chain_version,
            r.block_height == 0,
            r.previous_block_hash@ == zero_hash(),
            r.state_hash@ == state_hash(self.initial_state.entries()),
            r.transactions@.len() == 0,
    {
        Block::new(
            self.config.chain_id,
            self.config.chain_version,
            0,
            crate::hash::Hash::zero(),
            self.state_hash(),
            Vec::new(),
        )
    }

    /// The parts of the genesis, with its block.
    pub fn into_genesis_block(self) -> (r: (ChainConfig, S, Vec<Address>, Block))
        requires
            self.initial_state.wf(),
        ensures
            r.0 == self.config,
            r.1 == self.initial_state,
            r.2 == self.validators,
            r.3.chain_id == self.config.chain_id,
            r.3.chain_version == self.config.chain_version,
            r.3.block_height == 0,
            r.3.previous_block_hash@ == zero_hash(),
            r.3.state_hash@ == state_hash(self.initial_state.entries()),
            r.3.transactions@.len() == 0,
    {
        let block = self.block();
        (self.config, self.initial_state, self.validators, block)
    }
}

} // verus!
