use vstd::prelude::*;
use crate::chain_id::ChainId;
use crate::chain_version::ChainVersion;

verus! {

/// What a chain accepts: its identifier, its version and how many
/// transactions a block may hold.
#[derive(Debug, Clone, Copy, PartialEq, Eq, Hash, Structural)]
pub struct ChainConfig {
    pub chain_id: ChainId,
    pub chain_version: ChainVersion,
    pub max_transactions_per_block: usize,
}

} // verus!
