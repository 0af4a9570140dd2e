//! A small account-based ledger: canonical byte encodings, Ed25519-signed
//! transfers, rolling state hashes, block execution and a chain that only
//! grows by valid blocks.

pub mod bytes;
pub mod account;
pub mod address;
pub mod chain_id;
pub mod chain_version;
pub mod chain_config;
pub mod text;
pub mod codec;
pub mod crypto;
pub mod entries;
pub mod state;
pub mod hash;
pub mod transaction_kind;
pub mod transactions;
pub mod transaction;
pub mod rules;
pub mod block;
pub mod genesis;
pub mod chain;
pub mod consensus;
