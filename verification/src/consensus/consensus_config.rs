//! What a validator needs to take part in consensus.
use vstd::prelude::*;
use crate::address::Address;
use crate::crypto::{address_from_secret_key, ed25519_public_key, SecretKey};

verus! {

/// A validator's key and address, the validator set, how many votes make a quorum and
/// how long a round may take.
pub struct ConsensusConfig {
    pub secret_key: SecretKey,
    pub address: Address,
    pub validators: Vec<Address>,
    pub quorum: usize,
    pub round_timeout_ms: u64,
}

impl ConsensusConfig {
    /// The configuration of the validator whose key is `secret_key`; its address is
    /// the one derived from the key.
    pub fn new(
        secret_key: SecretKey,
        validators: Vec<Address>,
        quorum: usize,
        round_timeout_ms: u64,
    ) -> (r: Self)
        ensures
            r.secret_key == secret_key,
            r.address@ == ed25519_public_key(secret_key.0@),
            r.validators == validators,
            r.quorum == quorum,
            r.round_timeout_ms == round_timeout_ms,
    {
        let address = address_from_secret_key(&secret_key);
        Self { secret_key, address, validators, quorum, round_timeout_ms }
    }
}

} // verus!
