//! When a precommit is acceptable.
use vstd::prelude::*;
use crate::address::{contains_address, Address};
use crate::consensus::consensus_config::ConsensusConfig;
use crate::consensus::messages::msg_precommit::{precommit_signature_outcome, MsgPrecommit};
use crate::crypto::VerificationError;

verus! {

#[derive(Debug, Clone, Copy, PartialEq, Eq)]
pub enum PrecommitVerificationError {
    InvalidSignature(VerificationError),
    NotValidator { address: Address },
}

/// The checks a precommit must pass, in the order they are made: its signature, then
/// that its signer is one of `validators`.
pub open spec fn precommit_verification(m: MsgPrecommit, validators: Seq<Address>) -> Result<
    (),
    PrecommitVerificationError,
> {
    match precommit_signature_outcome(m) {
        Err(e) => Err(PrecommitVerificationError::InvalidSignature(e)),
        Ok(()) => if !validators.contains(m.payload.address) {
            Err(PrecommitVerificationError::NotValidator { address: m.payload.address })
        } else {
            Ok(())
        },
    }
}

pub fn verify_precommit_stateless(msg: &MsgPrecommit, consensus_config: &ConsensusConfig) -> (r: Result<
    (),
    PrecommitVerificationError,
>)
    ensures
        r == precommit_verification(*msg, consensus_config.validators@),
{
    if let Err(err) = msg.verify_signature() {
        return Err(PrecommitVerificationError::InvalidSignature(err));
    }
    if !contains_address(&consensus_config.validators, &msg.payload.address) {
        return Err(PrecommitVerificationError::NotValidator { address: msg.payload.address });
    }
    Ok(())
}

} // verus!
