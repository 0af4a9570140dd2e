//! When a prevote is acceptable.
use vstd::prelude::*;
use crate::address::{contains_address, Address};
use crate::consensus::consensus_config::ConsensusConfig;
use crate::consensus::messages::msg_prevote::{prevote_signature_outcome, MsgPrevote};
use crate::crypto::VerificationError;

verus! {

#[derive(Debug, Clone, Copy, PartialEq, Eq)]
pub enum PrevoteVerificationError {
    InvalidSignature(VerificationError),
    NotValidator { address: Address },
}

/// The checks a prevote must pass, in the order they are made: its signature, then
/// that its signer is one of `validators`.
pub open spec fn prevote_verification(m: MsgPrevote, validators: Seq<Address>) -> Result<
    (),
    PrevoteVerificationError,
> {
    match prevote_signature_outcome(m) {
        Err(e) => Err(PrevoteVerificationError::InvalidSignature(e)),
        Ok(()) => if !validators.contains(m.payload.address) {
            Err(PrevoteVerificationError::NotValidator { address: m.payload.address })
        } else {
            Ok(())
        },
    }
}

pub fn verify_prevote_stateless(msg: &MsgPrevote, consensus_config: &ConsensusConfig) -> (r: Result<
    (),
    PrevoteVerificationError,
>)
    ensures
        r == prevote_verification(*msg, consensus_config.validators@),
{
    if let Err(err) = msg.verify_signature() {
        return Err(PrevoteVerificationError::InvalidSignature(err));
    }
    if !contains_address(&consensus_config.validators, &msg.payload.address) {
        return Err(PrevoteVerificationError::NotValidator { address: msg.payload.address });
    }
    Ok(())
}

} // verus!
