//! Building the messages a validator sends, signed with its key.
use vstd::prelude::*;
use crate::block::Block;
use crate::consensus::consensus_config::ConsensusConfig;
use crate::consensus::consensus_driver::proposal_block::ProposalBlock;
use crate::consensus::justification::Evidence;
use crate::consensus::messages::msg_precommit::{
    precommit_signing_bytes, MsgPrecommit, PrecommitPayload,
};
use crate::consensus::messages::msg_prevote::{prevote_signing_bytes, MsgPrevote, PrevotePayload};
use crate::consensus::messages::msg_propose::{
    propose_signing_bytes, MsgPropose, ProposeEvidencePayload, ProposeJustificationPayload,
    ProposePayload,
};
use crate::consensus::polka::Polka;
use crate::crypto::{ed25519_signature, sign};

verus! {

/// The evidence of a proposal that stands for a piece of justifying evidence.
pub open spec fn evidence_payload(e: Evidence) -> ProposeEvidencePayload {
    ProposeEvidencePayload { address: e.address, signature: e.signature }
}

fn evidence_payloads(evidences: Vec<Evidence>) -> (r: Vec<ProposeEvidencePayload>)
    ensures
        r@ == evidences@.map_values(|e: Evidence| evidence_payload(e)),
{
    let mut out: Vec<ProposeEvidencePayload> = Vec::new();
    let mut i: usize = 0;
    while i < evidences.len()
        invariant
            i <= evidences@.len(),
            out@ == evidences@.take(i as int).map_values(|e: Evidence| evidence_payload(e)),
        decreases evidences@.len() - i,
    {
        let e = evidences[i];
        out.push(ProposeEvidencePayload::new(e.address, e.signature));
        assert(evidences@.take(i + 1).map_values(|e: Evidence| evidence_payload(e)) =~= evidences@.take(
            i as int,
        ).map_values(|e: Evidence| evidence_payload(e)).push(evidence_payload(e)));
        i = i + 1;
    }
    assert(evidences@.take(evidences@.len() as int) =~= evidences@);
    out
}

/// Re-proposes the block of `polka`, justified by its prevotes, signed with the
/// validator's key.
pub fn make_propose_message_using_polka(
    height: u128,
    round: u32,
    polka: Polka<ProposalBlock>,
    consensus_config: &ConsensusConfig,
) -> (r: MsgPropose)
    requires
        polka.proposal.block()@.transactions.len() <= 0xffff,
        polka.justification.evidences@.len() <= 0xffff,
    ensures
        r.payload.height == height,
        r.payload.round == round,
        r.payload.address == consensus_config.address,
        r.payload.proposal == polka.proposal.block(),
        r.payload.justification matches Some(j) && j.height == polka.justification.height
            && j.round == polka.justification.round && j.proposal_hash == polka.proposal_hash
            && j.evidences@ == polka.justification.evidences@.map_values(
            |e: Evidence| evidence_payload(e),
        ),
        r.signature@ == ed25519_signature(
            consensus_config.secret_key.0@,
            propose_signing_bytes(r.payload@),
        ),
{
    let evidences = evidence_payloads(polka.justification.evidences);
    let payload = ProposePayload::new(
        height,
        round,
        consensus_config.address,
        polka.proposal.into_block(),
        Some(
            ProposeJustificationPayload::new(
                polka.justification.height,
                polka.justification.round,
                polka.proposal_hash,
                evidences,
            ),
        ),
    );
    let mut out: Vec<u8> = Vec::new();
    payload.encode_signing_payload(&mut out);
    let signature = sign(&consensus_config.secret_key, out.as_slice());
    MsgPropose::new(payload, signature)
}

/// Proposes `block`, signed with the validator's key.
pub fn make_propose_message_using_block(
    height: u128,
    round: u32,
    block: Block,
    consensus_config: &ConsensusConfig,
) -> (r: MsgPropose)
    requires
        block@.transactions.len() <= 0xffff,
    ensures
        r.payload.height == height,
        r.payload.round == round,
        r.payload.address == consensus_config.address,
        r.payload.proposal == block,
        r.payload.justification is None,
        r.signature@ == ed25519_signature(
            consensus_config.secret_key.0@,
            propose_signing_bytes(r.payload@),
        ),
{
    let payload = ProposePayload::new(height, round, consensus_config.address, block, None);
    let mut out: Vec<u8> = Vec::new();
    payload.encode_signing_payload(&mut out);
    let signature = sign(&consensus_config.secret_key, out.as_slice());
    MsgPropose::new(payload, signature)
}

/// A prevote for `proposal_hash`, or for none, signed with the validator's key.
pub fn make_prevote_message(
    height: u128,
    round: u32,
    proposal_hash: Option<crate::hash::Hash>,
    consensus_config: &ConsensusConfig,
) -> (r: MsgPrevote)
    ensures
        r.payload == (PrevotePayload {
            height,
            round,
            address: consensus_config.address,
            proposal_hash,
        }),
        r.signature@ == ed25519_signature(
            consensus_config.secret_key.0@,
            prevote_signing_bytes(r.payload),
        ),
{
    let payload = PrevotePayload::new(height, round, consensus_config.address, proposal_hash);
    let mut out: Vec<u8> = Vec::with_capacity(payload.signing_payload_len());
    payload.encode_signing_payload(&mut out);
    let signature = sign(&consensus_config.secret_key, out.as_slice());
    MsgPrevote::new(payload, signature)
}

/// A precommit for `proposal_hash`, or for none, signed with the validator's key.
pub fn make_precommit_message(
    height: u128,
    round: u32,
    proposal_hash: Option<crate::hash::Hash>,
    consensus_config: &ConsensusConfig,
) -> (r: MsgPrecommit)
    ensures
        r.payload == (PrecommitPayload {
            height,
            round,
            address: consensus_config.address,
            proposal_hash,
        }),
        r.signature@ == ed25519_signature(
            consensus_config.secret_key.0@,
            precommit_signing_bytes(r.payload),
        ),
{
    let payload = PrecommitPayload::new(height, round, consensus_config.address, proposal_hash);
    let mut out: Vec<u8> = Vec::with_capacity(payload.signing_payload_len());
    payload.encode_signing_payload(&mut out);
    let signature = sign(&consensus_config.secret_key, out.as_slice());
    MsgPrecommit::new(payload, signature)
}

} // verus!
