//! Turning a received message, once checked, into an input for the state machine.
use vstd::prelude::*;
use crate::address::Address;
use crate::chain_config::ChainConfig;
use crate::consensus::consensus_config::ConsensusConfig;
use crate::consensus::consensus_driver::proposal_block::ProposalBlock;
use crate::consensus::justification::{Evidence, Justification};
use crate::consensus::message::{
    message_checkable, message_verification, Message, MessageModel, MessageVerificationError,
};
use crate::consensus::messages::msg_propose::{ProposeEvidencePayload, ProposeJustificationPayload};
use crate::consensus::state_input::StateInput;

verus! {

/// The evidence of a justification that stands for a piece of a proposal's evidence.
pub open spec fn evidence_of(e: ProposeEvidencePayload) -> Evidence {
    Evidence { address: e.address, signature: e.signature }
}

/// Whether `x` is the input that message `m` stands for.
pub open spec fn input_of_message(x: StateInput<ProposalBlock>, m: MessageModel) -> bool {
    match m {
        MessageModel::Propose(p) => x matches StateInput::ProposalReceived {
            height,
            round,
            proposal,
            justification,
        } && height == p.payload.height && round == p.payload.round && proposal.block()@
            == p.payload.proposal && match (justification, p.payload.justification) {
            (Some(j), Some(pj)) => j.height == pj.height && j.round == pj.round && j.evidences@
                == pj.evidences.map_values(|e: ProposeEvidencePayload| evidence_of(e)),
            (None, None) => true,
            _ => false,
        },
        MessageModel::Prevote(v) => x == StateInput::<ProposalBlock>::PrevoteReceived {
            height: v.payload.height,
            round: v.payload.round,
            address: v.payload.address,
            proposal_hash: v.payload.proposal_hash,
            signature: v.signature,
        },
        MessageModel::Precommit(v) => x == StateInput::<ProposalBlock>::PrecommitReceived {
            height: v.payload.height,
            round: v.payload.round,
            address: v.payload.address,
            proposal_hash: v.payload.proposal_hash,
            signature: v.signature,
        },
    }
}

fn justification_from(justification: ProposeJustificationPayload) -> (r: Justification)
    ensures
        r.height == justification.height,
        r.round == justification.round,
        r.evidences@ == justification.evidences@.map_values(
            |e: ProposeEvidencePayload| evidence_of(e),
        ),
{
    let mut evidences: Vec<Evidence> = Vec::new();
    let mut i: usize = 0;
    while i < justification.evidences.len()
        invariant
            i <= justification.evidences@.len(),
            evidences@ == justification.evidences@.take(i as int).map_values(
                |e: ProposeEvidencePayload| evidence_of(e),
            ),
        decreases justification.evidences@.len() - i,
    {
        let e = justification.evidences[i];
        evidences.push(Evidence::new(e.address, e.signature));
        assert(justification.evidences@.take(i + 1).map_values(
            |e: ProposeEvidencePayload| evidence_of(e),
        ) =~= justification.evidences@.take(i as int).map_values(
            |e: ProposeEvidencePayload| evidence_of(e),
        ).push(evidence_of(e)));
        i = i + 1;
    }
    assert(justification.evidences@.take(justification.evidences@.len() as int)
        =~= justification.evidences@);
    Justification::new(justification.height, justification.round, evidences)
}

/// Checks `message` against the current proposer, the chain's configuration and the
/// validator set, and gives the input it stands for, or why it was refused.
pub fn message_to_state_input(
    message: Message,
    current_proposer: &Address,
    chain_config: &ChainConfig,
    consensus_config: &ConsensusConfig,
) -> (r: Result<StateInput<ProposalBlock>, MessageVerificationError>)
    requires
        message_checkable(message@, *current_proposer, *chain_config),
    ensures
        match message_verification(
            message@,
            *current_proposer,
            *chain_config,
            consensus_config.validators@,
            consensus_config.quorum,
        ) {
            Err(e) => r == Err::<StateInput<ProposalBlock>, MessageVerificationError>(e),
            Ok(()) => r matches Ok(x) && input_of_message(x, message@),
        },
{
    if let Err(err) = message.verify_stateless(current_proposer, chain_config, consensus_config) {
        return Err(err);
    }
    let input = match message {
        Message::Propose(msg_propose) => {
            let payload = msg_propose.payload;
            let justification = match payload.justification {
                Some(j) => Some(justification_from(j)),
                None => None,
            };
            StateInput::ProposalReceived {
                height: payload.height,
                round: payload.round,
                proposal: ProposalBlock::new(payload.proposal),
                justification,
            }
        },
        Message::Prevote(msg_prevote) => StateInput::PrevoteReceived {
            height: msg_prevote.payload.height,
            round: msg_prevote.payload.round,
            address: msg_prevote.payload.address,
            proposal_hash: msg_prevote.payload.proposal_hash,
            signature: msg_prevote.signature,
        },
        Message::Precommit(msg_precommit) => StateInput::PrecommitReceived {
            height: msg_precommit.payload.height,
            round: msg_precommit.payload.round,
            address: msg_precommit.payload.address,
            proposal_hash: msg_precommit.payload.proposal_hash,
            signature: msg_precommit.signature,
        },
    };
    Ok(input)
}

} // verus!
