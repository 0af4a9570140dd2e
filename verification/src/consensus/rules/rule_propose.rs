//! When a proposal is acceptable.
use vstd::prelude::*;
use crate::address::{contains_address, same_address, Address};
use crate::chain_config::ChainConfig;
use crate::consensus::consensus_config::ConsensusConfig;
use crate::consensus::messages::msg_prevote::{prevote_signature_outcome, MsgPrevote, PrevotePayload};
use crate::consensus::messages::msg_propose::{
    propose_signature_outcome, MsgPropose, MsgProposeModel, ProposeEvidencePayload,
    ProposeJustificationModel,
};
use crate::crypto::VerificationError;
use crate::hash::{block_hash_value, compute_block_hash, same_hash};
use crate::rules::rule_block::{block_verification, verify_block_stateless, BlockVerificationError};

verus! {

#[allow(inconsistent_fields)]
#[derive(Debug, Clone, Copy, PartialEq, Eq)]
pub enum ProposeVerificationError {
    NotCurrentProposer { expected: Address, actual: Address },
    InvalidBlock(BlockVerificationError),
    InvalidSignature(VerificationError),
    NotValidator { address: Address },
    InvalidJustificationHeight { expected: u128, actual: u128 },
    InvalidJustificationRound { expected: u32, actual: u32 },
    NotEnoughEvidence { quorum: usize, evidence_count: usize },
    InvalidJustificationProposalHash { expected: crate::hash::Hash, actual: crate::hash::Hash },
    DuplicateEvidence { index: usize, address: Address },
    EvidenceNotValidator { index: usize, address: Address },
    InvalidEvidenceSignature { index: usize, err: VerificationError },
}

/// The prevote that a piece of evidence stands for: the voter's prevote, at the
/// justification's height and round, for the justified proposal.
pub open spec fn evidence_prevote(j: ProposeJustificationModel, e: ProposeEvidencePayload) -> MsgPrevote {
    MsgPrevote {
        payload: PrevotePayload {
            height: j.height,
            round: j.round,
            address: e.address,
            proposal_hash: Some(j.proposal_hash),
        },
        signature: e.signature,
    }
}

/// Whether the voter of evidence `i` already voted in one of the evidences before it.
pub open spec fn evidence_repeated(s: Seq<ProposeEvidencePayload>, i: int) -> bool {
    exists|k: int| 0 <= k < i && #[trigger] s[k].address == s[i].address
}

/// The checks on the evidences of `j` from index `i` on, in order: each voter is new,
/// is a validator, and signed the prevote the evidence stands for.
pub open spec fn evidences_verification(
    j: ProposeJustificationModel,
    validators: Seq<Address>,
    i: int,
) -> Result<(), ProposeVerificationError>
    decreases j.evidences.len() - i,
{
    if i < 0 || i >= j.evidences.len() {
        Ok(())
    } else {
        let e = j.evidences[i];
        if evidence_repeated(j.evidences, i) {
            Err(ProposeVerificationError::DuplicateEvidence { index: i as usize, address: e.address })
        } else if !validators.contains(e.address) {
            Err(
                ProposeVerificationError::EvidenceNotValidator {
                    index: i as usize,
                    address: e.address,
                },
            )
        } else {
            match prevote_signature_outcome(evidence_prevote(j, e)) {
                Err(err) => Err(
                    ProposeVerificationError::InvalidEvidenceSignature { index: i as usize, err },
                ),
                Ok(()) => evidences_verification(j, validators, i + 1),
            }
        }
    }
}

/// The checks on the justification of a proposal.
pub open spec fn justification_verification(
    m: MsgProposeModel,
    j: ProposeJustificationModel,
    validators: Seq<Address>,
    quorum: usize,
) -> Result<(), ProposeVerificationError> {
    if j.height != m.payload.height {
        Err(
            ProposeVerificationError::InvalidJustificationHeight {
                expected: m.payload.height,
                actual: j.height,
            },
        )
    } else if j.round >= m.payload.round {
        Err(
            ProposeVerificationError::InvalidJustificationRound {
                expected: m.payload.round,
                actual: j.round,
            },
        )
    } else if j.evidences.len() < quorum {
        Err(
            ProposeVerificationError::NotEnoughEvidence {
                quorum,
                evidence_count: j.evidences.len() as usize,
            },
        )
    } else if j.proposal_hash != block_hash_value(m.payload.proposal) {
        Err(
            ProposeVerificationError::InvalidJustificationProposalHash {
                expected: block_hash_value(m.payload.proposal),
                actual: j.proposal_hash,
            },
        )
    } else {
        evidences_verification(j, validators, 0)
    }
}

/// The checks a proposal must pass, in the order they are made: it comes from the
/// current proposer, its block passes the block checks, its signature is the
/// proposer's, the proposer is a validator, and its justification, if any, holds.
pub open spec fn propose_verification(
    m: MsgProposeModel,
    current_proposer: Address,
    chain_config: ChainConfig,
    validators: Seq<Address>,
    quorum: usize,
) -> Result<(), ProposeVerificationError> {
    if m.payload.address != current_proposer {
        Err(
            ProposeVerificationError::NotCurrentProposer {
                expected: current_proposer,
                actual: m.payload.address,
            },
        )
    } else if block_verification(m.payload.proposal, chain_config) is Err {
        Err(
            ProposeVerificationError::InvalidBlock(
                block_verification(m.payload.proposal, chain_config)->Err_0,
            ),
        )
    } else if propose_signature_outcome(m) is Err {
        Err(ProposeVerificationError::InvalidSignature(propose_signature_outcome(m)->Err_0))
    } else if !validators.contains(m.payload.address) {
        Err(ProposeVerificationError::NotValidator { address: m.payload.address })
    } else {
        match m.payload.justification {
            Some(j) => justification_verification(m, j, validators, quorum),
            None => Ok(()),
        }
    }
}

/// Whether the signature of a proposal can be checked when the checks before it pass:
/// once it comes from the current proposer and its block passes the block checks, its
/// evidences, if any, can be counted in two bytes.
pub open spec fn propose_checkable(
    m: MsgProposeModel,
    current_proposer: Address,
    chain_config: ChainConfig,
) -> bool {
    (m.payload.address == current_proposer && block_verification(m.payload.proposal, chain_config)
        is Ok) ==> (m.payload.justification matches Some(j) ==> j.evidences.len() <= 0xffff)
}

/// Whether the voter of evidence `i` already voted in one of the evidences before it.
fn repeated_voter(evidences: &Vec<ProposeEvidencePayload>, i: usize) -> (r: bool)
    requires
        i < evidences@.len(),
    ensures
        r == evidence_repeated(evidences@, i as int),
{
    let mut k: usize = 0;
    while k < i
        invariant
            i < evidences@.len(),
            k <= i,
            forall|m: int| 0 <= m < k ==> evidences@[m].address != evidences@[i as int].address,
        decreases i - k,
    {
        if same_address(&evidences[k].address, &evidences[i].address) {
            assert(evidences@[k as int].address == evidences@[i as int].address);
            return true;
        }
        k = k + 1;
    }
    assert(!evidence_repeated(evidences@, i as int));
    false
}

/// Checks a proposal against the current proposer, the chain's configuration and the
/// validator set.
pub fn verify_propose_stateless(
    msg: &MsgPropose,
    current_proposer: &Address,
    chain_config: &ChainConfig,
    consensus_config: &ConsensusConfig,
) -> (r: Result<(), ProposeVerificationError>)
    requires
        propose_checkable(msg@, *current_proposer, *chain_config),
    ensures
        r == propose_verification(
            msg@,
            *current_proposer,
            *chain_config,
            consensus_config.validators@,
            consensus_config.quorum,
        ),
{
    if !same_address(&msg.payload.address, current_proposer) {
        return Err(
            ProposeVerificationError::NotCurrentProposer {
                actual: msg.payload.address,
                expected: *current_proposer,
            },
        );
    }
    if let Err(err) = verify_block_stateless(&msg.payload.proposal, chain_config) {
        return Err(ProposeVerificationError::InvalidBlock(err));
    }
    if let Err(err) = msg.verify_signature() {
        return Err(ProposeVerificationError::InvalidSignature(err));
    }
    if !contains_address(&consensus_config.validators, &msg.payload.address) {
        return Err(ProposeVerificationError::NotValidator { address: msg.payload.address });
    }
    if let Some(justification) = &msg.payload.justification {
        if justification.height != msg.payload.height {
            return Err(
                ProposeVerificationError::InvalidJustificationHeight {
                    expected: msg.payload.height,
                    actual: justification.height,
                },
            );
        }
        if justification.round >= msg.payload.round {
            return Err(
                ProposeVerificationError::InvalidJustificationRound {
                    expected: msg.payload.round,
                    actual: justification.round,
                },
            );
        }
        if justification.evidences.len() < consensus_config.quorum {
            return Err(
                ProposeVerificationError::NotEnoughEvidence {
                    quorum: consensus_config.quorum,
                    evidence_count: justification.evidences.len(),
                },
            );
        }
        let proposal_hash = compute_block_hash(&msg.payload.proposal);
        if !same_hash(&justification.proposal_hash, &proposal_hash) {
            return Err(
                ProposeVerificationError::InvalidJustificationProposalHash {
                    expected: proposal_hash,
                    actual: justification.proposal_hash,
                },
            );
        }
        let ghost j = justification@;
        let mut index: usize = 0;
        while index < justification.evidences.len()
            invariant
                index <= justification.evidences@.len(),
                j == justification@,
                propose_verification(
                    msg@,
                    *current_proposer,
                    *chain_config,
                    consensus_config.validators@,
                    consensus_config.quorum,
                ) == justification_verification(
                    msg@,
                    j,
                    consensus_config.validators@,
                    consensus_config.quorum,
                ),
                justification_verification(
                    msg@,
                    j,
                    consensus_config.validators@,
                    consensus_config.quorum,
                ) == evidences_verification(j, consensus_config.validators@, index as int),
            decreases justification.evidences@.len() - index,
        {
            let evidence = justification.evidences[index];
            if repeated_voter(&justification.evidences, index) {
                return Err(
                    ProposeVerificationError::DuplicateEvidence { index, address: evidence.address },
                );
            }
            if !contains_address(&consensus_config.validators, &evidence.address) {
                return Err(
                    ProposeVerificationError::EvidenceNotValidator {
                        index,
                        address: evidence.address,
                    },
                );
            }
            let prevote = MsgPrevote::new(
                PrevotePayload::new(
                    justification.height,
                    justification.round,
                    evidence.address,
                    Some(justification.proposal_hash),
                ),
                evidence.signature,
            );
            if let Err(err) = prevote.verify_signature() {
                return Err(ProposeVerificationError::InvalidEvidenceSignature { index, err });
            }
            index = index + 1;
        }
    }
    Ok(())
}

} // verus!
