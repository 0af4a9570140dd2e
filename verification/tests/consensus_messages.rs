use flexnet::account::Account;
use flexnet::address::Address;
use flexnet::block::Block;
use flexnet::chain::{Chain, ChainAppendError};
use flexnet::chain_config::ChainConfig;
use flexnet::chain_id::ChainId;
use flexnet::chain_version::ChainVersion;
use flexnet::codec::DecodeError;
use flexnet::consensus::chain_ports::{candidate_block, commit_block, validate_proposal_on_chain};
use flexnet::consensus::consensus_config::ConsensusConfig;
use flexnet::consensus::consensus_driver::make_messages::{
    make_precommit_message, make_prevote_message, make_propose_message_using_block,
    make_propose_message_using_polka,
};
use flexnet::consensus::consensus_driver::message_to_state_input::message_to_state_input;
use flexnet::consensus::consensus_driver::proposal_block::ProposalBlock;
use flexnet::consensus::consensus_driver::proposal_block_validator::ProposalBlockValidator;
use flexnet::consensus::justification::{Evidence, Justification};
use flexnet::consensus::message::{Message, MessageVerificationError};
use flexnet::consensus::message_kind::MessageKind;
use flexnet::consensus::messages::msg_precommit::{MsgPrecommit, PrecommitPayload};
use flexnet::consensus::messages::msg_prevote::{MsgPrevote, PrevotePayload};
use flexnet::consensus::messages::msg_propose::{
    MsgPropose, ProposeEvidencePayload, ProposeJustificationPayload,
};
use flexnet::consensus::polka::Polka;
use flexnet::consensus::proposal::Proposal;
use flexnet::consensus::proposal_validator::ProposalValidator;
use flexnet::consensus::rules::rule_precommit::{
    verify_precommit_stateless, PrecommitVerificationError,
};
use flexnet::consensus::rules::rule_prevote::{verify_prevote_stateless, PrevoteVerificationError};
use flexnet::consensus::rules::rule_propose::{verify_propose_stateless, ProposeVerificationError};
use flexnet::consensus::state_input::StateInput;
use flexnet::crypto::{address_from_secret_key, SecretKey, Signature, VerificationError};
use flexnet::genesis::Genesis;
use flexnet::hash::{compute_block_hash, compute_state_hash};
use flexnet::rules::rule_block::BlockVerificationError;
use flexnet::state::State;

fn chain_config() -> ChainConfig {
    ChainConfig {
        chain_id: ChainId::new(1),
        chain_version: ChainVersion::new(1),
        max_transactions_per_block: 128,
    }
}

fn key(seed: u8) -> SecretKey {
    SecretKey::new([seed; 32])
}

fn validators() -> Vec<Address> {
    (1..=4).map(|seed| address_from_secret_key(&key(seed))).collect()
}

fn consensus_config(seed: u8) -> ConsensusConfig {
    ConsensusConfig::new(key(seed), validators(), 3, 1000)
}

fn empty_block(height: u128) -> Block {
    Block::new(
        ChainId::new(1),
        ChainVersion::new(1),
        height,
        flexnet::hash::Hash::new([4; 32]),
        flexnet::hash::Hash::new([5; 32]),
        Vec::new(),
    )
}

fn justification_for(block: &Block, height: u128, round: u32, voters: &[u8]) -> Justification {
    let proposal_hash = Some(compute_block_hash(block));
    let evidences = voters
        .iter()
        .map(|seed| {
            let prevote = make_prevote_message(height, round, proposal_hash, &consensus_config(*seed));
            Evidence::new(prevote.payload.address, prevote.signature)
        })
        .collect();
    Justification::new(height, round, evidences)
}

#[test]
fn message_kinds_have_distinct_bytes() {
    assert_eq!(MessageKind::Propose.into_u8(), 1);
    assert_eq!(MessageKind::Prevote.into_u8(), 2);
    assert_eq!(MessageKind::Precommit.into_u8(), 3);
    assert_eq!(MessageKind::new(2), Some(MessageKind::Prevote));
    assert_eq!(MessageKind::new(0), None);
    assert_eq!(MessageKind::decode_canonical(&[3]), Ok(MessageKind::Precommit));
    assert_eq!(MessageKind::decode_canonical(&[4]), Err(DecodeError::InvalidInput));
}

#[test]
fn consensus_config_derives_the_validator_address() {
    let config = consensus_config(2);

    assert_eq!(config.address, address_from_secret_key(&key(2)));
    assert_eq!(config.validators.len(), 4);
    assert_eq!(config.quorum, 3);
    assert_eq!(config.round_timeout_ms, 1000);
}

#[test]
fn precommit_roundtrips_and_verifies() {
    let config = consensus_config(1);
    let precommit = make_precommit_message(9, 2, Some(flexnet::hash::Hash::new([7; 32])), &config);
    let mut encoded = Vec::new();
    precommit.encode_canonical(&mut encoded);

    assert_eq!(encoded.len(), precommit.encoded_len());
    assert_eq!(encoded.len(), 16 + 4 + 32 + 1 + 32 + 64);
    assert_eq!(MsgPrecommit::decode_canonical(&encoded), Ok(precommit));
    assert_eq!(precommit.verify_signature(), Ok(()));
    assert_eq!(verify_precommit_stateless(&precommit, &config), Ok(()));
    assert_eq!(precommit.payload.signing_payload_len(), 1 + 16 + 4 + 32 + 1 + 32);
}

#[test]
fn prevote_for_nothing_roundtrips_and_verifies() {
    let config = consensus_config(3);
    let prevote = make_prevote_message(9, 2, None, &config);
    let mut encoded = Vec::new();
    prevote.encode_canonical(&mut encoded);

    assert_eq!(encoded.len(), prevote.encoded_len());
    assert_eq!(encoded.len(), 16 + 4 + 32 + 1 + 64);
    assert_eq!(encoded[52], 0);
    assert_eq!(MsgPrevote::decode_canonical(&encoded), Ok(prevote));
    assert_eq!(verify_prevote_stateless(&prevote, &config), Ok(()));
}

#[test]
fn a_prevote_signature_does_not_serve_as_a_precommit_signature() {
    let config = consensus_config(1);
    let prevote = make_prevote_message(9, 2, None, &config);
    let precommit = MsgPrecommit::new(
        PrecommitPayload::new(9, 2, prevote.payload.address, None),
        prevote.signature,
    );

    assert_eq!(
        verify_precommit_stateless(&precommit, &config),
        Err(PrecommitVerificationError::InvalidSignature(
            VerificationError::FailedToVerify
        ))
    );
}

#[test]
fn votes_from_outside_the_validator_set_are_refused() {
    let outsider = ConsensusConfig::new(key(9), validators(), 3, 1000);
    let prevote = make_prevote_message(1, 0, None, &outsider);
    let precommit = make_precommit_message(1, 0, None, &outsider);

    assert_eq!(
        verify_prevote_stateless(&prevote, &outsider),
        Err(PrevoteVerificationError::NotValidator {
            address: outsider.address
        })
    );
    assert_eq!(
        verify_precommit_stateless(&precommit, &outsider),
        Err(PrecommitVerificationError::NotValidator {
            address: outsider.address
        })
    );
}

#[test]
fn vote_with_unknown_hash_flag_reads_as_a_vote_for_nothing() {
    let prevote = MsgPrevote::new(PrevotePayload::new(1, 0, Address::new([1; 32]), None), Signature::new([2; 64]));
    let mut encoded = Vec::new();
    prevote.encode_canonical(&mut encoded);
    encoded[52] = 7;

    assert_eq!(MsgPrevote::decode_canonical(&encoded), Ok(prevote));
}

#[test]
fn proposal_of_a_block_roundtrips_and_verifies() {
    let config = consensus_config(1);
    let proposal = make_propose_message_using_block(1, 0, empty_block(1), &config);
    let mut encoded = Vec::new();
    proposal.encode_canonical(&mut encoded);

    assert_eq!(encoded.len(), proposal.encoded_len());
    assert_eq!(MsgPropose::decode_canonical(&encoded), Ok(proposal.clone()));
    assert_eq!(proposal.verify_signature(), Ok(()));
    assert_eq!(
        verify_propose_stateless(&proposal, &config.address, &chain_config(), &config),
        Ok(())
    );
}

#[test]
fn proposal_with_justification_roundtrips_and_verifies() {
    let config = consensus_config(1);
    let block = empty_block(1);
    let polka = Polka {
        proposal: ProposalBlock::new(block.clone()),
        proposal_hash: compute_block_hash(&block),
        justification: justification_for(&block, 1, 0, &[1, 2, 3]),
    };
    let proposal = make_propose_message_using_polka(1, 1, polka, &config);
    let mut encoded = Vec::new();
    proposal.encode_canonical(&mut encoded);

    assert_eq!(encoded.len(), proposal.encoded_len());
    assert_eq!(encoded.len(), 16 + 4 + 32 + 86 + 1 + 54 + 3 * 96 + 64);
    assert_eq!(MsgPropose::decode_canonical(&encoded), Ok(proposal.clone()));
    assert_eq!(
        verify_propose_stateless(&proposal, &config.address, &chain_config(), &config),
        Ok(())
    );
}

#[test]
fn proposal_with_bad_justification_flag_is_refused() {
    let config = consensus_config(1);
    let proposal = make_propose_message_using_block(1, 0, empty_block(1), &config);
    let mut encoded = Vec::new();
    proposal.encode_canonical(&mut encoded);
    encoded[16 + 4 + 32 + 86] = 2;

    assert_eq!(MsgPropose::decode_canonical(&encoded), Err(DecodeError::InvalidInput));
}

#[test]
fn proposals_are_checked_in_order() {
    let config = consensus_config(1);
    let proposer = config.address;
    let block = empty_block(1);
    let proposal = make_propose_message_using_block(1, 0, block.clone(), &config);
    let other = address_from_secret_key(&key(2));

    assert_eq!(
        verify_propose_stateless(&proposal, &other, &chain_config(), &config),
        Err(ProposeVerificationError::NotCurrentProposer {
            expected: other,
            actual: proposer
        })
    );

    let foreign = ChainConfig {
        chain_id: ChainId::new(5),
        ..chain_config()
    };
    assert_eq!(
        verify_propose_stateless(&proposal, &proposer, &foreign, &config),
        Err(ProposeVerificationError::InvalidBlock(
            BlockVerificationError::InvalidChainId {
                expected: ChainId::new(5),
                actual: ChainId::new(1)
            }
        ))
    );

    let mut tampered = proposal.clone();
    tampered.payload.height = 2;
    assert_eq!(
        verify_propose_stateless(&tampered, &proposer, &chain_config(), &config),
        Err(ProposeVerificationError::InvalidSignature(
            VerificationError::FailedToVerify
        ))
    );

    let outsider = ConsensusConfig::new(key(9), validators(), 3, 1000);
    let from_outsider = make_propose_message_using_block(1, 0, block, &outsider);
    assert_eq!(
        verify_propose_stateless(&from_outsider, &outsider.address, &chain_config(), &outsider),
        Err(ProposeVerificationError::NotValidator {
            address: outsider.address
        })
    );
}

#[test]
fn justifications_are_checked_in_order() {
    let config = consensus_config(1);
    let proposer = config.address;
    let block = empty_block(1);
    let hash = compute_block_hash(&block);
    let make = |height: u128, round: u32, voters: &[u8], proposal_hash: flexnet::hash::Hash| {
        let mut justification = justification_for(&block, height, 0, voters);
        justification.round = round;
        make_propose_message_using_polka(
            1,
            1,
            Polka {
                proposal: ProposalBlock::new(block.clone()),
                proposal_hash,
                justification,
            },
            &config,
        )
    };
    let check = |m: &MsgPropose| verify_propose_stateless(m, &proposer, &chain_config(), &config);

    assert_eq!(
        check(&make(2, 0, &[1, 2, 3], hash)),
        Err(ProposeVerificationError::InvalidJustificationHeight {
            expected: 1,
            actual: 2
        })
    );
    assert_eq!(
        check(&make(1, 1, &[1, 2, 3], hash)),
        Err(ProposeVerificationError::InvalidJustificationRound {
            expected: 1,
            actual: 1
        })
    );
    assert_eq!(
        check(&make(1, 0, &[1, 2], hash)),
        Err(ProposeVerificationError::NotEnoughEvidence {
            quorum: 3,
            evidence_count: 2
        })
    );
    let wrong = flexnet::hash::Hash::new([1; 32]);
    assert_eq!(
        check(&make(1, 0, &[1, 2, 3], wrong)),
        Err(ProposeVerificationError::InvalidJustificationProposalHash {
            expected: hash,
            actual: wrong
        })
    );
    assert_eq!(
        check(&make(1, 0, &[1, 2, 1], hash)),
        Err(ProposeVerificationError::DuplicateEvidence {
            index: 2,
            address: address_from_secret_key(&key(1))
        })
    );
    assert_eq!(
        check(&make(1, 0, &[1, 9, 2], hash)),
        Err(ProposeVerificationError::EvidenceNotValidator {
            index: 1,
            address: address_from_secret_key(&key(9))
        })
    );

    let mut forged = justification_for(&block, 1, 0, &[1, 2, 3]);
    forged.evidences[2].signature = forged.evidences[0].signature;
    let forged = make_propose_message_using_polka(
        1,
        1,
        Polka {
            proposal: ProposalBlock::new(block.clone()),
            proposal_hash: hash,
            justification: forged,
        },
        &config,
    );
    assert_eq!(
        check(&forged),
        Err(ProposeVerificationError::InvalidEvidenceSignature {
            index: 2,
            err: VerificationError::FailedToVerify
        })
    );
}

#[test]
fn messages_roundtrip_with_their_kind_byte() {
    let config = consensus_config(2);
    let messages = vec![
        Message::Propose(make_propose_message_using_block(3, 1, empty_block(3), &config)),
        Message::Prevote(make_prevote_message(3, 1, None, &config)),
        Message::Precommit(make_precommit_message(
            3,
            1,
            Some(flexnet::hash::Hash::new([8; 32])),
            &config,
        )),
    ];

    for (message, kind) in messages.iter().zip([1u8, 2, 3]) {
        let mut encoded = Vec::new();
        message.encode_canonical(&mut encoded);
        assert_eq!(encoded[0], kind);
        assert_eq!(encoded.len(), message.encoded_len());
        assert_eq!(message.kind().into_u8(), kind);
        let decoded = Message::decode_canonical(&encoded).unwrap();
        let mut again = Vec::new();
        decoded.encode_canonical(&mut again);
        assert_eq!(again, encoded);
    }
    assert!(matches!(Message::decode_canonical(&[0]), Err(DecodeError::InvalidInput)));
}

#[test]
fn checked_messages_become_state_inputs() {
    let config = consensus_config(2);
    let proposer = address_from_secret_key(&key(1));
    let prevote = make_prevote_message(3, 1, None, &config);

    let input = message_to_state_input(Message::Prevote(prevote), &proposer, &chain_config(), &config)
        .unwrap();
    assert!(matches!(
        input,
        StateInput::PrevoteReceived {
            height: 3,
            round: 1,
            proposal_hash: None,
            ..
        }
    ));

    let proposal = make_propose_message_using_block(3, 1, empty_block(3), &config);
    assert_eq!(
        message_to_state_input(Message::Propose(proposal.clone()), &proposer, &chain_config(), &config)
            .err(),
        Some(MessageVerificationError::Proposal(
            ProposeVerificationError::NotCurrentProposer {
                expected: proposer,
                actual: config.address
            }
        ))
    );
    match message_to_state_input(Message::Propose(proposal), &config.address, &chain_config(), &config) {
        Ok(StateInput::ProposalReceived {
            height,
            round,
            proposal,
            justification,
        }) => {
            assert_eq!((height, round), (3, 1));
            assert_eq!(proposal.as_block(), &empty_block(3));
            assert!(justification.is_none());
        }
        _ => panic!("the proposal should have been accepted"),
    }
}

#[test]
fn oversized_justifications_are_refused_before_the_signature() {
    let config = consensus_config(2);
    let proposer = address_from_secret_key(&key(1));
    let mut proposal = make_propose_message_using_block(3, 1, empty_block(3), &config);
    let evidence = ProposeEvidencePayload {
        address: config.address,
        signature: Signature::new([1; 64]),
    };
    proposal.payload.justification = Some(ProposeJustificationPayload {
        height: 3,
        round: 0,
        proposal_hash: compute_block_hash(&empty_block(3)),
        evidences: vec![evidence; 70000],
    });

    assert_eq!(
        verify_propose_stateless(&proposal, &proposer, &chain_config(), &config),
        Err(ProposeVerificationError::NotCurrentProposer {
            expected: proposer,
            actual: config.address
        })
    );
    let foreign = ChainConfig {
        chain_id: ChainId::new(5),
        ..chain_config()
    };
    assert_eq!(
        message_to_state_input(Message::Propose(proposal), &config.address, &foreign, &config).err(),
        Some(MessageVerificationError::Proposal(ProposeVerificationError::InvalidBlock(
            BlockVerificationError::InvalidChainId {
                expected: ChainId::new(5),
                actual: ChainId::new(1)
            }
        )))
    );
}

#[test]
fn proposal_blocks_hash_and_compare_as_their_blocks() {
    let a = ProposalBlock::new(empty_block(1));
    let b = ProposalBlock::new(empty_block(1));
    let c = ProposalBlock::new(empty_block(2));

    assert_eq!(a.hash(), compute_block_hash(&empty_block(1)));
    assert!(a.same(&b));
    assert!(!a.same(&c));
    assert_eq!(c.into_block(), empty_block(2));
}

#[test]
fn proposal_block_validator_checks_height_and_block() {
    let validator = ProposalBlockValidator;
    let config = consensus_config(1);

    assert!(validator.validate(1, 0, &ProposalBlock::new(empty_block(1)), &chain_config(), &config));
    assert!(!validator.validate(2, 0, &ProposalBlock::new(empty_block(1)), &chain_config(), &config));
    let foreign = ChainConfig {
        chain_version: ChainVersion::new(2),
        ..chain_config()
    };
    assert!(!validator.validate(1, 0, &ProposalBlock::new(empty_block(1)), &foreign, &config));
}

#[test]
fn chain_backed_ports_follow_the_chain() {
    let state = State::new(vec![(Address::new([1; 32]), Account::new(5, 0))]);
    let mut chain = Chain::new(Genesis::new(chain_config(), state.clone(), validators()));

    assert!(candidate_block(&chain, 2).is_none());
    let candidate = candidate_block(&chain, 1).unwrap();
    assert_eq!(candidate.block_height, 1);
    assert_eq!(candidate.previous_block_hash, chain.tip_block().previous_block_hash);
    assert_eq!(candidate.state_hash, chain.tip_block().state_hash);

    let good = Block::new(
        ChainId::new(1),
        ChainVersion::new(1),
        1,
        chain.tip_block_hash(),
        compute_state_hash(&state),
        Vec::new(),
    );
    assert!(validate_proposal_on_chain(&chain, 1, &ProposalBlock::new(good.clone()), &chain_config()));
    assert!(!validate_proposal_on_chain(&chain, 2, &ProposalBlock::new(good.clone()), &chain_config()));
    assert!(!validate_proposal_on_chain(&chain, 1, &ProposalBlock::new(empty_block(1)), &chain_config()));

    assert_eq!(commit_block(&mut chain, 5, good.clone()), None);
    assert_eq!(chain.tip_height(), 0);
    assert_eq!(commit_block(&mut chain, 1, good.clone()), Some(Ok(())));
    assert_eq!(chain.tip_block(), &good);
    assert_eq!(
        commit_block(&mut chain, 1, good),
        Some(Err(ChainAppendError::UnexpectedBlockHeight {
            expected: 2,
            actual: 1
        }))
    );
}
