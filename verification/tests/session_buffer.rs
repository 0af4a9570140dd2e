use flexnet::address::Address;
use flexnet::block::Block;
use flexnet::bytes::Cmp;
use flexnet::chain_id::ChainId;
use flexnet::chain_version::ChainVersion;
use flexnet::consensus::consensus_driver::proposal_block::ProposalBlock;
use flexnet::consensus::consensus_driver::run_state_machine::{
    driver_action, next_input_after_output, DriverAction,
};
use flexnet::consensus::state_output::StateOutput;
use flexnet::consensus::session_input_buffer::{Element, SessionInputBuffer};
use flexnet::consensus::state_input::StateInput;
use flexnet::crypto::Signature;

type Input = StateInput<ProposalBlock>;

fn block(height: u128) -> Block {
    Block::new(
        ChainId::new(1),
        ChainVersion::new(1),
        height,
        flexnet::hash::Hash::zero(),
        flexnet::hash::Hash::zero(),
        Vec::new(),
    )
}

fn proposal(height: u128, round: u32) -> Input {
    StateInput::ProposalReceived {
        height,
        round,
        proposal: ProposalBlock::new(block(height)),
        justification: None,
    }
}

fn prevote(height: u128, round: u32, voter: u8) -> Input {
    StateInput::PrevoteReceived {
        height,
        round,
        address: Address::new([voter; 32]),
        proposal_hash: None,
        signature: Signature::new([voter; 64]),
    }
}

fn precommit(height: u128, round: u32, voter: u8) -> Input {
    StateInput::PrecommitReceived {
        height,
        round,
        address: Address::new([voter; 32]),
        proposal_hash: Some(flexnet::hash::Hash::new([voter; 32])),
        signature: Signature::new([voter; 64]),
    }
}

fn label(input: &Input) -> String {
    match input {
        StateInput::StartHeight { height } => format!("start-height {}", height),
        StateInput::StartRound { height, round } => format!("start-round {}/{}", height, round),
        StateInput::ProposalReceived { height, round, .. } => format!("proposal {}/{}", height, round),
        StateInput::PrevoteReceived { height, round, address, .. } => {
            format!("prevote {}/{} by {}", height, round, address.as_bytes()[0])
        }
        StateInput::PrecommitReceived { height, round, address, .. } => {
            format!("precommit {}/{} by {}", height, round, address.as_bytes()[0])
        }
        StateInput::RoundTimeout { height, round } => format!("timeout {}/{}", height, round),
    }
}

fn labels(inputs: &[Input]) -> Vec<String> {
    inputs.iter().map(label).collect()
}

#[test]
fn inputs_come_out_by_round_then_priority() {
    let mut buffer = SessionInputBuffer::new(16);
    buffer.push(prevote(1, 0, 1));
    buffer.push(StateInput::RoundTimeout { height: 1, round: 0 });
    buffer.push(precommit(1, 0, 2));
    buffer.push(proposal(1, 0));
    buffer.push(StateInput::StartHeight { height: 1 });
    buffer.push(prevote(1, 1, 3));

    let first = buffer.pop(1, 0);
    assert_eq!(
        labels(&first),
        vec![
            "proposal 1/0",
            "precommit 1/0 by 2",
            "prevote 1/0 by 1",
            "start-height 1",
            "timeout 1/0",
        ]
    );
    assert_eq!(labels(&buffer.pop(1, 1)), vec!["prevote 1/1 by 3"]);
    assert!(buffer.pop(1, 1).is_empty());
}

#[test]
fn same_input_is_held_once() {
    let mut buffer = SessionInputBuffer::new(16);
    buffer.push(prevote(2, 0, 1));
    buffer.push(prevote(2, 0, 1));
    buffer.push(proposal(2, 0));
    buffer.push(proposal(2, 0));
    buffer.push(prevote(2, 0, 2));

    assert_eq!(
        labels(&buffer.pop(2, 0)),
        vec!["proposal 2/0", "prevote 2/0 by 1", "prevote 2/0 by 2"]
    );
}

#[test]
fn equal_priority_inputs_keep_their_arrival_order() {
    let mut buffer = SessionInputBuffer::new(16);
    buffer.push(prevote(1, 0, 3));
    buffer.push(prevote(1, 0, 1));
    buffer.push(prevote(1, 0, 2));

    assert_eq!(
        labels(&buffer.pop(1, 0)),
        vec!["prevote 1/0 by 3", "prevote 1/0 by 1", "prevote 1/0 by 2"]
    );
}

#[test]
fn full_buffer_drops_its_last_input() {
    let mut buffer = SessionInputBuffer::new(2);
    buffer.push(prevote(1, 2, 1));
    buffer.push(prevote(1, 1, 1));
    buffer.push(prevote(1, 0, 1));
    buffer.push(prevote(1, 3, 1));

    assert_eq!(labels(&buffer.pop(1, 0)), vec!["prevote 1/0 by 1"]);
    assert_eq!(labels(&buffer.pop(1, 1)), vec!["prevote 1/1 by 1"]);
    assert!(buffer.pop(1, 2).is_empty());
    assert!(buffer.pop(1, 3).is_empty());
}

#[test]
fn buffer_of_no_inputs_holds_nothing() {
    let mut buffer: SessionInputBuffer<ProposalBlock> = SessionInputBuffer::new(0);
    buffer.push(StateInput::StartHeight { height: 1 });

    assert!(buffer.pop(1, 0).is_empty());
}

#[test]
fn popping_drops_older_inputs_and_keeps_newer_ones() {
    let mut buffer = SessionInputBuffer::new(16);
    buffer.push(prevote(1, 0, 1));
    buffer.push(prevote(2, 0, 1));
    buffer.push(prevote(2, 1, 1));
    buffer.push(prevote(3, 0, 1));

    assert_eq!(labels(&buffer.pop(2, 0)), vec!["prevote 2/0 by 1"]);
    assert!(buffer.pop(1, 0).is_empty());
    assert_eq!(labels(&buffer.pop(3, 0)), vec!["prevote 3/0 by 1"]);
    assert!(buffer.pop(2, 1).is_empty());
}

#[test]
fn popping_past_every_input_empties_the_buffer() {
    let mut buffer = SessionInputBuffer::new(16);
    buffer.push(prevote(1, 0, 1));
    buffer.push(precommit(1, 1, 1));

    assert!(buffer.pop(5, 0).is_empty());
    assert!(buffer.pop(1, 0).is_empty());
    assert!(buffer.pop(1, 1).is_empty());
}

#[test]
fn elements_compare_by_height_round_and_priority() {
    let early = Element::new(prevote(1, 0, 1));
    let late = Element::new(prevote(1, 1, 1));
    let urgent = Element::new(proposal(1, 0));
    let peer = Element::new(prevote(1, 0, 2));

    assert!(matches!(early.compare(&late), Cmp::Less));
    assert!(matches!(late.compare(&early), Cmp::Greater));
    assert!(matches!(urgent.compare(&early), Cmp::Less));
    assert!(matches!(early.compare(&peer), Cmp::Equal));
    assert_eq!(label(early.state_input()), "prevote 1/0 by 1");
    assert_eq!(label(&peer.into_state_input()), "prevote 1/0 by 2");
}

#[test]
fn driver_outputs_lead_to_their_next_inputs() {
    let commit: StateOutput<ProposalBlock, String> = StateOutput::Commit {
        height: 4,
        round: 2,
        proposal: ProposalBlock::new(block(4)),
    };
    let failure: StateOutput<ProposalBlock, String> = StateOutput::RoundFailure {
        height: 4,
        round: 2,
        reason: "timeout".to_string(),
    };
    let start: StateOutput<ProposalBlock, String> = StateOutput::StartRound { height: 4, round: 3 };
    let vote: StateOutput<ProposalBlock, String> = StateOutput::Prevote {
        height: 4,
        round: 2,
        proposal_hash: None,
    };
    let timer: StateOutput<ProposalBlock, String> = StateOutput::StartTimeout {
        height: 4,
        round: 2,
        timeout_ms: 100,
    };

    assert_eq!(
        next_input_after_output(&commit),
        Some(StateInput::StartHeight { height: 5 })
    );
    assert_eq!(
        next_input_after_output(&failure),
        Some(StateInput::StartRound { height: 4, round: 3 })
    );
    assert_eq!(
        next_input_after_output(&start),
        Some(StateInput::StartRound { height: 4, round: 3 })
    );
    assert_eq!(next_input_after_output(&vote), None);
    assert_eq!(next_input_after_output(&timer), None);
}

#[test]
fn driver_actions_follow_the_requests() {
    let timer: StateOutput<ProposalBlock, String> = StateOutput::StartTimeout {
        height: 4,
        round: 2,
        timeout_ms: 100,
    };
    assert!(matches!(
        driver_action(timer),
        DriverAction::SetTimeout { height: 4, round: 2, timeout_ms: 100 }
    ));

    let propose: StateOutput<ProposalBlock, String> = StateOutput::Propose {
        height: 4,
        round: 2,
        polka: None,
    };
    assert!(matches!(
        driver_action(propose),
        DriverAction::RequestProposal { height: 4, round: 2, polka: None }
    ));

    let prevote: StateOutput<ProposalBlock, String> = StateOutput::Prevote {
        height: 4,
        round: 2,
        proposal_hash: None,
    };
    assert!(matches!(
        driver_action(prevote),
        DriverAction::SendPrevote { height: 4, round: 2, proposal_hash: None }
    ));

    let hash = flexnet::hash::Hash::new([7; 32]);
    let precommit: StateOutput<ProposalBlock, String> = StateOutput::Precommit {
        height: 4,
        round: 2,
        proposal_hash: Some(hash),
    };
    match driver_action(precommit) {
        DriverAction::SendPrecommit { height, round, proposal_hash } => {
            assert_eq!((height, round, proposal_hash), (4, 2, Some(hash)));
        }
        _ => panic!("a precommit request is sent as a precommit"),
    }

    let commit: StateOutput<ProposalBlock, String> = StateOutput::Commit {
        height: 4,
        round: 2,
        proposal: ProposalBlock::new(block(4)),
    };
    match driver_action(commit) {
        DriverAction::Commit { height, proposal, next } => {
            assert_eq!(height, 4);
            assert_eq!(proposal, ProposalBlock::new(block(4)));
            assert_eq!(next, StateInput::StartHeight { height: 5 });
        }
        _ => panic!("a commit request is committed"),
    }

    let failure: StateOutput<ProposalBlock, String> = StateOutput::RoundFailure {
        height: 4,
        round: 2,
        reason: "timeout".to_string(),
    };
    match driver_action(failure) {
        DriverAction::Step { input } => {
            assert_eq!(input, StateInput::StartRound { height: 4, round: 3 });
        }
        _ => panic!("a failed round is followed by the next round"),
    }

    let start: StateOutput<ProposalBlock, String> = StateOutput::StartRound { height: 4, round: 3 };
    match driver_action(start) {
        DriverAction::Step { input } => {
            assert_eq!(input, StateInput::StartRound { height: 4, round: 3 });
        }
        _ => panic!("a round to start is started"),
    }
}
