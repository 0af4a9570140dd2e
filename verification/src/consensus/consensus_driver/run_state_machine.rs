//! The decisions the driver takes on each request of the state machine: what to do
//! outside, and which input the state machine is given next.
use vstd::prelude::*;
use crate::consensus::polka::Polka;
use crate::consensus::state_input::StateInput;
use crate::consensus::state_output::StateOutput;

verus! {

/// The input the state machine is given next because of `output`: after a commit at
/// height `h`, the start of height `h + 1`; after a round failure at height `h` and
/// round `r`, the start of round `r + 1` of height `h`; a round to start is started.
/// Other requests lead to no input of their own.
pub open spec fn input_after_output<P, R>(output: StateOutput<P, R>) -> Option<StateInput<P>> {
    match output {
        StateOutput::Commit { height, .. } => Some(
            StateInput::StartHeight { height: (height + 1) as u128 },
        ),
        StateOutput::RoundFailure { height, round, .. } => Some(
            StateInput::StartRound { height, round: (round + 1) as u32 },
        ),
        StateOutput::StartRound { height, round } => Some(StateInput::StartRound { height, round }),
        _ => None,
    }
}

/// The input the state machine is given next because of `output`, if any. Neither a
/// commit at the last height nor a failure of the last round has a next input.
pub fn next_input_after_output<P, R>(output: &StateOutput<P, R>) -> (r: Option<StateInput<P>>)
    requires
        output matches StateOutput::Commit { height, .. } ==> height < u128::MAX,
        output matches StateOutput::RoundFailure { round, .. } ==> round < u32::MAX,
    ensures
        r == input_after_output(*output),
{
    match output {
        StateOutput::Commit { height, .. } => Some(StateInput::StartHeight { height: *height + 1 }),
        StateOutput::RoundFailure { height, round, .. } => Some(
            StateInput::StartRound { height: *height, round: *round + 1 },
        ),
        StateOutput::StartRound { height, round } => Some(
            StateInput::StartRound { height: *height, round: *round },
        ),
        _ => None,
    }
}

/// What the driver does about one request of the state machine.
#[allow(inconsistent_fields)]
pub enum DriverAction<P> {
    /// Arm the round timer, to fire `timeout_ms` milliseconds from now.
    SetTimeout { height: u128, round: u32, timeout_ms: u64 },
    /// Ask for a proposal for the round to be built.
    RequestProposal { height: u128, round: u32, polka: Option<Polka<P>> },
    /// Sign a prevote, give it to the state machine as its next input, and send it.
    SendPrevote { height: u128, round: u32, proposal_hash: Option<crate::hash::Hash> },
    /// Sign a precommit, give it to the state machine as its next input, and send it.
    SendPrecommit { height: u128, round: u32, proposal_hash: Option<crate::hash::Hash> },
    /// Commit the proposal at the height, then give the state machine `next`.
    Commit { height: u128, proposal: P, next: StateInput<P> },
    /// Give the state machine its next input.
    Step { input: StateInput<P> },
}

/// What the driver does about `output`: a timer, a proposal or a vote is handed on; a
/// commit commits and starts the next height; a round to start is started; a failed
/// round is followed by the next round of the same height.
pub open spec fn action_for_output<P, R>(output: StateOutput<P, R>) -> DriverAction<P> {
    match output {
        StateOutput::StartTimeout { height, round, timeout_ms } => DriverAction::SetTimeout {
            height,
            round,
            timeout_ms,
        },
        StateOutput::StartRound { height, round } => DriverAction::Step {
            input: StateInput::StartRound { height, round },
        },
        StateOutput::Propose { height, round, polka } => DriverAction::RequestProposal {
            height,
            round,
            polka,
        },
        StateOutput::Prevote { height, round, proposal_hash } => DriverAction::SendPrevote {
            height,
            round,
            proposal_hash,
        },
        StateOutput::Precommit { height, round, proposal_hash } => DriverAction::SendPrecommit {
            height,
            round,
            proposal_hash,
        },
        StateOutput::Commit { height, proposal, .. } => DriverAction::Commit {
            height,
            proposal,
            next: StateInput::StartHeight { height: (height + 1) as u128 },
        },
        StateOutput::RoundFailure { height, round, .. } => DriverAction::Step {
            input: StateInput::StartRound { height, round: (round + 1) as u32 },
        },
    }
}

/// Decides what the driver does about `output`. Neither a commit at the last height
/// nor a failure of the last round has a next input.
pub fn driver_action<P, R>(output: StateOutput<P, R>) -> (r: DriverAction<P>)
    requires
        output matches StateOutput::Commit { height, .. } ==> height < u128::MAX,
        output matches StateOutput::RoundFailure { round, .. } ==> round < u32::MAX,
    ensures
        r == action_for_output(output),
{
    match output {
        StateOutput::StartTimeout { height, round, timeout_ms } => DriverAction::SetTimeout {
            height,
            round,
            timeout_ms,
        },
        StateOutput::StartRound { height, round } => DriverAction::Step {
            input: StateInput::StartRound { height, round },
        },
        StateOutput::Propose { height, round, polka } => DriverAction::RequestProposal {
            height,
            round,
            polka,
        },
        StateOutput::Prevote { height, round, proposal_hash } => DriverAction::SendPrevote {
            height,
            round,
            proposal_hash,
        },
        StateOutput::Precommit { height, round, proposal_hash } => DriverAction::SendPrecommit {
            height,
            round,
            proposal_hash,
        },
        StateOutput::Commit { height, proposal, .. } => DriverAction::Commit {
            height,
            proposal,
            next: StateInput::StartHeight { height: height + 1 },
        },
        StateOutput::RoundFailure { height, round, .. } => DriverAction::Step {
            input: StateInput::StartRound { height, round: round + 1 },
        },
    }
}

/// The input that an action gives the state machine next is the input that its
/// request leads to; timers, proposals and votes lead to none of their own.
pub proof fn lemma_action_next_input<P, R>(output: StateOutput<P, R>)
    ensures
        match action_for_output(output) {
            DriverAction::Commit { next, .. } => input_after_output(output) == Some(next),
            DriverAction::Step { input } => input_after_output(output) == Some(input),
            _ => input_after_output(output) is None,
        },
{
}

} // verus!
