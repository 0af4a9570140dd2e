//! The pieces of the consensus driver that decide: proposals of blocks, building
//! signed messages, and turning checked messages into inputs.

pub mod make_messages;
pub mod message_to_state_input;
pub mod proposal_block;
pub mod proposal_block_validator;
pub mod run_state_machine;
