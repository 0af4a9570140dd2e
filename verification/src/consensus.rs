//! Messages, checks and input buffering for the consensus that orders blocks.

pub mod message_kind;
pub mod messages;
pub mod consensus_config;
pub mod rules;
pub mod message;
pub mod justification;
pub mod lock;
pub mod polka;
pub mod proposal;
pub mod proposal_validator;
pub mod state_input;
pub mod state_output;
pub mod session_input_buffer;
pub mod consensus_driver;
pub mod chain_ports;
