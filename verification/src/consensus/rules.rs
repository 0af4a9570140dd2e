//! The checks a consensus message must pass whatever the state of consensus.

pub mod rule_precommit;
pub mod rule_prevote;
pub mod rule_propose;
