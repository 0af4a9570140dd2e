pub mod rule_transfer;
pub mod rule_block;
