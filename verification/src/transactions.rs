pub mod tx_transfer;
