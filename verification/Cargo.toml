[package]
name = "flexnet"
version = "0.1.0"
edition = "2021"
publish = false

[dependencies]
ed25519-dalek = "2"
sha2 = "0.10"
hex = "0.4"
zeroize = "1"
thiserror = "1"
parking_lot = "0.12"
tokio = { version = "1", features = ["sync", "rt", "macros", "time"] }
