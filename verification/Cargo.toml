[package]
name = "arb_reth"
version = "0.1.0"
edition = "2021"
publish = false

[dependencies]
serde = { version = "=1.0.229", features = ["derive"] }
alloy-primitives = { version = "=1.7.3", features = ["serde"] }
alloy-consensus = "=2.5.0"
arbitrum-alloy-consensus = "=0.2.0"
metrics = "*"
