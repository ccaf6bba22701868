[package]
name = "appchain_anchor_ibc"
version = "0.1.0"
edition = "2021"
publish = false

[dependencies]
base64 = "=0.21.7"
bech32 = "=0.9.1"
ibc = { version = "0.57", features = ["serde"] }
near-contract-standards = "=5.28.0"
near-sdk = { version = "=5.28.0", features = ["legacy", "non-contract-usage"] }
prost = "=0.12.6"
serde_json = "=1.0.154"
tendermint = "=0.34.1"
tendermint-proto = "=0.34.1"
