[package]
name = "orga"
version = "0.1.0"
edition = "2021"
publish = false

[dependencies]
base64 = "0.13"
cosmrs = "*"
ed = "*"
log = "0.4"
serde = { version = "1", features = ["derive"] }
serde_json = "1"
tendermint = "*"
tendermint-proto = "*"
tendermint-rpc = { version = "*", features = ["http-client"] }
abci2 = "*"
merk = "*"
