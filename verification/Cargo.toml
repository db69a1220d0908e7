[package]
name = "relayer_framework"
version = "0.1.0"
edition = "2021"
publish = false

[dependencies]
tokio = { version = "1", default-features = false, features = ["sync", "rt", "time"] }
async-trait = "0.1"
serde = { version = "1", features = ["derive"] }
serde_derive = "1"
toml = "0.5"
humantime-serde = "1"
tendermint = "*"
tendermint-config = "*"
