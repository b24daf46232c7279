[package]
name = "p2p_supervisor"
version = "0.1.0"
edition = "2021"
publish = false

[dependencies]
flume = "*"
serde = { version = "1", features = ["derive"] }
tendermint-proto = "*"
