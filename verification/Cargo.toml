[package]
name = "chain_state"
version = "0.1.0"
edition = "2021"
publish = false

[dependencies]
rlp = "*"
serde = { version = "*", features = ["derive"] }
