[package]
name = "secretstore_primitives"
version = "0.1.0"
edition = "2021"
publish = false

[dependencies]
parity-crypto = { version = "0.9", features = ["publickey"] }
ethereum-types = "0.12"
futures = "0.3"
