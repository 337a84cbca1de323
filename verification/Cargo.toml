[package]
name = "miden_tx"
version = "0.1.0"
edition = "2021"
publish = false

[dependencies]
miden-crypto = "0.7"
miden-objects = "=0.1.1"
miden-processor = "=0.8.0"
miden-verifier = "=0.8.0"

[dev-dependencies]
miden-prover = "=0.8.0"
