[package]
name = "pedersen_circuit"
version = "0.1.0"
edition = "2021"
publish = false

[dependencies]
curve25519-dalek = "*"
sha2 = "*"

[dev-dependencies]
rand = "*"
