[package]
name = "reassembly"
version = "0.1.0"
edition = "2021"
publish = false

[dependencies]
sha3 = "*"
blake3 = "*"
ed25519-dalek = "*"
rand = "0.8"
num_cpus = "*"
