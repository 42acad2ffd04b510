[package]
name = "zkevm_circuits"
version = "0.1.0"
edition = "2021"
publish = false

[dependencies]
halo2 = "=0.1.0-beta.2"
halo2_proofs = "0.1"
itertools = "0.10"
log = "0.4"
pairing = "0.22"
