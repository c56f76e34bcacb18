[package]
name = "schnorr_zkp"
version = "0.1.0"
edition = "2021"
publish = false

[dependencies]
blake3 = "1"
num-bigint = { version = "0.4", features = ["rand"] }
rand = "0.8"
