[package]
name = "sigma_rs"
version = "0.1.0"
edition = "2021"
publish = false

[dependencies]
ff = "0.13"
group = "0.13"
rand = "0.8"
bls12_381 = { version = "0.8", default-features = false, features = ["groups", "alloc"] }
keccak = "0.1"
