[package]
name = "jubjub_confinement"
version = "0.1.0"
edition = "2021"
publish = false

[dependencies]
babyjubjub-rs = "=0.0.11"
poseidon-rs = "=0.0.8"
ff_ce = "=0.11.0"
num-bigint = "=0.4.8"
rand_core = { version = "=0.6.4", features = ["getrandom"] }
