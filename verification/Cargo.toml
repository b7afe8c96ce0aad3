[package]
name = "pure_rng"
version = "0.1.0"
edition = "2021"
publish = false

[dependencies]
rapidhash = "=1.4.0"
rand = "=0.8.8"
rand_core = "=0.6.4"
