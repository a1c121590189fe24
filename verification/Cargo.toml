[package]
name = "demikernel"
version = "0.1.0"
edition = "2021"
publish = false

[dependencies]
bit-iter = "*"
rand = { version = "*", features = ["small_rng"] }
futures = "*"
