[package]
name = "timelines"
version = "0.1.0"
edition = "2021"
publish = false

[dependencies]
chrono = "*"
sha3 = "*"
ed25519-dalek = "*"
