[package]
name = "treasure_board"
version = "0.1.0"
edition = "2021"
publish = false

[dependencies]
near-sdk = { version = "*", features = ["unit-testing"] }
fastrand = "*"
sha2 = "*"
