[package]
name = "key_encryption"
version = "0.1.0"
edition = "2021"
publish = false

[dependencies]
aes = "0.7"
block-modes = "0.8"
tiny-keccak = { version = "2", features = ["keccak"] }
rand = "0.8"
dotenv = "0.15"
