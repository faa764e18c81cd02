[package]
name = "bulk_keychain"
version = "0.1.0"
edition = "2021"
publish = false

[dependencies]
bs58 = "0.5"
base64 = "0.22"
sha2 = "0.10"
ed25519-dalek = "2"
rand = "0.8"
