[package]
name = "generate_keypair"
version = "0.1.0"
edition = "2021"
publish = false

[dependencies]
anyhow = "1"
bs58 = "0.5"
clap = { version = "4", features = ["derive"] }
colored = "2"
serde_json = "1"
solana-sdk = "1.18"
tiny-bip39 = "0.8.2"
