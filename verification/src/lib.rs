//! Ed25519 account keypairs: random generation, BIP39 mnemonic generation and
//! deterministic derivation from a mnemonic phrase, with the encodings of the
//! key material (Base58 text and byte arrays) that other tools consume.

pub mod base58;
pub mod block;
pub mod dispatch;
pub mod encode;
pub mod error;
pub mod json;
pub mod keypair;
pub mod mnemonic;
pub mod seed;
pub mod text;
