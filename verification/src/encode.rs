//! The forms in which a keypair is handed on: Base58 text and byte arrays.

use vstd::prelude::*;
use crate::base58::{base58, base58_decoded, lemma_base58_round_trip, to_base58};
use crate::keypair::Keypair;

verus! {

/// A keypair as other tools consume it.
pub struct EncodedKeypair {
    /// The address: the public key in Base58.
    pub address_base58: String,
    /// The 32 bytes of the public key.
    pub public_bytes: Vec<u8>,
    /// The 64 bytes of the keypair in Base58.
    pub secret_base58: String,
    /// The 64 bytes of the keypair: the secret, then the public key.
    pub secret_bytes: Vec<u8>,
}

/// The contents of an [`EncodedKeypair`].
pub ghost struct EncodedView {
    pub address_base58: Seq<char>,
    pub public_bytes: Seq<u8>,
    pub secret_base58: Seq<char>,
    pub secret_bytes: Seq<u8>,
}

impl View for EncodedKeypair {
    type V = EncodedView;

    open spec fn view(&self) -> EncodedView {
        EncodedView {
            address_base58: self.address_base58@,
            public_bytes: self.public_bytes@,
            secret_base58: self.secret_base58@,
            secret_bytes: self.secret_bytes@,
        }
    }
}

/// The encoding of the 64 bytes of a keypair.
pub open spec fn encoding(keypair: Seq<u8>) -> EncodedView {
    EncodedView {
        address_base58: base58(keypair.subrange(32, 64)),
        public_bytes: keypair.subrange(32, 64),
        secret_base58: base58(keypair),
        secret_bytes: keypair,
    }
}

/// Encodes a keypair. Both texts decode to the bytes they were made from.
pub fn encode(keypair: &Keypair) -> (encoded: EncodedKeypair)
    ensures
        encoded@ == encoding(keypair@),
        encoded.public_bytes@.len() == 32,
        encoded.secret_bytes@.len() == 64,
        base58_decoded(encoded.address_base58@) == Some(encoded.public_bytes@),
        base58_decoded(encoded.secret_base58@) == Some(encoded.secret_bytes@),
{
    let public_bytes = keypair.pubkey();
    let secret_bytes = keypair.to_bytes();
    let address_base58 = to_base58(public_bytes.as_slice());
    let secret_base58 = to_base58(secret_bytes.as_slice());
    EncodedKeypair { address_base58, public_bytes, secret_base58, secret_bytes }
}

/// The encoding loses nothing: the Base58 text of the secret decodes to
/// the 64 bytes of the keypair and the address to the 32 bytes of the public
/// key, and the byte arrays have those lengths.
pub proof fn lemma_encoding_round_trip(keypair: Seq<u8>)
    requires
        keypair.len() == 64,
    ensures
        base58_decoded(encoding(keypair).secret_base58) == Some(keypair),
        base58_decoded(encoding(keypair).address_base58) == Some(encoding(keypair).public_bytes),
        encoding(keypair).secret_bytes.len() == 64,
        encoding(keypair).public_bytes.len() == 32,
{
    lemma_base58_round_trip(keypair);
    lemma_base58_round_trip(keypair.subrange(32, 64));
}

} // verus!
