//! The seed of a mnemonic: 64 bytes stretched from the phrase and a
//! passphrase.

use vstd::prelude::*;
use crate::mnemonic::Mnemonic;

verus! {

/// The 64 bytes that PBKDF2 with HMAC-SHA512 and 2048 rounds gives for the
/// password `phrase` and the salt `"mnemonic"` followed by `passphrase`,
/// both as UTF-8.
pub uninterp spec fn pbkdf2_seed(phrase: Seq<char>, passphrase: Seq<char>) -> Seq<u8>;

/// Trusted: `solana_sdk::signer::keypair::generate_seed_from_seed_phrase_and_passphrase`.
/// The outcome depends on the two texts alone and is 64 bytes long.
#[verifier::external_body]
fn solana_seed(phrase: &str, passphrase: &str) -> (bytes: Vec<u8>)
    ensures
        bytes@ == pbkdf2_seed(phrase@, passphrase@),
        bytes@.len() == 64,
{
    solana_sdk::signer::keypair::generate_seed_from_seed_phrase_and_passphrase(phrase, passphrase)
}

/// The seed of a mnemonic and a passphrase.
pub struct Seed {
    bytes: Vec<u8>,
}

impl View for Seed {
    type V = Seq<u8>;

    /// The bytes of the seed.
    closed spec fn view(&self) -> Seq<u8> {
        self.bytes@
    }
}

impl Seed {
    #[verifier::type_invariant]
    spec fn well_formed(&self) -> bool {
        self.bytes@.len() == 64
    }

    /// The 64 bytes of the seed.
    pub fn as_bytes(&self) -> (bytes: &[u8])
        ensures
            bytes@ == self@,
            bytes@.len() == 64,
    {
        proof {
            use_type_invariant(self);
        }
        self.bytes.as_slice()
    }
}

/// Derives the seed of `mnemonic` under `passphrase`. Any passphrase is
/// accepted; the same mnemonic and passphrase always give the same seed.
pub fn derive_seed(mnemonic: &Mnemonic, passphrase: &str) -> (seed: Seed)
    ensures
        seed@ == pbkdf2_seed(mnemonic@, passphrase@),
        seed@.len() == 64,
{
    let bytes = solana_seed(mnemonic.phrase(), passphrase);
    Seed { bytes }
}

} // verus!
