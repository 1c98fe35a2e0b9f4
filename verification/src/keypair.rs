//! Ed25519 keypairs: 32 secret bytes and the 32 bytes of the public key that
//! belongs to them.

use vstd::prelude::*;
use vstd::slice::{slice_subrange, slice_to_vec};
use crate::error::KeygenError;
use crate::mnemonic::{parsed, validate_and_parse, Mnemonic};
use crate::seed::{derive_seed, pbkdf2_seed};

verus! {

/// The Ed25519 public key of the 32 secret bytes `secret`: the secret is
/// hashed with SHA-512, the lower half is clamped to a scalar, and the base
/// point is multiplied by it.
pub uninterp spec fn ed25519_public_key(secret: Seq<u8>) -> Seq<u8>;

/// Whether `bytes` is a keypair: 32 secret bytes, then their public key.
pub open spec fn is_keypair(bytes: Seq<u8>) -> bool {
    &&& bytes.len() == 64
    &&& bytes.subrange(32, 64) == ed25519_public_key(bytes.subrange(0, 32))
}

/// What a seed gives: its first 32 bytes are the secret, and no keypair
/// comes of a seed under 32 bytes.
pub open spec fn keypair_of_seed(seed: Seq<u8>) -> Result<Seq<u8>, KeygenError> {
    if seed.len() < 32 {
        Err(KeygenError::SeedTooShort)
    } else {
        Ok(seed.subrange(0, 32) + ed25519_public_key(seed.subrange(0, 32)))
    }
}

/// What a phrase and a passphrase give: the keypair of the seed of the
/// validated phrase.
pub open spec fn keypair_of_phrase(phrase: Seq<char>, passphrase: Seq<char>) -> Result<
    Seq<u8>,
    KeygenError,
> {
    match parsed(phrase) {
        Ok(canonical) => keypair_of_seed(pbkdf2_seed(canonical, passphrase)),
        Err(e) => Err(e),
    }
}

/// Whether `r` is what the derivation of `phrase` under `passphrase` gives.
pub open spec fn derivation_outcome(
    phrase: Seq<char>,
    passphrase: Seq<char>,
    r: Result<Keypair, KeygenError>,
) -> bool {
    keypair_result_view(r) == keypair_of_phrase(phrase, passphrase)
}

/// Trusted: `solana_sdk::signer::keypair::keypair_from_seed`, then
/// `Keypair::to_bytes`. The call fails only on a seed under 32 bytes, which
/// is not handed to it. The 64 bytes are the secret as given and then its
/// public key, which depends on the secret alone.
#[verifier::external_body]
fn solana_keypair_from_seed(secret: &[u8]) -> (bytes: Vec<u8>)
    requires
        secret@.len() == 32,
    ensures
        bytes@ == secret@ + ed25519_public_key(secret@),
        bytes@.len() == 64,
{
    match solana_sdk::signer::keypair::keypair_from_seed(secret) {
        Ok(keypair) => keypair.to_bytes().to_vec(),
        Err(_) => Vec::new(),
    }
}

/// Trusted: `solana_sdk::signature::Keypair::new`, then the bytes of
/// `Keypair::secret`: 32 bytes from the random source of the operating
/// system. The call does not return if that source is unavailable.
#[verifier::external_body]
fn solana_new_secret() -> (secret: Vec<u8>)
    ensures
        secret@.len() == 32,
{
    solana_sdk::signature::Keypair::new().secret().to_bytes().to_vec()
}

/// An Ed25519 keypair.
pub struct Keypair {
    bytes: Vec<u8>,
}

impl View for Keypair {
    type V = Seq<u8>;

    /// The 64 bytes of the keypair: the secret, then the public key.
    closed spec fn view(&self) -> Seq<u8> {
        self.bytes@
    }
}

impl Keypair {
    #[verifier::type_invariant]
    spec fn well_formed(&self) -> bool {
        is_keypair(self.bytes@)
    }

    /// The 64 bytes of the keypair: the secret, then the public key.
    pub fn to_bytes(&self) -> (bytes: Vec<u8>)
        ensures
            bytes@ == self@,
            is_keypair(self@),
    {
        proof {
            use_type_invariant(self);
        }
        slice_to_vec(self.bytes.as_slice())
    }

    /// The 32 bytes of the public key.
    pub fn pubkey(&self) -> (bytes: Vec<u8>)
        ensures
            bytes@ == self@.subrange(32, 64),
            bytes@.len() == 32,
    {
        proof {
            use_type_invariant(self);
        }
        slice_to_vec(slice_subrange(self.bytes.as_slice(), 32, 64))
    }

    /// A second copy of the keypair.
    pub fn duplicate(&self) -> (copy: Keypair)
        ensures
            copy@ == self@,
    {
        proof {
            use_type_invariant(self);
        }
        Keypair { bytes: slice_to_vec(self.bytes.as_slice()) }
    }
}

/// The view of a result that holds a keypair.
pub open spec fn keypair_result_view(r: Result<Keypair, KeygenError>) -> Result<
    Seq<u8>,
    KeygenError,
> {
    match r {
        Ok(keypair) => Ok(keypair@),
        Err(e) => Err(e),
    }
}

/// The keypair whose secret is `secret`.
fn keypair_of_secret(secret: &[u8]) -> (keypair: Keypair)
    requires
        secret@.len() == 32,
    ensures
        keypair@ == secret@ + ed25519_public_key(secret@),
        is_keypair(keypair@),
{
    let bytes = solana_keypair_from_seed(secret);
    assert(bytes@.subrange(0, 32) =~= secret@);
    assert(bytes@.subrange(32, 64) =~= ed25519_public_key(secret@));
    Keypair { bytes }
}

/// Derives the keypair of a seed. The first 32 bytes of the seed are the
/// secret; a seed under 32 bytes is refused.
pub fn keypair_from_seed(seed: &[u8]) -> (r: Result<Keypair, KeygenError>)
    ensures
        keypair_result_view(r) == keypair_of_seed(seed@),
        r matches Ok(keypair) ==> is_keypair(keypair@),
{
    if seed.len() < 32 {
        Err(KeygenError::SeedTooShort)
    } else {
        Ok(keypair_of_secret(slice_subrange(seed, 0, 32)))
    }
}

/// Generates a keypair from 32 fresh random bytes.
pub fn random_keypair() -> (keypair: Keypair)
    ensures
        is_keypair(keypair@),
{
    let secret = solana_new_secret();
    keypair_of_secret(secret.as_slice())
}

/// Derives the keypair of a mnemonic under a passphrase: the first 32
/// bytes of its seed are the secret. There is one keypair for a mnemonic and
/// a passphrase, and the same two always give the same keypair.
pub fn derive_keypair(mnemonic: &Mnemonic, passphrase: &str) -> (keypair: Keypair)
    ensures
        Ok::<Seq<u8>, KeygenError>(keypair@) == keypair_of_seed(
            pbkdf2_seed(mnemonic@, passphrase@),
        ),
        is_keypair(keypair@),
{
    let seed = derive_seed(mnemonic, passphrase);
    keypair_of_secret(slice_subrange(seed.as_bytes(), 0, 32))
}

/// Derives the keypair of a mnemonic phrase and a passphrase: the phrase is
/// validated, stretched to a seed, and the seed gives the keypair. A phrase
/// that is refused gives no keypair; nothing else fails.
pub fn keypair_from_mnemonic(phrase: &str, passphrase: &str) -> (r: Result<Keypair, KeygenError>)
    ensures
        derivation_outcome(phrase@, passphrase@, r),
        r is Ok <==> parsed(phrase@) is Ok,
        r matches Err(e) ==> e == KeygenError::InvalidMnemonic,
        r matches Ok(keypair) ==> is_keypair(keypair@),
{
    match validate_and_parse(phrase) {
        Ok(mnemonic) => Ok(derive_keypair(&mnemonic, passphrase)),
        Err(e) => Err(e),
    }
}

/// Derivation is deterministic: two derivations of one phrase under one
/// passphrase give the same 64 bytes, or fail alike.
pub proof fn lemma_derivation_deterministic(
    phrase: Seq<char>,
    passphrase: Seq<char>,
    first: Result<Keypair, KeygenError>,
    second: Result<Keypair, KeygenError>,
)
    requires
        derivation_outcome(phrase, passphrase, first),
        derivation_outcome(phrase, passphrase, second),
        first matches Ok(a) ==> is_keypair(a@),
    ensures
        keypair_result_view(first) == keypair_result_view(second),
        first matches Ok(a) ==> second matches Ok(b) && a@ == b@ && a@.len() == 64,
{
}

} // verus!
