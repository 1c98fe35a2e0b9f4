//! The conditions under which key generation is refused.

use vstd::prelude::*;
use vstd::string::StringExecFns;

verus! {

/// Why a request for a keypair was refused.
#[derive(Clone, Copy, Debug, PartialEq, Eq, Structural)]
pub enum KeygenError {
    /// The requested mnemonic length is not 12, 15, 18, 21 or 24 words.
    InvalidWordCount,
    /// The phrase has a word outside the word list, a wrong number of words,
    /// or a checksum that does not match.
    InvalidMnemonic,
    /// The seed holds fewer than 32 bytes.
    SeedTooShort,
}

impl KeygenError {
    /// The text of the error line of each condition.
    pub open spec fn spec_message(self) -> Seq<char> {
        match self {
            KeygenError::InvalidWordCount => "invalid --words value; allowed: 12, 15, 18, 21, 24"@,
            KeygenError::InvalidMnemonic => "invalid BIP39 mnemonic"@,
            KeygenError::SeedTooShort => "failed to derive keypair: Seed is too short"@,
        }
    }

    /// A line for a person to read that says which condition was met.
    pub fn message(&self) -> (text: String)
        ensures
            text@ == self.spec_message(),
    {
        match self {
            KeygenError::InvalidWordCount => String::from_str(
                "invalid --words value; allowed: 12, 15, 18, 21, 24",
            ),
            KeygenError::InvalidMnemonic => String::from_str("invalid BIP39 mnemonic"),
            KeygenError::SeedTooShort => String::from_str(
                "failed to derive keypair: Seed is too short",
            ),
        }
    }
}

} // verus!
