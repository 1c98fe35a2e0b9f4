//! BIP39 mnemonic phrases over the English word list: the five lengths,
//! random generation, and validation of a phrase supplied from outside.

use vstd::prelude::*;
use crate::error::KeygenError;
use crate::text::{count_words, word_count};

verus! {

/// The length of a mnemonic. Each word carries 11 bits; the bits of a
/// mnemonic are its entropy followed by a checksum of one bit for every 32
/// bits of entropy.
#[derive(Clone, Copy, Debug, PartialEq, Eq, Structural)]
pub enum MnemonicType {
    Words12,
    Words15,
    Words18,
    Words21,
    Words24,
}

impl MnemonicType {
    /// The number of words.
    pub open spec fn words(self) -> nat {
        match self {
            MnemonicType::Words12 => 12,
            MnemonicType::Words15 => 15,
            MnemonicType::Words18 => 18,
            MnemonicType::Words21 => 21,
            MnemonicType::Words24 => 24,
        }
    }

    /// The number of bits of entropy.
    pub open spec fn entropy(self) -> nat {
        match self {
            MnemonicType::Words12 => 128,
            MnemonicType::Words15 => 160,
            MnemonicType::Words18 => 192,
            MnemonicType::Words21 => 224,
            MnemonicType::Words24 => 256,
        }
    }

    /// The number of checksum bits.
    pub open spec fn checksum(self) -> nat {
        self.entropy() / 32
    }

    /// The number of words.
    pub fn word_count(&self) -> (n: usize)
        ensures
            n == self.words(),
    {
        match self {
            MnemonicType::Words12 => 12,
            MnemonicType::Words15 => 15,
            MnemonicType::Words18 => 18,
            MnemonicType::Words21 => 21,
            MnemonicType::Words24 => 24,
        }
    }

    /// The number of bits of entropy.
    pub fn entropy_bits(&self) -> (n: usize)
        ensures
            n == self.entropy(),
    {
        match self {
            MnemonicType::Words12 => 128,
            MnemonicType::Words15 => 160,
            MnemonicType::Words18 => 192,
            MnemonicType::Words21 => 224,
            MnemonicType::Words24 => 256,
        }
    }

    /// The number of checksum bits.
    pub fn checksum_bits(&self) -> (n: usize)
        ensures
            n == self.checksum(),
    {
        self.entropy_bits() / 32
    }

    /// The words of a mnemonic hold its entropy and its checksum exactly, at
    /// 11 bits a word.
    pub proof fn lemma_bits(self)
        ensures
            self.entropy() + self.checksum() == 11 * self.words(),
            128 <= self.entropy() <= 256,
            self.entropy() % 32 == 0,
    {
    }
}

/// Whether `n` is one of the five lengths of a mnemonic.
pub open spec fn allowed_word_count(n: nat) -> bool {
    n == 12 || n == 15 || n == 18 || n == 21 || n == 24
}

/// The mnemonic type with `n` words, if there is one.
pub open spec fn type_of_len(n: nat) -> Option<MnemonicType> {
    if n == 12 {
        Some(MnemonicType::Words12)
    } else if n == 15 {
        Some(MnemonicType::Words15)
    } else if n == 18 {
        Some(MnemonicType::Words18)
    } else if n == 21 {
        Some(MnemonicType::Words21)
    } else if n == 24 {
        Some(MnemonicType::Words24)
    } else {
        None
    }
}

/// The mnemonic types are exactly the allowed lengths.
pub proof fn lemma_type_of_len(n: nat)
    ensures
        type_of_len(n) is Some <==> allowed_word_count(n),
        type_of_len(n) matches Some(t) ==> t.words() == n,
{
}

/// The mnemonic type for a requested number of words.
pub fn mnemonic_type_from_len(words: usize) -> (r: Result<MnemonicType, KeygenError>)
    ensures
        r == match type_of_len(words as nat) {
            Some(t) => Ok::<MnemonicType, KeygenError>(t),
            None => Err(KeygenError::InvalidWordCount),
        },
{
    match words {
        12 => Ok(MnemonicType::Words12),
        15 => Ok(MnemonicType::Words15),
        18 => Ok(MnemonicType::Words18),
        21 => Ok(MnemonicType::Words21),
        24 => Ok(MnemonicType::Words24),
        _ => Err(KeygenError::InvalidWordCount),
    }
}

/// What `bip39::Mnemonic::from_phrase` makes of a phrase in the English word
/// list: the phrase in canonical form when it accepts it, nothing when it
/// refuses it (a word outside the list, a wrong number of words, a checksum
/// that does not match).
pub uninterp spec fn bip39_phrase(phrase: Seq<char>) -> Option<Seq<char>>;

/// Trusted: `bip39::Mnemonic::from_phrase` with `Language::English`, then
/// `Mnemonic::phrase`. The outcome depends on the phrase alone.
#[verifier::external_body]
fn bip39_from_phrase(phrase: &str) -> (canonical: Option<String>)
    ensures
        canonical is Some <==> bip39_phrase(phrase@) is Some,
        canonical matches Some(p) ==> bip39_phrase(phrase@) == Some(p@),
{
    match bip39::Mnemonic::from_phrase(phrase, bip39::Language::English) {
        Ok(m) => Some(m.phrase().to_string()),
        Err(_) => None,
    }
}

/// Trusted: `bip39::Mnemonic::new` with `Language::English`, then
/// `Mnemonic::phrase`. The phrase is drawn at random; whatever is drawn, it
/// has the requested number of words. The call does not return if the
/// random source of the operating system is unavailable.
#[verifier::external_body]
fn bip39_new_phrase(mtype: MnemonicType) -> (phrase: String)
    ensures
        word_count(phrase@) == mtype.words(),
{
    let mtype = match mtype {
        MnemonicType::Words12 => bip39::MnemonicType::Words12,
        MnemonicType::Words15 => bip39::MnemonicType::Words15,
        MnemonicType::Words18 => bip39::MnemonicType::Words18,
        MnemonicType::Words21 => bip39::MnemonicType::Words21,
        MnemonicType::Words24 => bip39::MnemonicType::Words24,
    };
    bip39::Mnemonic::new(mtype, bip39::Language::English).phrase().to_string()
}

/// Whether `phrase` has one of the five lengths of a mnemonic.
pub open spec fn is_mnemonic(phrase: Seq<char>) -> bool {
    allowed_word_count(word_count(phrase))
}

/// What validation makes of a phrase: the canonical phrase, if the phrase is
/// accepted and has one of the five lengths.
pub open spec fn parsed(phrase: Seq<char>) -> Result<Seq<char>, KeygenError> {
    match bip39_phrase(phrase) {
        Some(p) => if is_mnemonic(p) {
            Ok(p)
        } else {
            Err(KeygenError::InvalidMnemonic)
        },
        None => Err(KeygenError::InvalidMnemonic),
    }
}

/// Whether `phrase` is a validated mnemonic: the canonical form of a phrase
/// that validation accepts.
pub open spec fn is_validated(phrase: Seq<char>) -> bool {
    exists|supplied: Seq<char>| #[trigger] parsed(supplied) == Ok::<Seq<char>, KeygenError>(phrase)
}

/// A validated mnemonic: a phrase of 12, 15, 18, 21 or 24 words of the word
/// list whose checksum matches.
pub struct Mnemonic {
    phrase: String,
    mtype: MnemonicType,
}

impl View for Mnemonic {
    type V = Seq<char>;

    /// The phrase.
    closed spec fn view(&self) -> Seq<char> {
        self.phrase@
    }
}

impl Mnemonic {
    #[verifier::type_invariant]
    spec fn well_formed(&self) -> bool {
        &&& word_count(self.phrase@) == self.mtype.words()
        &&& is_validated(self.phrase@)
    }

    /// The phrase in canonical form.
    pub fn phrase(&self) -> (phrase: &str)
        ensures
            phrase@ == self@,
            is_mnemonic(self@),
            is_validated(self@),
    {
        proof {
            use_type_invariant(self);
        }
        self.phrase.as_str()
    }

    /// The length of the mnemonic.
    pub fn mnemonic_type(&self) -> (mtype: MnemonicType)
        ensures
            mtype.words() == word_count(self@),
    {
        proof {
            use_type_invariant(self);
        }
        self.mtype
    }
}

/// The view of a result that holds a mnemonic.
pub open spec fn mnemonic_result_view(r: Result<Mnemonic, KeygenError>) -> Result<
    Seq<char>,
    KeygenError,
> {
    match r {
        Ok(m) => Ok(m@),
        Err(e) => Err(e),
    }
}

/// Generates the phrase of a mnemonic of `words` words from fresh random
/// entropy. A count that is not allowed is refused before anything is drawn.
pub fn gen_mnemonic(words: usize) -> (r: Result<String, KeygenError>)
    ensures
        allowed_word_count(words as nat) ==> r is Ok,
        !allowed_word_count(words as nat) ==> r == Err::<String, KeygenError>(
            KeygenError::InvalidWordCount,
        ),
        r matches Ok(phrase) ==> word_count(phrase@) == words,
{
    match mnemonic_type_from_len(words) {
        Ok(mtype) => Ok(bip39_new_phrase(mtype)),
        Err(e) => Err(e),
    }
}

/// Validates a phrase supplied from outside. The phrase is split at white
/// space; it is accepted if every word is in the word list, the number of
/// words is allowed and the checksum matches.
pub fn validate_and_parse(phrase: &str) -> (r: Result<Mnemonic, KeygenError>)
    ensures
        mnemonic_result_view(r) == parsed(phrase@),
{
    match bip39_from_phrase(phrase) {
        Some(canonical) => {
            match mnemonic_type_from_len(count_words(canonical.as_str())) {
                Ok(mtype) => {
                    assert(parsed(phrase@) == Ok::<Seq<char>, KeygenError>(canonical@));
                    Ok(Mnemonic { phrase: canonical, mtype })
                },
                Err(_) => Err(KeygenError::InvalidMnemonic),
            }
        },
        None => Err(KeygenError::InvalidMnemonic),
    }
}

} // verus!
