//! The three modes of a run, and the keypairs that a run of each gives.

use vstd::prelude::*;
use crate::block::key_lines;
use crate::encode::encoding;
use crate::error::KeygenError;
use crate::keypair::{
    derivation_outcome,
    is_keypair,
    keypair_from_mnemonic,
    keypair_of_phrase,
    random_keypair,
    Keypair,
};
use crate::mnemonic::{allowed_word_count, gen_mnemonic};
use crate::text::word_count;

verus! {

/// What a run does, chosen once at its start.
pub enum Mode {
    /// Random keypairs.
    Random,
    /// Fresh mnemonics of so many words, each with its keypair.
    Generate(usize),
    /// The keypair of this phrase.
    Derive(String),
}

/// The mode that the options of a run ask for: no mnemonic option, the
/// option without a phrase, or the option with a phrase. The number of words
/// counts only where mnemonics are generated.
pub fn select_mode(mnemonic: Option<Option<String>>, words: usize) -> (mode: Mode)
    ensures
        mode == match mnemonic {
            None => Mode::Random,
            Some(None) => Mode::Generate(words),
            Some(Some(phrase)) => Mode::Derive(phrase),
        },
{
    match mnemonic {
        None => Mode::Random,
        Some(None) => Mode::Generate(words),
        Some(Some(phrase)) => Mode::Derive(phrase),
    }
}

/// One keypair of a run, with its number and, where the run generated it,
/// the mnemonic it was derived from.
pub struct KeypairBlock {
    pub index: usize,
    pub mnemonic: Option<String>,
    pub keypair: Keypair,
}

/// Whether `block` is the block with the number `index` of a run in random
/// mode.
pub open spec fn random_block(block: KeypairBlock, index: nat) -> bool {
    &&& block.index == index
    &&& block.mnemonic is None
    &&& is_keypair(block.keypair@)
}

/// Whether `block` is the block with the number `index` of a run that
/// generates mnemonics of `words` words: it holds a phrase of so many words
/// and the keypair that derivation gives for that phrase under `passphrase`.
pub open spec fn generated_block(
    block: KeypairBlock,
    index: nat,
    words: nat,
    passphrase: Seq<char>,
) -> bool {
    &&& block.index == index
    &&& block.mnemonic matches Some(phrase)
    &&& word_count(phrase@) == words
    &&& Ok::<Seq<u8>, KeygenError>(block.keypair@) == keypair_of_phrase(phrase@, passphrase)
    &&& is_keypair(block.keypair@)
}

/// Whether `block` is the block with the number `index` of a run that
/// derives the keypair of `phrase` under `passphrase`.
pub open spec fn derived_block(
    block: KeypairBlock,
    index: nat,
    phrase: Seq<char>,
    passphrase: Seq<char>,
) -> bool {
    &&& block.index == index
    &&& block.mnemonic is None
    &&& Ok::<Seq<u8>, KeygenError>(block.keypair@) == keypair_of_phrase(phrase, passphrase)
    &&& is_keypair(block.keypair@)
}

/// Whether `r` is an outcome of a run in `mode` under `passphrase` that is
/// to give `num` blocks.
///
/// A run gives all its blocks, numbered from 1, or an error and no block.
/// In random mode it does not fail. Where mnemonics are generated and a
/// block is asked for, it fails if the number of words is not allowed;
/// every phrase it generates is validated as a phrase from outside is, so
/// with an allowed number it gives its blocks or, should validation refuse
/// a generated phrase, the error of a refused phrase. Where a phrase is given
/// it fails if the phrase is refused, and otherwise every block holds the
/// one keypair of the phrase.
pub open spec fn run_outcome(
    mode: Mode,
    passphrase: Seq<char>,
    num: nat,
    r: Result<Vec<KeypairBlock>, KeygenError>,
) -> bool {
    match mode {
        Mode::Random => {
            &&& r matches Ok(blocks)
            &&& blocks@.len() == num
            &&& forall|i: int| 0 <= i < num ==> random_block(#[trigger] blocks@[i], (i + 1) as nat)
        },
        Mode::Generate(words) => {
            if num > 0 && !allowed_word_count(words as nat) {
                r == Err::<Vec<KeypairBlock>, KeygenError>(KeygenError::InvalidWordCount)
            } else {
                match r {
                    Ok(blocks) => {
                        &&& blocks@.len() == num
                        &&& forall|i: int|
                            0 <= i < num ==> generated_block(
                                #[trigger] blocks@[i],
                                (i + 1) as nat,
                                words as nat,
                                passphrase,
                            )
                    },
                    Err(e) => num > 0 && e == KeygenError::InvalidMnemonic,
                }
            }
        },
        Mode::Derive(phrase) => {
            if keypair_of_phrase(phrase@, passphrase) is Err {
                r == Err::<Vec<KeypairBlock>, KeygenError>(KeygenError::InvalidMnemonic)
            } else {
                &&& r matches Ok(blocks)
                &&& blocks@.len() == num
                &&& forall|i: int|
                    0 <= i < num ==> derived_block(
                        #[trigger] blocks@[i],
                        (i + 1) as nat,
                        phrase@,
                        passphrase,
                    )
            }
        },
    }
}

/// Runs `mode`: gives the `num` blocks of the run in order, or the error
/// that stopped it, in which case there is nothing to show.
pub fn run(mode: &Mode, passphrase: &str, num: usize) -> (r: Result<Vec<KeypairBlock>, KeygenError>)
    ensures
        run_outcome(*mode, passphrase@, num as nat, r),
{
    let mut blocks: Vec<KeypairBlock> = Vec::new();
    match mode {
        Mode::Random => {
            let mut i: usize = 0;
            while i < num
                invariant
                    i <= num,
                    blocks@.len() == i,
                    forall|k: int| 0 <= k < i ==> random_block(#[trigger] blocks@[k], (k + 1) as nat),
                decreases num - i,
            {
                i = i + 1;
                blocks.push(KeypairBlock { index: i, mnemonic: None, keypair: random_keypair() });
            }
        },
        Mode::Generate(words) => {
            let mut i: usize = 0;
            while i < num
                invariant
                    i <= num,
                    blocks@.len() == i,
                    *mode == Mode::Generate(*words),
                    i > 0 ==> allowed_word_count(*words as nat),
                    forall|k: int|
                        0 <= k < i ==> generated_block(
                            #[trigger] blocks@[k],
                            (k + 1) as nat,
                            *words as nat,
                            passphrase@,
                        ),
                decreases num - i,
            {
                i = i + 1;
                let phrase = match gen_mnemonic(*words) {
                    Ok(phrase) => phrase,
                    Err(e) => {
                        return Err(e);
                    },
                };
                let keypair = match keypair_from_mnemonic(phrase.as_str(), passphrase) {
                    Ok(keypair) => keypair,
                    Err(e) => {
                        return Err(e);
                    },
                };
                blocks.push(KeypairBlock { index: i, mnemonic: Some(phrase), keypair });
            }
        },
        Mode::Derive(phrase) => {
            let keypair = match keypair_from_mnemonic(phrase.as_str(), passphrase) {
                Ok(keypair) => keypair,
                Err(e) => {
                    return Err(e);
                },
            };
            let mut i: usize = 0;
            while i < num
                invariant
                    i <= num,
                    blocks@.len() == i,
                    Ok::<Seq<u8>, KeygenError>(keypair@) == keypair_of_phrase(
                        phrase@,
                        passphrase@,
                    ),
                    is_keypair(keypair@),
                    forall|k: int|
                        0 <= k < i ==> derived_block(
                            #[trigger] blocks@[k],
                            (k + 1) as nat,
                            phrase@,
                            passphrase@,
                        ),
                decreases num - i,
            {
                i = i + 1;
                blocks.push(KeypairBlock { index: i, mnemonic: None, keypair: keypair.duplicate() });
            }
        },
    }
    Ok(blocks)
}

/// Where a phrase is given, the blocks repeat one keypair: any two blocks
/// of the run hold the same 64 bytes, and so show the same address and the
/// same secret.
pub proof fn lemma_derive_mode_repeats(
    phrase: String,
    passphrase: Seq<char>,
    num: nat,
    blocks: Vec<KeypairBlock>,
    i: int,
    j: int,
)
    requires
        run_outcome(
            Mode::Derive(phrase),
            passphrase,
            num,
            Ok::<Vec<KeypairBlock>, KeygenError>(blocks),
        ),
        0 <= i < num,
        0 <= j < num,
    ensures
        blocks@.len() == num,
        blocks@[i].keypair@ == blocks@[j].keypair@,
        encoding(blocks@[i].keypair@) == encoding(blocks@[j].keypair@),
        key_lines(blocks@[i].keypair@) == key_lines(blocks@[j].keypair@),
{
    assert(derived_block(blocks@[i], (i + 1) as nat, phrase@, passphrase));
    assert(derived_block(blocks@[j], (j + 1) as nat, phrase@, passphrase));
}

/// The keypair shown with a generated mnemonic is the keypair of that
/// mnemonic: deriving from the phrase of the block, under the passphrase of
/// the run, gives the 64 bytes of the block again.
pub proof fn lemma_generated_block_recovers(
    block: KeypairBlock,
    index: nat,
    words: nat,
    passphrase: Seq<char>,
    again: Result<Keypair, KeygenError>,
)
    requires
        generated_block(block, index, words, passphrase),
        block.mnemonic matches Some(phrase) && derivation_outcome(phrase@, passphrase, again),
    ensures
        again matches Ok(keypair) && keypair@ == block.keypair@,
{
}

/// Where mnemonics are generated, a number of words that is not allowed
/// stops a run that is to give a block, with no block given.
pub proof fn lemma_generate_refuses_word_count(
    words: usize,
    passphrase: Seq<char>,
    num: nat,
    r: Result<Vec<KeypairBlock>, KeygenError>,
)
    requires
        run_outcome(Mode::Generate(words), passphrase, num, r),
        !allowed_word_count(words as nat),
        num > 0,
    ensures
        r == Err::<Vec<KeypairBlock>, KeygenError>(KeygenError::InvalidWordCount),
{
}

} // verus!
