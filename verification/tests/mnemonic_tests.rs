use generate_keypair::error::KeygenError;
use generate_keypair::mnemonic::{
    gen_mnemonic, mnemonic_type_from_len, validate_and_parse, MnemonicType,
};
use generate_keypair::seed::derive_seed;
use generate_keypair::text::count_words;

const ABOUT: &str =
    "abandon abandon abandon abandon abandon abandon abandon abandon abandon abandon abandon about";

fn hex(bytes: &[u8]) -> String {
    let mut text = String::new();
    for b in bytes {
        text.push_str(&format!("{:02x}", b));
    }
    text
}

#[test]
fn mnemonic_type_of_each_allowed_length() {
    assert_eq!(mnemonic_type_from_len(12), Ok(MnemonicType::Words12));
    assert_eq!(mnemonic_type_from_len(15), Ok(MnemonicType::Words15));
    assert_eq!(mnemonic_type_from_len(18), Ok(MnemonicType::Words18));
    assert_eq!(mnemonic_type_from_len(21), Ok(MnemonicType::Words21));
    assert_eq!(mnemonic_type_from_len(24), Ok(MnemonicType::Words24));
}

#[test]
fn mnemonic_type_of_other_lengths_is_refused() {
    for words in [0usize, 1, 11, 13, 14, 16, 23, 25, 36, usize::MAX] {
        assert_eq!(mnemonic_type_from_len(words), Err(KeygenError::InvalidWordCount));
    }
}

#[test]
fn mnemonic_type_bits() {
    let table = [
        (MnemonicType::Words12, 12, 128, 4),
        (MnemonicType::Words15, 15, 160, 5),
        (MnemonicType::Words18, 18, 192, 6),
        (MnemonicType::Words21, 21, 224, 7),
        (MnemonicType::Words24, 24, 256, 8),
    ];
    for (mtype, words, entropy, checksum) in table {
        assert_eq!(mtype.word_count(), words);
        assert_eq!(mtype.entropy_bits(), entropy);
        assert_eq!(mtype.checksum_bits(), checksum);
        assert_eq!(entropy + checksum, 11 * words);
    }
}

#[test]
fn generated_mnemonic_has_the_requested_length() {
    for words in [12usize, 15, 18, 21, 24] {
        let phrase = gen_mnemonic(words).unwrap();
        assert_eq!(count_words(&phrase), words);
        assert_eq!(phrase.split(' ').count(), words);
    }
}

#[test]
fn generated_mnemonic_is_valid() {
    for words in [12usize, 15, 18, 21, 24] {
        let phrase = gen_mnemonic(words).unwrap();
        let mnemonic = validate_and_parse(&phrase).unwrap();
        assert_eq!(mnemonic.phrase(), phrase);
        assert_eq!(mnemonic.mnemonic_type().word_count(), words);
    }
}

#[test]
fn generated_mnemonics_differ() {
    let a = gen_mnemonic(24).unwrap();
    let b = gen_mnemonic(24).unwrap();
    assert_ne!(a, b);
}

#[test]
fn generating_thirteen_words_is_refused() {
    assert!(matches!(gen_mnemonic(13), Err(KeygenError::InvalidWordCount)));
    assert!(matches!(gen_mnemonic(0), Err(KeygenError::InvalidWordCount)));
}

#[test]
fn canonical_vector_validates() {
    let mnemonic = validate_and_parse(ABOUT).unwrap();
    assert_eq!(mnemonic.phrase(), ABOUT);
    assert_eq!(mnemonic.mnemonic_type(), MnemonicType::Words12);
}

#[test]
fn altered_last_word_fails() {
    let phrase = "abandon abandon abandon abandon abandon abandon abandon abandon abandon abandon abandon abandoned";
    assert!(matches!(validate_and_parse(phrase), Err(KeygenError::InvalidMnemonic)));
}

#[test]
fn wrong_checksum_fails() {
    let phrase = "abandon abandon abandon abandon abandon abandon abandon abandon abandon abandon abandon abandon";
    assert!(matches!(validate_and_parse(phrase), Err(KeygenError::InvalidMnemonic)));
}

#[test]
fn wrong_number_of_words_fails() {
    let eleven = "abandon abandon abandon abandon abandon abandon abandon abandon abandon abandon about";
    assert!(matches!(validate_and_parse(eleven), Err(KeygenError::InvalidMnemonic)));
    assert!(matches!(validate_and_parse(""), Err(KeygenError::InvalidMnemonic)));
    assert!(matches!(validate_and_parse("about"), Err(KeygenError::InvalidMnemonic)));
}

#[test]
fn validation_is_case_sensitive() {
    let phrase = ABOUT.to_uppercase();
    assert!(matches!(validate_and_parse(&phrase), Err(KeygenError::InvalidMnemonic)));
}

#[test]
fn validation_splits_at_any_whitespace() {
    let phrase = "  abandon abandon\tabandon abandon  abandon abandon abandon abandon abandon abandon abandon\nabout ";
    let mnemonic = validate_and_parse(phrase).unwrap();
    assert_eq!(mnemonic.phrase(), ABOUT);
}

#[test]
fn longer_vectors_validate() {
    let eighteen = "legal winner thank year wave sausage worth useful legal winner thank year wave sausage worth useful legal will";
    let twenty_four = "zoo zoo zoo zoo zoo zoo zoo zoo zoo zoo zoo zoo zoo zoo zoo zoo zoo zoo zoo zoo zoo zoo zoo vote";
    assert_eq!(validate_and_parse(eighteen).unwrap().mnemonic_type(), MnemonicType::Words18);
    assert_eq!(validate_and_parse(twenty_four).unwrap().mnemonic_type(), MnemonicType::Words24);
}

#[test]
fn seed_of_canonical_vector_without_passphrase() {
    let mnemonic = validate_and_parse(ABOUT).unwrap();
    let seed = derive_seed(&mnemonic, "");
    assert_eq!(seed.as_bytes().len(), 64);
    assert_eq!(
        hex(seed.as_bytes()),
        "5eb00bbddcf069084889a8ab9155568165f5c453ccb85e70811aaed6f6da5fc1\
         9a5ac40b389cd370d086206dec8aa6c43daea6690f20ad3d8d48b2d2ce9e38e4"
    );
}

#[test]
fn seed_of_canonical_vector_with_passphrase() {
    let mnemonic = validate_and_parse(ABOUT).unwrap();
    let seed = derive_seed(&mnemonic, "TREZOR");
    assert_eq!(
        hex(seed.as_bytes()),
        "c55257c360c07c72029aebc1b53c05ed0362ada38ead3e3e9efa3708e5349553\
         1f09a6987599d18264c1e1c92f2cf141630c7a3c4ab7c81b2f001698e7463b04"
    );
}

#[test]
fn seed_does_not_depend_on_the_spacing_of_the_phrase() {
    let spaced = "abandon  abandon abandon abandon abandon abandon abandon abandon abandon abandon abandon   about";
    let a = derive_seed(&validate_and_parse(ABOUT).unwrap(), "x");
    let b = derive_seed(&validate_and_parse(spaced).unwrap(), "x");
    assert_eq!(a.as_bytes(), b.as_bytes());
}
