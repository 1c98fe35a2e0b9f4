use generate_keypair::encode::encode;
use generate_keypair::error::KeygenError;
use generate_keypair::keypair::{
    derive_keypair, keypair_from_mnemonic, keypair_from_seed, random_keypair,
};
use generate_keypair::mnemonic::validate_and_parse;
use generate_keypair::seed::derive_seed;

const ABOUT: &str =
    "abandon abandon abandon abandon abandon abandon abandon abandon abandon abandon abandon about";
const LEGAL: &str =
    "legal winner thank year wave sausage worth useful legal winner thank yellow";
const LETTER: &str =
    "letter advice cage absurd amount doctor acoustic avoid letter advice cage above";
const ZOO: &str = "zoo zoo zoo zoo zoo zoo zoo zoo zoo zoo zoo wrong";

const SECRET: [u8; 32] = [
    157, 97, 177, 157, 239, 253, 90, 96, 186, 132, 74, 244, 146, 236, 44, 196, 68, 73, 197, 105,
    123, 50, 105, 25, 112, 59, 172, 3, 28, 174, 127, 96,
];
const PUBLIC: [u8; 32] = [
    215, 90, 152, 1, 130, 177, 10, 183, 213, 75, 254, 211, 201, 100, 7, 58, 14, 225, 114, 243,
    218, 166, 35, 37, 175, 2, 26, 104, 247, 7, 81, 26,
];

#[test]
fn keypair_of_known_secret() {
    let keypair = keypair_from_seed(&SECRET).unwrap();
    let bytes = keypair.to_bytes();
    assert_eq!(bytes.len(), 64);
    assert_eq!(&bytes[..32], &SECRET);
    assert_eq!(&bytes[32..], &PUBLIC);
    assert_eq!(keypair.pubkey(), PUBLIC.to_vec());
}

#[test]
fn keypair_uses_the_first_half_of_the_seed() {
    let mut seed = SECRET.to_vec();
    seed.extend_from_slice(&[0xAB; 32]);
    let keypair = keypair_from_seed(&seed).unwrap();
    assert_eq!(&keypair.to_bytes()[..32], &SECRET);
    assert_eq!(keypair.pubkey(), PUBLIC.to_vec());
}

#[test]
fn short_seed_is_refused() {
    assert!(matches!(keypair_from_seed(&[]), Err(KeygenError::SeedTooShort)));
    assert!(matches!(keypair_from_seed(&SECRET[..31]), Err(KeygenError::SeedTooShort)));
    assert!(keypair_from_seed(&SECRET[..32]).is_ok());
}

#[test]
fn duplicate_holds_the_same_bytes() {
    let keypair = keypair_from_seed(&SECRET).unwrap();
    assert_eq!(keypair.duplicate().to_bytes(), keypair.to_bytes());
}

#[test]
fn random_keypairs_are_well_formed_and_differ() {
    let a = random_keypair();
    let b = random_keypair();
    assert_eq!(a.to_bytes().len(), 64);
    assert_ne!(a.to_bytes(), b.to_bytes());
    let again = keypair_from_seed(&a.to_bytes()[..32]).unwrap();
    assert_eq!(again.to_bytes(), a.to_bytes());
}

#[test]
fn derivation_is_deterministic() {
    for phrase in [ABOUT, LEGAL, LETTER, ZOO] {
        for passphrase in ["", "x", "TREZOR"] {
            let a = keypair_from_mnemonic(phrase, passphrase).unwrap();
            let b = keypair_from_mnemonic(phrase, passphrase).unwrap();
            assert_eq!(a.to_bytes(), b.to_bytes());
            assert_eq!(a.to_bytes().len(), 64);
        }
    }
}

#[test]
fn derivation_takes_the_first_half_of_the_seed() {
    let mnemonic = validate_and_parse(ABOUT).unwrap();
    let seed = derive_seed(&mnemonic, "");
    let keypair = keypair_from_mnemonic(ABOUT, "").unwrap();
    assert_eq!(&keypair.to_bytes()[..32], &seed.as_bytes()[..32]);
    assert_eq!(derive_keypair(&mnemonic, "").to_bytes(), keypair.to_bytes());
    assert_eq!(keypair_from_seed(seed.as_bytes()).unwrap().to_bytes(), keypair.to_bytes());
}

#[test]
fn distinct_phrases_give_distinct_keypairs() {
    let phrases = [ABOUT, LEGAL, LETTER, ZOO];
    for i in 0..phrases.len() {
        for j in 0..i {
            let a = keypair_from_mnemonic(phrases[i], "").unwrap();
            let b = keypair_from_mnemonic(phrases[j], "").unwrap();
            assert_ne!(a.to_bytes(), b.to_bytes());
            assert_ne!(a.pubkey(), b.pubkey());
        }
    }
}

#[test]
fn passphrase_changes_the_keypair() {
    let a = keypair_from_mnemonic(ABOUT, "").unwrap();
    let b = keypair_from_mnemonic(ABOUT, "x").unwrap();
    assert_ne!(a.to_bytes(), b.to_bytes());
    assert_ne!(a.pubkey(), b.pubkey());
}

#[test]
fn invalid_phrase_gives_no_keypair() {
    let altered = "abandon abandon abandon abandon abandon abandon abandon abandon abandon abandon abandon abandoned";
    assert!(matches!(keypair_from_mnemonic(altered, ""), Err(KeygenError::InvalidMnemonic)));
    assert!(matches!(keypair_from_mnemonic("", ""), Err(KeygenError::InvalidMnemonic)));
}

#[test]
fn encoding_of_known_keypair() {
    let keypair = keypair_from_seed(&SECRET).unwrap();
    let encoded = encode(&keypair);
    assert_eq!(encoded.public_bytes, PUBLIC.to_vec());
    assert_eq!(encoded.secret_bytes, keypair.to_bytes());
    assert_eq!(encoded.address_base58, bs58::encode(PUBLIC).into_string());
    assert_eq!(encoded.address_base58, "FVen3X669xLzsi6N2V91DoiyzHzg1uAgqiT8jZ9nS96Z");
}

#[test]
fn encoded_secret_decodes_to_the_keypair() {
    for phrase in [ABOUT, LEGAL, LETTER, ZOO] {
        let keypair = keypair_from_mnemonic(phrase, "").unwrap();
        let encoded = encode(&keypair);
        assert_eq!(bs58::decode(&encoded.secret_base58).into_vec().unwrap(), keypair.to_bytes());
        assert_eq!(bs58::decode(&encoded.address_base58).into_vec().unwrap(), keypair.pubkey());
        assert_eq!(encoded.public_bytes.len(), 32);
        assert_eq!(encoded.secret_bytes.len(), 64);
    }
}

#[test]
fn random_keypair_round_trips() {
    let keypair = random_keypair();
    let encoded = encode(&keypair);
    assert_eq!(bs58::decode(&encoded.secret_base58).into_vec().unwrap(), keypair.to_bytes());
    assert_eq!(encoded.secret_bytes.len(), 64);
    assert_eq!(encoded.public_bytes.len(), 32);
}
