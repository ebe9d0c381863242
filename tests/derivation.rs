use bitcoin::util::address::AddressType;
use foogold::{normalize_phrase, parse_derivation_paths, AddressGenerator, DerivationError, DerivationPath, Mnemonic, MnemonicError, MnemonicGenerator, PathError, ScriptKind};
use std::str::FromStr;

const ABANDON_ABOUT: &str =
    "abandon abandon abandon abandon abandon abandon abandon abandon abandon abandon abandon about";

fn path(s: &str) -> DerivationPath {
    DerivationPath::parse(s).unwrap()
}

fn generator(paths: &[&str]) -> AddressGenerator {
    AddressGenerator::new(paths.iter().map(|p| path(p)).collect()).unwrap()
}

fn address_type(a: &str) -> Option<AddressType> {
    bitcoin::Address::from_str(a).unwrap().address_type()
}

#[test]
fn path_parse_reads_hardened_and_normal_children() {
    let p = path("m/84'/0'/0'/0/5");
    assert_eq!(p.children(), &vec![0x8000_0054, 0x8000_0000, 0x8000_0000, 0, 5]);
    assert_eq!(p.script_kind(), Some(ScriptKind::NativeSegwit));
    assert_eq!(path("m/49h/0h").children(), &vec![0x8000_0031, 0x8000_0000]);
    assert_eq!(path("m").children(), &Vec::<u32>::new());
}

#[test]
fn path_parse_refuses_malformed_text() {
    assert_eq!(DerivationPath::parse("84'/0'"), Err(PathError::InvalidFormat));
    assert_eq!(DerivationPath::parse("m/x"), Err(PathError::InvalidFormat));
    assert_eq!(DerivationPath::parse("m/2147483648'"), Err(PathError::InvalidFormat));
}

#[test]
fn path_text_matches_bitcoin_display() {
    for s in ["m", "m/84'/0'/0'/0/0", "m/49'/0'/2147483647'/1/4294967", "m/44'/10'/0'/0/19"] {
        let ours = path(s).to_text();
        let theirs = bitcoin::util::bip32::DerivationPath::from_str(s).unwrap().to_string();
        assert_eq!(ours, theirs);
        assert_eq!(ours, s);
    }
}

#[test]
fn script_kind_follows_the_hardened_purpose() {
    assert_eq!(path("m/49'/0'").script_kind(), Some(ScriptKind::WrappedSegwit));
    assert_eq!(path("m/44'/0'").script_kind(), Some(ScriptKind::Legacy));
    assert_eq!(path("m/84/0").script_kind(), None);
    assert_eq!(path("m/45'/0'").script_kind(), None);
    assert_eq!(path("m").script_kind(), None);
}

#[test]
fn mnemonic_parse_checks_the_checksum() {
    assert!(Mnemonic::parse_normalized(ABANDON_ABOUT).is_ok());
    let twelve_abandon = vec!["abandon"; 12].join(" ");
    assert_eq!(Mnemonic::parse_normalized(&twelve_abandon).unwrap_err(), MnemonicError::Invalid);
    assert_eq!(Mnemonic::parse_normalized("abandon about").unwrap_err(), MnemonicError::Invalid);
    assert_eq!(Mnemonic::parse_normalized("").unwrap_err(), MnemonicError::Invalid);
}

#[test]
fn mnemonic_seed_is_the_bip39_seed() {
    let m = Mnemonic::parse_normalized(ABANDON_ABOUT).unwrap();
    let seed = m.to_seed();
    assert_eq!(seed.len(), 64);
    let expected = bip39::Mnemonic::parse_normalized(ABANDON_ABOUT).unwrap().to_seed_normalized("");
    assert_eq!(seed, expected.to_vec());
    assert_eq!(m.phrase(), ABANDON_ABOUT);
}

#[test]
fn random_generator_yields_valid_phrases_of_the_word_count() {
    for n in [12usize, 15, 18, 21, 24] {
        let m = MnemonicGenerator::new(n).generate().unwrap();
        assert_eq!(m.phrase().split(' ').count(), n);
        assert!(bip39::Mnemonic::parse_normalized(m.phrase()).is_ok());
    }
    assert_eq!(MnemonicGenerator::new(13).generate().unwrap_err(), MnemonicError::BadWordCount(13));
    assert_eq!(MnemonicGenerator::new(27).generate().unwrap_err(), MnemonicError::BadWordCount(27));
}

#[test]
fn known_vectors_for_the_three_script_types() {
    let g = generator(&["m/84'/0'/0'/0/0", "m/49'/0'/0'/0/0", "m/44'/0'/0'/0/0"]);
    let m = Mnemonic::parse_normalized(ABANDON_ABOUT).unwrap();
    let addresses = g.generate(m).unwrap();
    assert_eq!(addresses.len(), 3);
    assert_eq!(addresses[0].address, "bc1qcr8te4kr609gcawutmrza0j4xv80jy8z306fyu");
    assert_eq!(addresses[1].address, "37VucYSaXLCAsxYyAPfbSi9eh4iEcbShgf");
    assert_eq!(addresses[2].address, "1LqBGSKuX5yYUonjxT5qGfpUsXKYYWeabA");
    for a in &addresses {
        assert_eq!(a.mnemonic, ABANDON_ABOUT);
    }
    assert_eq!(addresses[1].derivation_path.to_text(), "m/49'/0'/0'/0/0");
}

#[test]
fn purpose_decides_the_decoded_address_type() {
    let g = generator(&["m/84'/0'/0'/0/3", "m/49'/0'/1'/0/0", "m/44'/0'/0'/1/7"]);
    let m = MnemonicGenerator::new(24).generate().unwrap();
    let addresses = g.generate(m).unwrap();
    assert_eq!(address_type(&addresses[0].address), Some(AddressType::P2wpkh));
    assert_eq!(address_type(&addresses[1].address), Some(AddressType::P2sh));
    assert_eq!(address_type(&addresses[2].address), Some(AddressType::P2pkh));
}

#[test]
fn other_purposes_fail_with_unsupported_derivation_path() {
    let m = Mnemonic::parse_normalized(ABANDON_ABOUT).unwrap();
    for bad in ["m/45'/0'/0'/0/0", "m/84/0/0", "m", "m/86'/0'/0'/0/0"] {
        let g = generator(&["m/84'/0'/0'/0/0", bad]);
        match g.generate(m.clone()) {
            Err(DerivationError::UnsupportedDerivationPath(p)) => assert_eq!(p.to_text(), bad),
            other => panic!("unexpected {other:?}"),
        }
    }
}

#[test]
fn empty_path_set_is_refused_when_built() {
    assert!(matches!(AddressGenerator::new(vec![]), Err(DerivationError::EmptyPathSet)));
    assert_eq!(generator(&["m/84'/0'/0'/0/0"]).path_count(), 1);
}

#[test]
fn derivation_is_deterministic() {
    let g = generator(&["m/84'/0'/0'/0/0", "m/84'/0'/0'/0/1", "m/49'/0'/0'/0/0"]);
    let m = MnemonicGenerator::new(12).generate().unwrap();
    let first: Vec<String> = g.generate(m.clone()).unwrap().into_iter().map(|a| a.address).collect();
    let second: Vec<String> = g.generate(m).unwrap().into_iter().map(|a| a.address).collect();
    assert_eq!(first, second);
    assert_ne!(first[0], first[1]);
}

#[test]
fn abandon_syrup_fixture_fails_the_checksum_every_time() {
    let phrase = "abandon syrup abandon syrup abandon syrup abandon syrup abandon syrup abandon syrup";
    assert!(bip39::Mnemonic::parse_normalized(phrase).is_err());
    assert_eq!(Mnemonic::parse_normalized(phrase).unwrap_err(), MnemonicError::Invalid);
    assert_eq!(Mnemonic::parse_normalized(phrase).unwrap_err(), MnemonicError::Invalid);
}

#[test]
fn path_lists_parse_in_order_or_name_the_bad_text() {
    let raw = vec!["m/84'/0'/0'/0/0".to_string(), "m/44'/0'/0'/0/1".to_string()];
    let paths = parse_derivation_paths(&raw).unwrap();
    assert_eq!(paths.len(), 2);
    assert_eq!(paths[1].to_text(), "m/44'/0'/0'/0/1");
    let bad = vec!["m/84'/0'".to_string(), "m/oops".to_string(), "n/1".to_string()];
    assert_eq!(parse_derivation_paths(&bad).unwrap_err(), PathError::InvalidPathAt(1));
    assert!(parse_derivation_paths(&vec![]).unwrap().is_empty());
}

#[test]
fn paths_deeper_than_a_byte_fail_with_path_too_deep() {
    let m = Mnemonic::parse_normalized(ABANDON_ABOUT).unwrap();
    let deepest = format!("m/84'{}", "/0".repeat(254));
    let ok = generator(&[deepest.as_str()]).generate(m.clone()).unwrap();
    assert_eq!(address_type(&ok[0].address), Some(AddressType::P2wpkh));
    let too_deep = format!("m/84'{}", "/0".repeat(255));
    match generator(&["m/44'/0'/0'/0/0", too_deep.as_str()]).generate(m) {
        Err(DerivationError::PathTooDeep(p)) => assert_eq!(p.children().len(), 256),
        other => panic!("unexpected {other:?}"),
    }
}

#[test]
fn phrases_are_held_single_spaced() {
    let spaced = "  abandon\tabandon abandon  abandon abandon abandon\nabandon abandon abandon abandon abandon   about ";
    assert_eq!(normalize_phrase(spaced), ABANDON_ABOUT);
    assert_eq!(normalize_phrase(""), "");
    assert_eq!(normalize_phrase(" \u{3000} "), "");
    let m = Mnemonic::parse_normalized(spaced).unwrap();
    assert_eq!(m.phrase(), ABANDON_ABOUT);
    let g = generator(&["m/84'/0'/0'/0/0"]);
    let a = g.generate(m).unwrap();
    assert_eq!(a[0].mnemonic, ABANDON_ABOUT);
    assert_eq!(a[0].address, "bc1qcr8te4kr609gcawutmrza0j4xv80jy8z306fyu");
}
