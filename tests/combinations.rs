use foogold::combination::repeat_phrase;
use foogold::{check_combination_size, combination_mnemonics, CombinationError, Mnemonic};

#[test]
fn only_sizes_one_and_two_are_supported() {
    assert_eq!(check_combination_size(1), Ok(()));
    assert_eq!(check_combination_size(2), Ok(()));
    assert_eq!(check_combination_size(0), Err(CombinationError::UnsupportedCombinationSize(0)));
    assert_eq!(check_combination_size(3), Err(CombinationError::UnsupportedCombinationSize(3)));
}

#[test]
fn single_word_sweep_keeps_only_valid_repetitions() {
    let sweep = combination_mnemonics(1, 12);
    assert_eq!(sweep.mnemonics.len() + sweep.discarded, 2048);
    assert!(!sweep.mnemonics.is_empty());
    assert!(sweep.discarded > 0);
    for m in &sweep.mnemonics {
        let words: Vec<&str> = m.phrase().split(' ').collect();
        assert_eq!(words.len(), 12);
        assert!(words.iter().all(|w| *w == words[0]));
        assert!(bip39::Mnemonic::parse_normalized(m.phrase()).is_ok());
    }
    let abandon = vec!["abandon"; 12].join(" ");
    assert!(sweep.mnemonics.iter().all(|m| m.phrase() != abandon));
    let words = bip39::Language::English.word_list();
    let accepted = words
        .iter()
        .filter(|w| bip39::Mnemonic::parse_normalized(&vec![**w; 12].join(" ")).is_ok())
        .count();
    assert_eq!(sweep.mnemonics.len(), accepted);
}

#[test]
fn pair_phrase_alternates_two_words_six_times() {
    let phrase = repeat_phrase(&vec!["abandon", "syrup"], 6);
    assert_eq!(phrase, "abandon syrup abandon syrup abandon syrup abandon syrup abandon syrup abandon syrup");
    let words: Vec<&str> = phrase.split(' ').collect();
    assert_eq!(words.len(), 12);
    for (i, w) in words.iter().enumerate() {
        assert_eq!(*w, if i % 2 == 0 { "abandon" } else { "syrup" });
    }
    assert_eq!(repeat_phrase(&vec!["zoo"], 0), "");
    assert_eq!(repeat_phrase(&vec!["zoo"], 1), "zoo");
}

#[test]
fn invalid_pair_phrase_is_not_a_mnemonic() {
    let phrase = repeat_phrase(&vec!["abandon", "ability"], 6);
    let ours = Mnemonic::parse_normalized(&phrase).is_ok();
    let theirs = bip39::Mnemonic::parse_normalized(&phrase).is_ok();
    assert_eq!(ours, theirs);
}
