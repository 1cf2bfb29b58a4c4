use sketchroom::word::{InvalidWordError, Word};

#[test]
fn reveal_init() {
    let word = Word::new("hey").unwrap();
    let got = word.letters();
    let want = vec![None, None, None];

    assert_eq!(got, want);
}

#[test]
fn reveal_some() {
    let mut word = Word::new("hey").unwrap();
    word.disclose(1);
    let got = word.letters();
    let want = vec![Some('h'), None, None];

    assert_eq!(got, want);
}

#[test]
fn reveal_more() {
    let mut word = Word::new("hey").unwrap();
    word.disclose(3);
    let got = word.letters();
    let want = vec![Some('h'), Some('e'), Some('y')];

    assert_eq!(got, want);
}

#[test]
fn empty_word_is_rejected() {
    match Word::new("") {
        Err(e) => assert_eq!(e, InvalidWordError),
        Ok(_) => panic!("an empty secret must be rejected"),
    }
}

#[test]
fn disclose_past_the_end_stops_at_the_length() {
    let mut word = Word::new("hey").unwrap();
    word.disclose(7);
    assert_eq!(word.revealed_len(), 3);
    assert_eq!(word.letters(), vec![Some('h'), Some('e'), Some('y')]);
}

#[test]
fn disclose_sums_across_calls_and_never_backtracks() {
    let mut word = Word::new("lighthouse").unwrap();
    assert_eq!(word.revealed_len(), 0);
    word.disclose(2);
    assert_eq!(word.revealed_len(), 2);
    assert_eq!(
        word.letters(),
        vec![Some('l'), Some('i'), None, None, None, None, None, None, None, None]
    );
    word.disclose(0);
    assert_eq!(word.revealed_len(), 2);
    word.disclose(-5);
    assert_eq!(word.revealed_len(), 2);
    word.disclose(3);
    assert_eq!(word.revealed_len(), 5);
    assert_eq!(
        word.letters(),
        vec![
            Some('l'),
            Some('i'),
            Some('g'),
            Some('h'),
            Some('t'),
            None,
            None,
            None,
            None,
            None
        ]
    );
    word.disclose(100);
    assert_eq!(word.revealed_len(), 10);
}

#[test]
fn matches_is_exact_and_case_sensitive() {
    let word = Word::new("hey").unwrap();
    assert!(word.matches("hey"));
    assert!(!word.matches("Hey"));
    assert!(!word.matches("he"));
    assert!(!word.matches(""));
}

#[test]
fn secret_len_counts_characters() {
    let word = Word::new("hey").unwrap();
    assert_eq!(word.secret_len(), 3);
}
