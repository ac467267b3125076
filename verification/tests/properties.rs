use phonics::{Lein, PhonicsEncoder, PhonicsError};

#[test]
fn encode_is_case_insensitive() {
    let e = Lein::new();

    let lower = e.encode("euler").unwrap();
    let upper = e.encode("EULER").unwrap();
    let mixed = e.encode("Euler").unwrap();
    assert_eq!(lower, "E330");
    assert_eq!(lower, upper);
    assert_eq!(lower, mixed);
}

#[test]
fn encode_is_deterministic() {
    let e = Lein::new();

    assert_eq!(e.encode("Hilbert").unwrap(), e.encode("Hilbert").unwrap());
    assert_eq!(e.encode("12345").unwrap(), e.encode("12345").unwrap());
}

#[test]
fn empty_normalization_gives_empty_code() {
    let mut e = Lein::new();

    assert_eq!(e.encode("").unwrap(), "");
    assert_eq!(e.encode("12345").unwrap(), "");
    assert_eq!(e.encode(".- !?").unwrap(), "");

    // In clean mode only an input with no unknown character at all can reach
    // the empty-code path.
    e.clean = true;
    assert_eq!(e.encode("").unwrap(), "");
    assert!(e.encode("12345").is_err());
}

#[test]
fn code_length_matches_configuration() {
    let mut e = Lein::new();

    e.max_code_len = 1;
    assert_eq!(e.encode("Euler").unwrap(), "E");
    e.max_code_len = 2;
    assert_eq!(e.encode("Euler").unwrap(), "E3");
    e.max_code_len = 10;
    assert_eq!(e.encode("Hilbert").unwrap(), "H343100000");
    for len in 1usize..12 {
        e.max_code_len = len;
        assert_eq!(e.encode("Lukasiewicz").unwrap().chars().count(), len);
    }
}

#[test]
fn unknown_characters_error_variant() {
    let mut e = Lein::new();

    e.clean = true;
    let err = e.encode("Euler3.1415").unwrap_err();
    assert!(matches!(err, PhonicsError::UnknownCharactersFound));
    let err = e.encode("garçon").unwrap_err();
    assert!(matches!(err, PhonicsError::UnknownCharactersFound));
}

#[test]
fn first_letter_is_preserved_verbatim() {
    let e = Lein::new();

    // The first letter is kept even when it is a vowel or semivowel ...
    assert_eq!(e.encode("Aaron").unwrap(), "A320");
    assert_eq!(e.encode("Howard").unwrap(), "H310");
    // ... and it is never mapped to a digit class.
    assert_eq!(e.encode("Tate").unwrap(), "T100");
}

#[test]
fn duplicates_collapse_only_when_adjacent_after_deletion() {
    let e = Lein::new();

    // "Ladd": the adjacent DD collapses to a single D, giving one '1'.
    assert_eq!(e.encode("Ladd").unwrap(), "L100");
    // "Lbeb": the two Bs become adjacent only once the vowel between them
    // is deleted, and then they collapse to a single '4'.
    assert_eq!(e.encode("Lbeb").unwrap(), "L400");
    // "Lbrb": the two Bs stay separated by R after deletion, so both are
    // kept.
    assert_eq!(e.encode("Lbrb").unwrap(), "L434");
}
