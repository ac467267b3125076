use phonics::utils;

#[test]
fn strip_first_char_works() {
    assert_eq!(utils::strip_first_char("Hilbert"), "ilbert");
    assert_eq!(utils::strip_first_char("H"), "");
    assert_eq!(utils::strip_first_char(""), "");
}

#[test]
fn remove_duplicate_characters_works() {
    assert_eq!(
        utils::remove_duplicate_characters("abracadabra"),
        "abracadabra"
    );
    assert_eq!(utils::remove_duplicate_characters("bananna"), "banana");
    assert_eq!(utils::remove_duplicate_characters("baaaaa"), "ba");
    assert_eq!(utils::remove_duplicate_characters("baaaaab"), "bab");
    assert_eq!(utils::remove_duplicate_characters("baaaaabbbbbbb"), "bab");
    assert_eq!(utils::remove_duplicate_characters("H"), "H");
    assert_eq!(utils::remove_duplicate_characters(""), "");
}

#[test]
fn transform_characters() {
    assert_eq!(
        utils::transform_characters("abracadabra", "ab", "1"),
        "11r1c1d11r1"
    );
    assert_eq!(utils::transform_characters("bananna", "n", "2"), "ba2a22a");
    assert_eq!(utils::transform_characters("baaaaa", "a", "T"), "bTTTTT");
    assert_eq!(utils::transform_characters("H", "H", "5"), "5");
    assert_eq!(utils::transform_characters("H", "F", "5"), "H");
    assert_eq!(utils::transform_characters("", "H", "5"), "");
}
