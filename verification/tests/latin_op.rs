use exercises::latin_op::{folder, pigify, pigify_bk, pigify_one};

#[test]
fn word_that_starts_with_a_vowel() {
    assert_eq!(pigify_one("apple"), "apple-hay");
    assert_eq!(pigify_one("up"), "up-hay");
    assert_eq!(pigify_one("i"), "i-hay");
    assert_eq!(pigify_one("earth"), "earth-hay");
    assert_eq!(pigify_one("own"), "own-hay");
}

#[test]
fn word_that_starts_with_another_character() {
    assert_eq!(pigify_one("first"), "irst-fay");
    assert_eq!(pigify_one("frid"), "rid-fay");
    assert_eq!(pigify_one("x"), "-xay");
    assert_eq!(pigify_one("Apple"), "pple-Aay");
    assert_eq!(pigify_one("été"), "té-éay");
    assert_eq!(pigify_one("1st"), "st-1ay");
}

#[test]
fn empty_word_stays_empty() {
    assert_eq!(pigify_one(""), "");
}

#[test]
fn folder_joins_with_a_space() {
    assert_eq!(folder(String::from("a"), String::from("b")), "a b");
    assert_eq!(folder(String::new(), String::from("b")), "b");
    assert_eq!(folder(String::from("a"), String::new()), "a ");
    assert_eq!(folder(String::new(), String::new()), "");
}

#[test]
fn pigify_sample_sentence() {
    assert_eq!(
        pigify("frid app up down earth own"),
        "rid-fay app-hay up-hay own-day earth-hay own-hay"
    );
}

#[test]
fn pigify_drops_surrounding_white_space() {
    assert_eq!(pigify("  first \t\n apple  "), "irst-fay apple-hay");
    assert_eq!(pigify("first\u{3000}apple"), "irst-fay apple-hay");
}

#[test]
fn pigify_of_nothing() {
    assert_eq!(pigify(""), "");
    assert_eq!(pigify(" \t\n"), "");
}

#[test]
fn pigify_of_one_word() {
    assert_eq!(pigify("first"), "irst-fay");
}

#[test]
fn pigify_bk_puts_a_space_after_each_word() {
    assert_eq!(
        pigify_bk("frid app up down earth own"),
        "rid-fay app-hay up-hay own-day earth-hay own-hay "
    );
    assert_eq!(pigify_bk("first"), "irst-fay ");
    assert_eq!(pigify_bk("  first   apple "), "irst-fay apple-hay ");
}

#[test]
fn pigify_bk_of_nothing() {
    assert_eq!(pigify_bk(""), "");
    assert_eq!(pigify_bk("   "), "");
}

#[test]
fn pigify_is_pigify_bk_without_the_last_space() {
    for text in ["", "a", "hello world", "  the quick\tbrown fox "] {
        let spaced = pigify_bk(text);
        assert_eq!(pigify(text), spaced.trim_end_matches(' '));
    }
}
