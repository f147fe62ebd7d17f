use exercises::text::{is_whitespace_char, split_whitespace, trim};

#[test]
fn white_space_is_what_the_standard_library_says() {
    for code in 0..=0x10FFFFu32 {
        if let Some(c) = char::from_u32(code) {
            assert_eq!(is_whitespace_char(c), c.is_whitespace(), "U+{:04X}", code);
        }
    }
}

#[test]
fn some_white_space_characters() {
    for c in [' ', '\t', '\n', '\r', '\u{0B}', '\u{0C}', '\u{85}', '\u{A0}', '\u{2003}', '\u{3000}'] {
        assert!(is_whitespace_char(c));
    }
    for c in ['a', '0', '-', '\0', '\u{1B}', '\u{200B}', '\u{180E}', '越'] {
        assert!(!is_whitespace_char(c));
    }
}

#[test]
fn split_gives_the_words_in_order() {
    assert_eq!(split_whitespace("frid app up"), vec!["frid", "app", "up"]);
    assert_eq!(split_whitespace("  a  b\t\tc\n"), vec!["a", "b", "c"]);
    assert_eq!(split_whitespace("one"), vec!["one"]);
    assert_eq!(split_whitespace("tab\tseparated"), vec!["tab", "separated"]);
}

#[test]
fn split_of_nothing_is_empty() {
    assert!(split_whitespace("").is_empty());
    assert!(split_whitespace(" \n\t ").is_empty());
}

#[test]
fn split_agrees_with_the_standard_library() {
    for text in [
        "",
        " ",
        "a",
        " a",
        "a ",
        "a b",
        "a  b",
        "\u{3000}全角\u{3000}スペース\u{3000}",
        "Mary   had\ta\u{2009}little  \n lamb",
        "no-break\u{A0}space",
        "zero\u{200B}width",
    ] {
        let expected: Vec<&str> = text.split_whitespace().collect();
        assert_eq!(split_whitespace(text), expected);
    }
}

#[test]
fn trim_drops_white_space_at_both_ends() {
    assert_eq!(trim("  42\n"), "42");
    assert_eq!(trim("42"), "42");
    assert_eq!(trim("\t a b \r\n"), "a b");
    assert_eq!(trim("x "), "x");
    assert_eq!(trim(" x"), "x");
}

#[test]
fn trim_of_white_space_is_empty() {
    assert_eq!(trim(""), "");
    assert_eq!(trim(" "), "");
    assert_eq!(trim(" \t\n\u{3000}"), "");
}

#[test]
fn trim_agrees_with_the_standard_library() {
    for text in [
        "",
        " ",
        "a",
        " a",
        "a ",
        " a b ",
        "\u{3000}全角\u{3000}スペース\u{3000}",
        "\n\n7\n",
        "\u{200B} x \u{200B}",
        "\u{A0}x\u{85}",
    ] {
        assert_eq!(trim(text), text.trim());
    }
}
