use nostr_gateway::text::{
    chars, contains_char, contains_text, decimal_text, fits_in, is_text, parse_i64, parse_u64,
    pieces, same, same_ignoring_case, split_words, text_before, trim_end_matches, trimmed,
};

#[test]
fn texts_are_compared() {
    assert!(same("", "") && same("é", "é"));
    assert!(!same("a", "b") && !same("a", "aa") && !same("é", "e"));
    assert!(same_ignoring_case("AbZ-[", "aBz-["));
    assert!(!same_ignoring_case("@", "`"));
    assert!(!same_ignoring_case("É", "é"));
    assert!(!same_ignoring_case("a", "aa"));
    assert!(is_text(Some("a"), "a") && !is_text(Some("a"), "b") && !is_text(None, ""));
    assert_eq!(chars("aé"), ['a', 'é']);
}

#[test]
fn texts_are_taken_apart() {
    for text in ["", ",", "a", "a,b", ",a,,b,", "é,ü"] {
        assert_eq!(pieces(text, ','), text.split(',').collect::<Vec<_>>(), "{text}");
        assert_eq!(text_before(text, ','), text.split(',').next().unwrap());
        assert_eq!(trim_end_matches(text, ','), text.trim_end_matches(','));
    }
    for text in ["", " ", "a", " a  b\tc\n", "\u{a0}x\u{3000}y\u{200b}z", "\u{1680}\u{2007}\u{85}"] {
        assert_eq!(split_words(text), text.split_whitespace().collect::<Vec<_>>(), "{text}");
        assert_eq!(trimmed(text), text.trim(), "{text}");
    }
}

#[test]
fn white_space_is_that_of_the_standard_library() {
    for code in 0..=0x10ffff_u32 {
        if let Some(c) = char::from_u32(code) {
            assert_eq!(nostr_gateway::text::white(c), c.is_whitespace(), "{code:x}");
        }
    }
}

#[test]
fn texts_are_searched() {
    assert!(contains_text("https://x", "://") && contains_text("", "") && contains_text("a", ""));
    assert!(!contains_text("a:/b", "://") && !contains_text("", "a"));
    assert!(contains_text("aab", "ab"));
    assert!(contains_char("a/b", '/') && !contains_char("ab", '/'));
    assert!(fits_in("é", 2) && !fits_in("é", 1) && fits_in("", 0));
}

#[test]
fn numbers_are_read_as_the_standard_library_does() {
    for text in [
        "", "0", "00", "7", "+7", "-7", "+", "-", "--1", "+-1", "1a", " 1", "1 ", "٣",
        "18446744073709551615", "18446744073709551616", "9223372036854775807",
        "9223372036854775808", "-9223372036854775808", "-9223372036854775809", "-0",
        "000000000000000000000000000001", "99999999999999999999999",
    ] {
        assert_eq!(parse_u64(text), text.parse::<u64>().ok(), "{text}");
        assert_eq!(parse_i64(text), text.parse::<i64>().ok(), "{text}");
    }
}

#[test]
fn numbers_are_written_in_decimal() {
    for n in [0, 1, 9, 10, 99, 100, 1234567890, usize::MAX] {
        assert_eq!(decimal_text(n), n.to_string());
    }
}
