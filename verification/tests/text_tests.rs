use code_termination::text::{
    byte_len, char_is_whitespace, chars_of, contains_char, contains_str, decimal, parse_u32, replace,
    reversed, split_words, starts_with, string_of, trim,
};

#[test]
fn trim_removes_surrounding_whitespace() {
    assert_eq!(trim("  hi there \n"), "hi there");
    assert_eq!(trim(" \t\r\n "), "");
    assert_eq!(trim(""), "");
    assert_eq!(trim("\u{3000}x\u{a0}"), "x");
    assert_eq!(trim("x"), "x");
}

#[test]
fn trim_agrees_with_std() {
    for s in ["  a b  ", "\u{85}q\u{2028}", "\u{200b}z", "abc", "\u{1680}"] {
        assert_eq!(trim(s), s.trim());
    }
}

#[test]
fn whitespace_set_matches_std() {
    for c in ['\t', '\n', '\u{b}', '\u{c}', '\r', ' ', '\u{85}', '\u{a0}', '\u{1680}', '\u{2000}', '\u{200a}', '\u{2028}', '\u{2029}', '\u{202f}', '\u{205f}', '\u{3000}', 'a', '\u{200b}', '_'] {
        assert_eq!(char_is_whitespace(c), c.is_whitespace());
    }
}

#[test]
fn substring_search() {
    assert!(contains_str("page 404 here", "404"));
    assert!(!contains_str("40", "404"));
    assert!(contains_str("abc", ""));
    assert!(contains_char("1.2", '.'));
    assert!(!contains_char("12", ':'));
    assert!(starts_with("DIRECT (x)", "DIRECT"));
    assert!(!starts_with("DIREC", "DIRECT"));
}

#[test]
fn replace_matches_std() {
    assert_eq!(replace("a|BATTLE|BATTLE", "|BATTLE", ""), "a");
    assert_eq!(replace("aaa", "aa", "b"), "ba");
    assert_eq!(replace("DIRECT (1.2.3.4:5)", "DIRECT (", ""), "1.2.3.4:5)");
    for (s, f, t) in [("xyxyx", "yx", "Q"), ("", "a", "b"), ("abc", "c", "cc")] {
        assert_eq!(replace(s, f, t), s.replace(f, t));
    }
}

#[test]
fn reversal() {
    assert_eq!(reversed("abc"), "cba");
    assert_eq!(reversed(""), "");
    assert_eq!(reversed("héllo"), "olléh");
}

#[test]
fn decimal_text() {
    assert_eq!(decimal(0), "0");
    assert_eq!(decimal(7), "7");
    assert_eq!(decimal(1000), "1000");
    assert_eq!(decimal(4294967295), "4294967295");
}

#[test]
fn parse_unsigned() {
    assert_eq!(parse_u32("42"), Some(42));
    assert_eq!(parse_u32("+7"), Some(7));
    assert_eq!(parse_u32("0007"), Some(7));
    assert_eq!(parse_u32(""), None);
    assert_eq!(parse_u32("+"), None);
    assert_eq!(parse_u32("-1"), None);
    assert_eq!(parse_u32("-0"), None);
    assert_eq!(parse_u32("4294967295"), Some(4294967295));
    assert_eq!(parse_u32("4294967296"), None);
    assert_eq!(parse_u32("12a"), None);
    assert_eq!(parse_u32(" 1"), None);
    assert_eq!(parse_u32("1.5"), None);
    for s in ["99", "+0", "++1", "1 ", "x", "00000000000000000000001"] {
        assert_eq!(parse_u32(s), s.parse::<u32>().ok());
    }
}

#[test]
fn words_of_text() {
    assert_eq!(split_words("  STATE 1.5  2\t x "), vec!["STATE", "1.5", "2", "x"]);
    assert!(split_words(" \n ").is_empty());
    assert_eq!(split_words("JOIN"), vec!["JOIN"]);
}

#[test]
fn byte_length_counts_utf8() {
    assert_eq!(byte_len("abc"), 3);
    assert_eq!(byte_len("é"), 2);
    assert_eq!(byte_len(""), 0);
}

#[test]
fn chars_round_trip() {
    let cs = chars_of("añb");
    assert_eq!(cs, vec!['a', 'ñ', 'b']);
    assert_eq!(string_of(&cs), "añb");
}
