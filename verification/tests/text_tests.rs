use account_bridge::decimal::{parse_usize, to_decimal};
use account_bridge::lines::position_of_crlf;
use account_bridge::text::{
    eq_ignore_ascii_case, from_chars, next_word, position_of, same_text, skip_white_space,
    starts_with, to_ascii_lower, to_chars, trim, white_space,
};
use account_bridge::text_map::TextMap;

fn chars(s: &str) -> Vec<char> {
    s.chars().collect()
}

fn text(s: &[char]) -> String {
    s.iter().collect()
}

#[test]
fn white_space_is_that_of_the_standard_library() {
    for n in 0..=0x10ffffu32 {
        if let Some(c) = char::from_u32(n) {
            assert_eq!(white_space(c), c.is_whitespace(), "U+{:04X}", n);
        }
    }
}

#[test]
fn characters_there_and_back() {
    for s in ["", "abc", "a\u{e9}\u{4e2d}\u{1f600}z"] {
        assert_eq!(to_chars(s), chars(s));
        assert_eq!(from_chars(&chars(s)), s);
    }
}

#[test]
fn trimming_cuts_both_ends_only() {
    for s in ["", " ", "\t a b \u{a0}\r\n", "x", "\u{3000}y z", "y\u{2003}"] {
        assert_eq!(text(trim(&chars(s))), s.trim());
        assert_eq!(text(skip_white_space(&chars(s))), s.trim_start());
        let once = text(trim(&chars(s)));
        assert_eq!(text(trim(&chars(&once))), once);
    }
}

#[test]
fn positions() {
    assert_eq!(position_of(&chars("a:b:c"), ':'), 1);
    assert_eq!(position_of(&chars("abc"), ':'), 3);
    assert_eq!(position_of_crlf(&chars("ab\r\ncd\r\n")), 2);
    assert_eq!(position_of_crlf(&chars("a\r\r\n")), 2);
    assert_eq!(position_of_crlf(&chars("a\n\rb")), 4);
    assert_eq!(position_of_crlf(&chars("\r")), 1);
}

#[test]
fn words_are_those_of_the_standard_library() {
    for s in ["", "   ", "GET /x HTTP/1.1", "  a\u{2003}b ", "one"] {
        let all = chars(s);
        let mut rest: &[char] = &all;
        let mut found = Vec::new();
        while let Some((word, after)) = next_word(rest) {
            found.push(text(word));
            rest = after;
        }
        let expected: Vec<String> = s.split_whitespace().map(|w| w.to_string()).collect();
        assert_eq!(found, expected);
    }
}

#[test]
fn lower_case_of_ascii_letters_only() {
    assert_eq!(to_ascii_lower(&chars("Content-LENGTH \u{c4}Z@[")), "content-length \u{c4}z@[");
    assert!(eq_ignore_ascii_case("User@Example.COM", "uSER@example.com"));
    assert!(!eq_ignore_ascii_case("\u{c4}", "\u{e4}"));
    assert!(!eq_ignore_ascii_case("ab", "abc"));
}

#[test]
fn prefixes_and_equality() {
    assert!(starts_with("auth1_x", "auth1_"));
    assert!(starts_with("auth1_", "auth1_"));
    assert!(!starts_with("auth1", "auth1_"));
    assert!(!starts_with("xauth1_", "auth1_"));
    assert!(same_text("", ""));
    assert!(same_text("GET", "GET"));
    assert!(!same_text("GET", "get"));
}

#[test]
fn numbers_are_read_like_the_standard_library_reads_them() {
    for s in [
        "", "0", "7", "+7", "++7", "-7", "-0", "+", "007", "12a", " 1", "18446744073709551615",
        "18446744073709551616", "99999999999999999999999999", "00000000000000000000000000000001",
        "\u{661}",
    ] {
        assert_eq!(parse_usize(&chars(s)), s.parse::<usize>().ok(), "{:?}", s);
    }
}

#[test]
fn numbers_that_are_written_are_read_back() {
    for n in [0, 9, 10, 120, 65536, usize::MAX] {
        assert_eq!(to_decimal(n), n.to_string());
        assert_eq!(parse_usize(&chars(&to_decimal(n))), Some(n));
    }
}

#[test]
fn a_map_keeps_the_last_value_of_a_key() {
    let mut map: TextMap<String> = TextMap::new();
    assert!(map.get("a").is_none());
    map.insert("a".to_string(), "1".to_string());
    map.insert("b".to_string(), "2".to_string());
    map.insert("a".to_string(), "3".to_string());
    assert_eq!(map.get("a").unwrap(), "3");
    assert_eq!(map.get("b").unwrap(), "2");
    assert!(map.get("A").is_none());
}
