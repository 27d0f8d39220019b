use ranami_wallpapers::text::{
    chars_of, decimal_string, equal_strs, is_blank_chars, is_whitespace_char, parse_unsigned_chars,
    push_hex, trim_chars,
};

fn string_from_chars(v: &[char]) -> String {
    v.iter().collect()
}

#[test]
fn whitespace_matches_std() {
    for code in 0u32..0x3100 {
        if let Some(c) = char::from_u32(code) {
            assert_eq!(is_whitespace_char(c), c.is_whitespace(), "code {code:#x}");
        }
    }
}

#[test]
fn trim_matches_std() {
    for s in ["", "  ", " a ", "\u{3000}nan\u{a0}", "a b", "\t\nx\r\n", "x"] {
        let t = trim_chars(&chars_of(s));
        assert_eq!(string_from_chars(&t), s.trim());
        assert_eq!(is_blank_chars(&chars_of(s)), s.trim().is_empty());
    }
}

#[test]
fn decimal_and_hex_text() {
    assert_eq!(decimal_string(0), "0");
    assert_eq!(decimal_string(7), "7");
    assert_eq!(decimal_string(1234567890), "1234567890");
    assert_eq!(decimal_string(u64::MAX), u64::MAX.to_string());
    let mut v: Vec<char> = Vec::new();
    push_hex(&mut v, 0xcbf29ce484222325, 16);
    assert_eq!(string_from_chars(&v), "cbf29ce484222325");
    let mut w: Vec<char> = vec!['x'];
    push_hex(&mut w, 0xab, 4);
    assert_eq!(string_from_chars(&w), "x00ab");
}

#[test]
fn unsigned_parsing_matches_from_str_radix() {
    let cases = [
        "", "+", "0", "+7", "-1", "12a", "4294967295", "4294967296", "007", " 1", "18446744073709551615",
        "18446744073709551616",
    ];
    for s in cases {
        let c = chars_of(s);
        assert_eq!(parse_unsigned_chars(&c, u32::MAX as u64), u32::from_str_radix(s, 10).ok().map(u64::from), "{s}");
        assert_eq!(parse_unsigned_chars(&c, u64::MAX), u64::from_str_radix(s, 10).ok(), "{s}");
    }
}

#[test]
fn string_equality() {
    assert!(equal_strs("nan", "nan"));
    assert!(!equal_strs("nan", "NaN"));
    assert!(!equal_strs("a", "ab"));
    assert!(equal_strs("", ""));
}
