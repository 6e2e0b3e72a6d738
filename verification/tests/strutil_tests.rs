use rvim::strutil::{is_white_space, parse_usize, str_eq, strip_prefix, trim, usize_to_string};

#[test]
fn trims_unicode_whitespace() {
    assert_eq!(trim("  q  "), "q");
    assert_eq!(trim("\t\u{3000}w x\u{a0}\n"), "w x");
    assert_eq!(trim("   "), "");
    assert_eq!(trim(""), "");
    for s in ["  a b ", "x", "\u{2028}y\u{85}", " \u{200b} "] {
        assert_eq!(trim(s), s.trim());
    }
}

#[test]
fn whitespace_matches_std() {
    for u in 0u32..0x3100 {
        if let Some(c) = char::from_u32(u) {
            assert_eq!(is_white_space(c), c.is_whitespace(), "{:x}", u);
        }
    }
}

#[test]
fn parses_like_std() {
    for s in ["0", "12", "+7", "007", "", "+", "-1", "1 2", "a", "18446744073709551615", "18446744073709551616", " 3"] {
        assert_eq!(parse_usize(s), s.parse::<usize>().ok(), "{:?}", s);
    }
}

#[test]
fn number_roundtrip() {
    for n in [0usize, 7, 10, 99, 100, 12345, usize::MAX] {
        let s = usize_to_string(n);
        assert_eq!(s, n.to_string());
        assert_eq!(parse_usize(&s), Some(n));
    }
}

#[test]
fn prefixes_and_equality() {
    assert_eq!(strip_prefix("w foo.txt", "w "), Some("foo.txt"));
    assert_eq!(strip_prefix("w", "w "), None);
    assert_eq!(strip_prefix("buffer 3", "buffer "), Some("3"));
    assert!(str_eq("héllo", "héllo"));
    assert!(!str_eq("a", "ab"));
}
