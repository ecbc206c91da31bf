use sticky_one::text::{collapse_whitespace, contains_text, is_whitespace, join_path, push_decimal, to_hex_lower, trim_whitespace};

#[test]
fn whitespace_set() {
    for c in [' ', '\t', '\n', '\r', '\u{0b}', '\u{0c}', '\u{85}', '\u{a0}', '\u{2003}', '\u{3000}'] {
        assert_eq!(collapse_whitespace(&format!("a{c}b")), "a b");
        assert_eq!(trim_whitespace(&format!("{c}x{c}")), "x");
    }
    for c in ['a', '0', '_', '\u{200b}'] {
        assert_eq!(collapse_whitespace(&format!("a{c}b")), format!("a{c}b"));
    }
}

#[test]
fn collapse_runs() {
    assert_eq!(collapse_whitespace("  a \u{a0} b\n\nc  "), "a b c");
    assert_eq!(collapse_whitespace(""), "");
    assert_eq!(collapse_whitespace("   "), "");
}

#[test]
fn substring_search() {
    assert!(contains_text("foo bar baz", "bar"));
    assert!(contains_text("foo", ""));
    assert!(!contains_text("foo", "Foo"));
    assert!(!contains_text("ba", "bar"));
    assert!(contains_text("ééa", "éa"));
}

#[test]
fn trimming() {
    assert_eq!(trim_whitespace("  x y \n"), "x y");
    assert_eq!(trim_whitespace(" \t "), "");
    assert_eq!(trim_whitespace("x"), "x");
}

#[test]
fn decimal_and_hex() {
    let mut s = String::from("n=");
    push_decimal(&mut s, 0);
    assert_eq!(s, "n=0");
    let mut s = String::new();
    push_decimal(&mut s, 1234567);
    assert_eq!(s, "1234567");
    assert_eq!(to_hex_lower(&[0x00, 0x0f, 0xab, 0xff]), "000fabff");
}

#[test]
fn path_joining() {
    assert_eq!(join_path("/home/u/.local/share/sticky_one", "clipboard.db"), "/home/u/.local/share/sticky_one/clipboard.db");
    assert_eq!(join_path("/tmp/", "x"), "/tmp/x");
    assert_eq!(join_path("", "x"), "x");
}

#[test]
fn whitespace_agrees_with_std() {
    for u in 0u32..0x3100 {
        if let Some(c) = char::from_u32(u) {
            assert_eq!(is_whitespace(c), c.is_whitespace(), "U+{u:04X}");
        }
    }
    for c in ['\u{feff}', '\u{1f600}', '\u{10ffff}'] {
        assert_eq!(is_whitespace(c), c.is_whitespace());
    }
}
