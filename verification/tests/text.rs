use opencode_gtk::text::{chars_of, find, is_blank, is_whitespace, push_decimal, str_eq, string_of, trim};

#[test]
fn trim_removes_surrounding_whitespace() {
    assert_eq!(trim("  hi there \n"), "hi there");
    assert_eq!(trim("no-space"), "no-space");
    assert_eq!(trim(""), "");
    assert_eq!(trim(" \t "), "");
}

#[test]
fn trim_uses_unicode_whitespace() {
    assert_eq!(trim("\u{3000}x y\u{a0}\u{2028}"), "x y");
    assert_eq!(trim("\u{200b}x"), "\u{200b}x");
    for c in ['\t', '\n', '\u{b}', '\u{c}', '\r', ' ', '\u{85}', '\u{a0}', '\u{1680}', '\u{2000}', '\u{200a}', '\u{2028}', '\u{2029}', '\u{202f}', '\u{205f}', '\u{3000}'] {
        assert!(is_whitespace(c));
        assert_eq!(is_whitespace(c), c.is_whitespace());
    }
    for c in ['a', '\u{200b}', '\u{180e}', '_', '\u{0}'] {
        assert!(!is_whitespace(c));
        assert_eq!(is_whitespace(c), c.is_whitespace());
    }
}

#[test]
fn blank_means_trim_is_empty() {
    for s in ["", " ", "\t\n", " a ", "\u{3000}", "x"] {
        assert_eq!(is_blank(s), s.trim().is_empty());
        assert_eq!(is_blank(s), trim(s).is_empty());
    }
}

#[test]
fn find_gives_first_occurrence() {
    let s = chars_of("abcabc");
    assert_eq!(find(&s, &chars_of("bc")), Some(1));
    assert_eq!(find(&s, &chars_of("cb")), None);
    assert_eq!(find(&s, &chars_of("")), Some(0));
    assert_eq!(find(&chars_of(""), &chars_of("a")), None);
}

#[test]
fn decimal_matches_display() {
    for n in [0u64, 7, 10, 99, 100, 1234567890123, u64::MAX] {
        let mut s = String::from("n=");
        push_decimal(&mut s, n);
        assert_eq!(s, format!("n={}", n));
    }
}

#[test]
fn strings_and_chars_round_trip() {
    let v = chars_of("héllo");
    assert_eq!(v, vec!['h', 'é', 'l', 'l', 'o']);
    assert_eq!(string_of(&v), "héllo");
    assert!(str_eq("abc", "abc"));
    assert!(!str_eq("abc", "abd"));
    assert!(!str_eq("abc", "ab"));
}
