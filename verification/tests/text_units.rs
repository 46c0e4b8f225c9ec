use mkvss::text::{parse_usize, split_str, str_eq, tokenize, trim_str};

#[test]
fn parse_usize_plain() {
    assert_eq!(parse_usize("5"), Some(5));
    assert_eq!(parse_usize("0"), Some(0));
    assert_eq!(parse_usize("123"), Some(123));
}

#[test]
fn parse_usize_plus_sign() {
    assert_eq!(parse_usize("+5"), Some(5));
    assert_eq!(parse_usize("+"), None);
    assert_eq!(parse_usize("++5"), None);
}

#[test]
fn parse_usize_rejects_junk() {
    assert_eq!(parse_usize(""), None);
    assert_eq!(parse_usize("12a"), None);
    assert_eq!(parse_usize("-1"), None);
    assert_eq!(parse_usize(" 5"), None);
}

#[test]
fn parse_usize_bounds() {
    assert_eq!(parse_usize("18446744073709551615"), Some(usize::MAX));
    assert_eq!(parse_usize("18446744073709551616"), None);
    assert_eq!(parse_usize("999999999999999999999999999999"), None);
}

#[test]
fn tokenize_collapses_blanks() {
    let toks = tokenize("  GET   /x \r\n");
    assert_eq!(toks, vec!["GET".to_string(), "/x".to_string()]);
    assert!(tokenize("   ").is_empty());
}

#[test]
fn split_keeps_empty_pieces() {
    let parts = split_str("/keys/1", '/');
    assert_eq!(parts, vec!["".to_string(), "keys".to_string(), "1".to_string()]);
    assert_eq!(split_str("", '/'), vec!["".to_string()]);
    assert_eq!(split_str("a//b", '/'), vec!["a".to_string(), "".to_string(), "b".to_string()]);
}

#[test]
fn trim_both_ends() {
    assert_eq!(trim_str("  a b\r\n"), "a b");
    assert_eq!(trim_str("x"), "x");
    assert_eq!(trim_str(" \t "), "");
}

#[test]
fn str_eq_compares_contents() {
    assert!(str_eq("keys", "keys"));
    assert!(!str_eq("keys", "key"));
}

#[test]
fn unicode_blanks_separate_and_trim() {
    let toks = tokenize("GET\u{a0}/x");
    assert_eq!(toks, vec!["GET".to_string(), "/x".to_string()]);
    assert_eq!(trim_str("\u{3000} x\u{2028}"), "x");
    assert_eq!(trim_str("\u{2009}\u{85}"), "");
}
