use cantrip::text::{
    decimal_string, radix_string, same_chars, split_once, trim_end_slashes, trim_white_space,
};

#[test]
fn trims_trailing_slashes() {
    assert_eq!(trim_end_slashes("https://x.io///"), "https://x.io");
    assert_eq!(trim_end_slashes("https://x.io"), "https://x.io");
    assert_eq!(trim_end_slashes("///"), "");
    assert_eq!(trim_end_slashes("/a/b/"), "/a/b");
    assert_eq!(trim_end_slashes(&trim_end_slashes("a//")), "a");
}

#[test]
fn trims_white_space_like_std() {
    for s in ["  key  ", "\tkey\n", "key", "", "   ", "\u{a0}k e y\u{3000}", "\u{85}x\u{2028}"] {
        assert_eq!(trim_white_space(s), s.trim());
    }
}

#[test]
fn numerals() {
    assert_eq!(decimal_string(0), "0");
    assert_eq!(decimal_string(7), "7");
    assert_eq!(decimal_string(10), "10");
    assert_eq!(decimal_string(u64::MAX), u64::MAX.to_string());
    assert_eq!(radix_string(0o644, 8), "644");
    assert_eq!(radix_string(0o600, 8), "600");
    assert_eq!(radix_string(255, 16), "ff");
    assert_eq!(radix_string(5, 2), "101");
}

#[test]
fn splits_at_first_character() {
    assert_eq!(split_once("k=v", '='), Some(("k".to_string(), "v".to_string())));
    assert_eq!(split_once("k=v=w", '='), Some(("k".to_string(), "v=w".to_string())));
    assert_eq!(split_once("=", '='), Some((String::new(), String::new())));
    assert_eq!(split_once("kv", '='), None);
    assert_eq!(split_once("é=ü", '='), Some(("é".to_string(), "ü".to_string())));
}

#[test]
fn compares_characters() {
    assert!(same_chars("abc", "abc"));
    assert!(!same_chars("abc", "abd"));
    assert!(!same_chars("ab", "abc"));
    assert!(same_chars("", ""));
}
