use clipboard_history::fuzzy_search::{
    fuzzy_match, fuzzy_match_chars, fuzzy_match_lowered, to_pinyin_full, to_pinyin_initials,
};

#[test]
fn test_fuzzy_match() {
    // 工作 reads "gong zuo": its initials are "gz", its full key "gongzuo".
    // Neither "gx" nor "work" occurs in any key or in order in the text.
    assert!(!fuzzy_match("gx", "工作"));
    assert!(fuzzy_match("gongzuo", "工作"));
    assert!(!fuzzy_match("work", "工作"));
}

#[test]
fn initials_of_native_text() {
    assert_eq!(to_pinyin_initials("工作"), "gz");
    assert_eq!(to_pinyin_initials("工学"), "gx");
}

#[test]
fn initials_pass_latin_through() {
    assert_eq!(to_pinyin_initials("ab工"), "abg");
    assert_eq!(to_pinyin_initials(""), "");
}

#[test]
fn full_transliteration() {
    assert_eq!(to_pinyin_full("工作"), "gongzuo");
    assert_eq!(to_pinyin_full("a工b"), "gong");
    assert_eq!(to_pinyin_full("abc"), "");
}

#[test]
fn initials_tier_matches() {
    assert!(fuzzy_match("gx", "工学"));
    assert!(fuzzy_match("gz", "今天的工作"));
}

#[test]
fn full_tier_matches() {
    assert!(fuzzy_match("zuo", "工作"));
}

#[test]
fn exact_tier_is_case_insensitive() {
    assert!(fuzzy_match("HELLO", "say hello"));
    assert!(fuzzy_match("hello", "Say HELLO there"));
}

#[test]
fn skip_tier_matches_in_order_only() {
    assert!(fuzzy_match("hlo", "hello"));
    assert!(!fuzzy_match("olh", "hello"));
}

#[test]
fn empty_query_matches_everything() {
    assert!(fuzzy_match("", "anything"));
    assert!(fuzzy_match("", ""));
}

#[test]
fn no_match() {
    assert!(!fuzzy_match("xyz", "hello"));
    assert!(!fuzzy_match("a", ""));
}

#[test]
fn char_skip_matching() {
    assert!(fuzzy_match_chars("ac", "abc"));
    assert!(!fuzzy_match_chars("ca", "abc"));
    assert!(fuzzy_match_chars("", ""));
    assert!(!fuzzy_match_chars("A", "abc"));
}

#[test]
fn lowered_tiers() {
    assert!(fuzzy_match_lowered("ac", "abc"));
    assert!(fuzzy_match_lowered("bc", "abc"));
    assert!(!fuzzy_match_lowered("cb", "abc"));
}
