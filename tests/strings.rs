use text_tools::misc::{join, repeat, replace, reverse, trim};

#[test]
fn join_with_joiner() {
    let v = vec!["a".to_string(), "b".to_string(), "c".to_string()];
    assert_eq!(join(v, ", ".to_string()), "a, b, c");
    assert_eq!(join(vec!["x".to_string()], "-".to_string()), "x");
    assert_eq!(join(vec![], "-".to_string()), "");
}

#[test]
fn reverse_characters() {
    assert_eq!(reverse("abc"), "cba");
    assert_eq!(reverse("héé中"), "中ééh");
    assert_eq!(reverse(""), "");
}

#[test]
fn repeat_text() {
    assert_eq!(repeat("ab", 3), "ababab");
    assert_eq!(repeat("ab", 0), "");
}

#[test]
fn replace_matches() {
    assert_eq!(replace("one two one", "one", "1"), "1 two 1");
    assert_eq!(replace("aaa", "aa", "b"), "ba");
    assert_eq!(replace("abc", "x", "y"), "abc");
    assert_eq!(replace("ab", "", "-"), "-a-b-");
    assert_eq!(replace("", "", "-"), "-");
}

#[test]
fn trim_whitespace() {
    assert_eq!(trim("  hi there \n"), "hi there");
    assert_eq!(trim("\u{3000}x\u{3000}"), "x");
    assert_eq!(trim("   "), "");
}
