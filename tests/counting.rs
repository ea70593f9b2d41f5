use text_tools::count::{count_chars, count_lines, count_matches, count_words};

#[test]
fn lines_of_empty_text() {
    assert_eq!(count_lines(""), 0);
}

#[test]
fn lines_with_and_without_final_feed() {
    assert_eq!(count_lines("a\nb"), 2);
    assert_eq!(count_lines("a\nb\n"), 2);
    assert_eq!(count_lines("\n"), 1);
    assert_eq!(count_lines("a\n\nb\r\n"), 3);
}

#[test]
fn chars_all_and_one() {
    assert_eq!(count_chars("héllo", None), 5);
    assert_eq!(count_chars("hello", Some('l')), 2);
    assert_eq!(count_chars("Hello", Some('h')), 0);
    assert_eq!(count_chars("", None), 0);
}

#[test]
fn unicode_words_counted() {
    let text = "The quick (\"brown\") fox can't jump 32.3 feet, right?";
    assert_eq!(count_words(text, None), 9);
    assert_eq!(count_words("", None), 0);
}

#[test]
fn unicode_words_matched_without_case() {
    assert_eq!(count_words("Hello hello, HELLO world", Some("hello")), 3);
    assert_eq!(count_words("Hello world", Some("WORLD")), 1);
    assert_eq!(count_words("Hello world", Some("planet")), 0);
}

#[test]
fn matches_counted_exactly() {
    let ws = vec!["a".to_string(), "b".to_string(), "a".to_string()];
    assert_eq!(count_matches(&ws, &"a".to_string()), 2);
    assert_eq!(count_matches(&ws, &"A".to_string()), 0);
    assert_eq!(count_matches(&vec![], &"a".to_string()), 0);
}
