use text_tools::lines::{reverse_lines, shuffle_lines, sort_lines, split_lines};

#[test]
fn split_drops_carriage_return_before_feed() {
    assert_eq!(split_lines("a\r\nb\nc\r"), vec!["a", "b", "c\r"]);
    assert_eq!(split_lines("a\n\nb\n"), vec!["a", "", "b"]);
    assert!(split_lines("").is_empty());
}

#[test]
fn reverse_line_order() {
    assert_eq!(reverse_lines("one\ntwo\nthree"), "three\ntwo\none");
    assert_eq!(reverse_lines("one\ntwo\n"), "two\none");
}

#[test]
fn sort_line_order() {
    assert_eq!(sort_lines("pear\napple\nBanana"), "Banana\napple\npear");
}

#[test]
fn shuffle_keeps_lines() {
    let out = shuffle_lines("a\nb\nc\nd");
    let mut got: Vec<&str> = out.split('\n').collect();
    got.sort();
    assert_eq!(got, vec!["a", "b", "c", "d"]);
}
