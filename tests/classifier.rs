use text_tools::count_words::{count_words, is_cjk_other, WordsCount};

fn words(r: &WordsCount) -> Vec<&str> {
    r.words.iter().map(|w| w.as_str()).collect()
}

#[test]
fn empty_input_counts_nothing() {
    let r = count_words("");
    assert!(r.words.is_empty());
    assert_eq!(r.characters, 0);
    assert_eq!(r.whitespaces, 0);
    assert_eq!(r.cjk, 0);
    assert_eq!(r, WordsCount::default());
}

#[test]
fn two_words_one_space() {
    let r = count_words("hello world");
    assert_eq!(words(&r), vec!["hello ", "world"]);
    assert_eq!(r.characters, 11);
    assert_eq!(r.whitespaces, 1);
    assert_eq!(r.cjk, 0);
}

#[test]
fn double_dash_breaks_word() {
    let r = count_words("hello--world");
    assert_eq!(words(&r), vec!["hello--", "world"]);
    assert_eq!(r.characters, 12);
    assert_eq!(r.whitespaces, 0);
    assert_eq!(r.cjk, 0);
}

#[test]
fn single_dash_stays_in_word() {
    let r = count_words("well-known fact");
    assert_eq!(words(&r), vec!["well-known ", "fact"]);
}

#[test]
fn third_dash_opens_new_word() {
    let r = count_words("a---b");
    assert_eq!(words(&r), vec!["a--", "-b"]);
    assert_eq!(r.characters, 5);
}

#[test]
fn ideographs_are_counted_apart() {
    let r = count_words("一二三");
    assert!(r.words.is_empty());
    assert_eq!(r.cjk, 3);
    assert_eq!(r.characters, 3);
    assert_eq!(r.whitespaces, 0);
}

#[test]
fn ideograph_ends_open_word() {
    let r = count_words("ab你cd");
    assert_eq!(words(&r), vec!["ab", "cd"]);
    assert_eq!(r.cjk, 1);
    assert_eq!(r.characters, 5);
}

#[test]
fn cjk_punctuation_clears_word() {
    let r = count_words("foo、bar");
    assert_eq!(words(&r), vec!["bar"]);
    assert_eq!(r.cjk, 1);
    assert_eq!(r.characters, 7);
    assert!(r.words.iter().all(|w| !w.is_empty() && !w.contains('、')));
}

#[test]
fn cjk_punctuation_at_end_leaves_no_empty_word() {
    let r = count_words("foo。");
    assert!(r.words.is_empty());
    assert_eq!(r.cjk, 1);
    assert_eq!(r.characters, 4);
}

#[test]
fn fullwidth_forms_are_cjk() {
    let r = count_words("ＡＢ x");
    assert_eq!(words(&r), vec![" x"]);
    assert_eq!(r.cjk, 2);
    assert_eq!(r.whitespaces, 1);
}

#[test]
fn ideographic_space_is_whitespace() {
    let r = count_words("a\u{3000}b");
    assert_eq!(words(&r), vec!["a\u{3000}", "b"]);
    assert_eq!(r.whitespaces, 1);
    assert_eq!(r.cjk, 0);
}

#[test]
fn leading_whitespace_joins_next_word() {
    let r = count_words("  a");
    assert_eq!(words(&r), vec!["  a"]);
    assert_eq!(r.whitespaces, 2);
}

#[test]
fn mixed_text_counts_cover_characters() {
    for text in ["", "hello world", "一 二-三、四 five--six", "\t\n  ", "ｶﾀｶﾅ and 한국어"] {
        let r = count_words(text);
        assert_eq!(r.characters, text.chars().count());
        assert!(r.whitespaces + r.cjk <= r.characters);
    }
}

#[test]
fn counting_twice_gives_the_same_result() {
    let text = "The quick 狐狸 jumps--over、the lazy dog";
    let a = count_words(text);
    let b = count_words(text);
    assert_eq!(a, b);
    assert_eq!(a.words, b.words);
    assert_eq!(a.characters, b.characters);
    assert_eq!(a.whitespaces, b.whitespaces);
    assert_eq!(a.cjk, b.cjk);
}

#[test]
fn cjk_other_blocks() {
    assert!(is_cjk_other('、'));
    assert!(is_cjk_other('\u{3000}'));
    assert!(is_cjk_other('\u{303F}'));
    assert!(is_cjk_other('！'));
    assert!(is_cjk_other('\u{FFEF}'));
    assert!(!is_cjk_other('\u{3040}'));
    assert!(!is_cjk_other('中'));
    assert!(!is_cjk_other('a'));
}
