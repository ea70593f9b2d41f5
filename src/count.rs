use unicode_segmentation::UnicodeSegmentation;
use vstd::prelude::*;

use crate::count_words::strings_view;
use crate::lines::{lines_of, split_at_feeds};
use crate::misc::chars_of;

verus! {

/// The words of a text as Unicode word segmentation finds them (UAX #29),
/// keeping only the segments that hold a letter or a digit.
pub uninterp spec fn unicode_words_of(s: Seq<char>) -> Seq<Seq<char>>;

/// The lower-case form of a text, character by character, by Unicode's rules.
pub uninterp spec fn lower_of(s: Seq<char>) -> Seq<char>;

/// Relies on `UnicodeSegmentation::unicode_words` of unicode-segmentation:
/// the word segments of the text, in order, each as its own string.
#[verifier::external_body]
fn unicode_words(s: &str) -> (r: Vec<String>)
    ensures
        strings_view(r@) == unicode_words_of(s@),
{
    s.unicode_words().map(|w| w.to_string()).collect()
}

/// Relies on `str::to_lowercase`: the result depends on the characters alone.
#[verifier::external_body]
fn lowercase(s: &str) -> (r: String)
    ensures
        r@ == lower_of(s@),
{
    s.to_lowercase()
}

/// The number of characters of `cs` that equal `c`.
pub open spec fn occurrences_of_char(cs: Seq<char>, c: char) -> nat
    decreases cs.len(),
{
    if cs.len() == 0 {
        0
    } else {
        occurrences_of_char(cs.drop_last(), c) + if cs.last() == c { 1nat } else { 0nat }
    }
}

/// The number of lines of `cs`, as `str::lines` splits them: every line feed
/// ends a line, and text after the last line feed is one more line. The empty
/// text has no line.
pub open spec fn line_count(cs: Seq<char>) -> nat {
    occurrences_of_char(cs, '\n') + if cs.len() > 0 && cs.last() != '\n' { 1nat } else { 0nat }
}

/// The number of entries of `ws` that equal `w`.
pub open spec fn occurrences_of_word(ws: Seq<Seq<char>>, w: Seq<char>) -> nat
    decreases ws.len(),
{
    if ws.len() == 0 {
        0
    } else {
        occurrences_of_word(ws.drop_last(), w) + if ws.last() == w { 1nat } else { 0nat }
    }
}

proof fn lemma_occurrences_of_char_bound(cs: Seq<char>, c: char)
    ensures
        occurrences_of_char(cs, c) <= cs.len(),
    decreases cs.len(),
{
    if cs.len() > 0 {
        lemma_occurrences_of_char_bound(cs.drop_last(), c);
    }
}

/// Count the characters of `text` equal to `c`.
fn count_char(text: &str, c: char) -> (n: usize)
    ensures
        n == occurrences_of_char(text@, c),
{
    let cs = chars_of(text);
    let mut n: usize = 0;
    for i in 0..cs.len()
        invariant
            cs@ == text@,
            n == occurrences_of_char(text@.take(i as int), c),
    {
        proof {
            let prefix = text@.take(i as int);
            assert(text@.take(i + 1).drop_last() == prefix);
            lemma_occurrences_of_char_bound(prefix, c);
        }
        if cs[i] == c {
            n = n + 1;
        }
    }
    assert(text@.take(text@.len() as int) == text@);
    n
}

/// Count the lines of `text`: the line feeds, and one more line where text
/// follows the last of them. The empty text has no line. This is the number
/// of lines that `split_lines` gives.
pub fn count_lines(text: &str) -> (n: usize)
    ensures
        n == line_count(text@),
        n == lines_of(text@).len(),
{
    proof {
        lemma_line_count(text@);
    }
    let cs = chars_of(text);
    let feeds = count_char(text, '\n');
    if cs.len() > 0 && cs[cs.len() - 1] != '\n' {
        proof {
            let p = text@.drop_last();
            assert(occurrences_of_char(text@, '\n') == occurrences_of_char(p, '\n'));
            lemma_occurrences_of_char_bound(p, '\n');
        }
        feeds + 1
    } else {
        feeds
    }
}

/// The lines of a text are as many as its line count: a line for each line
/// feed, and one for text after the last of them.
pub proof fn lemma_line_count(cs: Seq<char>)
    ensures
        lines_of(cs).len() == line_count(cs),
{
    lemma_split_counts(cs);
}

proof fn lemma_split_counts(cs: Seq<char>)
    ensures
        split_at_feeds(cs).done.len() == occurrences_of_char(cs, '\n'),
        split_at_feeds(cs).cur.len() > 0 <==> (cs.len() > 0 && cs.last() != '\n'),
    decreases cs.len(),
{
    if cs.len() > 0 {
        lemma_split_counts(cs.drop_last());
    }
}

/// Count all characters of `text`, or, given a character, those equal to it.
pub fn count_chars(text: &str, character: Option<char>) -> (n: usize)
    ensures
        n == match character {
            Some(c) => occurrences_of_char(text@, c),
            None => text@.len(),
        },
{
    match character {
        Some(c) => count_char(text, c),
        None => chars_of(text).len(),
    }
}

/// Count the entries of `words` equal to `target`.
pub fn count_matches(words: &Vec<String>, target: &String) -> (n: usize)
    ensures
        n == occurrences_of_word(strings_view(words@), target@),
{
    let mut n: usize = 0;
    for i in 0..words.len()
        invariant
            n <= i,
            n == occurrences_of_word(strings_view(words@).take(i as int), target@),
    {
        proof {
            let ws = strings_view(words@);
            assert(ws.take(i + 1).drop_last() == ws.take(i as int));
        }
        if words[i] == *target {
            n = n + 1;
        }
    }
    assert(strings_view(words@).take(words.len() as int) == strings_view(words@));
    n
}

/// The words of `text` in lower case.
pub open spec fn lower_words(text: Seq<char>) -> Seq<Seq<char>> {
    unicode_words_of(text).map_values(|w: Seq<char>| lower_of(w))
}

/// Count the Unicode words of `text`, or, given a word, those equal to it
/// without regard to case.
pub fn count_words(text: &str, word: Option<&str>) -> (n: usize)
    ensures
        n == match word {
            Some(w) => occurrences_of_word(lower_words(text@), lower_of(w@)),
            None => unicode_words_of(text@).len(),
        },
{
    let words = unicode_words(text);
    match word {
        Some(w) => {
            let target = lowercase(w);
            let mut folded: Vec<String> = Vec::new();
            for i in 0..words.len()
                invariant
                    strings_view(words@) == unicode_words_of(text@),
                    folded.len() == i,
                    forall|j: int| 0 <= j < i ==> #[trigger] folded[j]@ == lower_of(words[j]@),
            {
                folded.push(lowercase(words[i].as_str()));
            }
            assert(strings_view(folded@) =~= lower_words(text@));
            count_matches(&folded, &target)
        },
        None => words.len(),
    }
}

} // verus!
