use vstd::prelude::*;

use crate::misc::chars_of;

verus! {

/// The result of classifying a text: the words found, in order, and the
/// number of characters, whitespace characters and CJK characters read.
#[derive(Debug, Clone, Default, PartialEq, Eq)]
pub struct WordsCount {
    pub words: Vec<String>,
    pub characters: usize,
    pub whitespaces: usize,
    pub cjk: usize,
}

/// Whether a character has the Unicode `White_Space` property.
pub uninterp spec fn whitespace_of(c: char) -> bool;

/// Whether a character lies in one of the Unicode blocks used for CJK text.
pub uninterp spec fn cjk_block_of(c: char) -> bool;

/// Relies on `char::is_whitespace`: true exactly for the characters with the
/// Unicode `White_Space` property.
#[verifier::external_body]
pub(crate) fn is_whitespace(c: char) -> (r: bool)
    ensures
        r == whitespace_of(c),
{
    c.is_whitespace()
}

/// Relies on `unicode_blocks::is_cjk`: whether the character lies in one of
/// the blocks that the crate lists as CJK (ideographs, kana, hangul, bopomofo,
/// their punctuation and compatibility forms, and a few more).
#[verifier::external_body]
fn is_cjk(c: char) -> (r: bool)
    ensures
        r == cjk_block_of(c),
{
    unicode_blocks::is_cjk(c)
}

/// Relies on `String::push`: appends one character.
pub assume_specification[ String::push ](s: &mut String, ch: char)
    ensures
        final(s)@ == old(s)@.push(ch),
;

/// A CJK character that is not a word of its own: one of the block
/// "CJK Symbols and Punctuation" (U+3000 to U+303F) or of the block
/// "Halfwidth and Fullwidth Forms" (U+FF00 to U+FFEF).
pub open spec fn cjk_other_spec(c: char) -> bool {
    (0x3000 <= c as u32 <= 0x303F) || (0xFF00 <= c as u32 <= 0xFFEF)
}

/// Given a character, determine whether it is a non-word CJK character.
pub fn is_cjk_other(c: char) -> (r: bool)
    ensures
        r == cjk_other_spec(c),
{
    let u = c as u32;
    (0x3000 <= u && u <= 0x303F) || (0xFF00 <= u && u <= 0xFFEF)
}

/// The state of the scan after a prefix of the text: the words completed so
/// far, the word being read, whether a word is open, the length of the run of
/// dashes just read, and the three counters.
pub struct Scan {
    pub words: Seq<Seq<char>>,
    pub word: Seq<char>,
    pub in_word: bool,
    pub dashes: nat,
    pub characters: nat,
    pub whitespaces: nat,
    pub cjk: nat,
}

/// The state of the scan before the first character.
pub open spec fn scan_start() -> Scan {
    Scan {
        words: Seq::empty(),
        word: Seq::empty(),
        in_word: false,
        dashes: 0,
        characters: 0,
        whitespaces: 0,
        cjk: 0,
    }
}

/// `words` with `w` added at the end, unless `w` is empty.
pub open spec fn push_word(words: Seq<Seq<char>>, w: Seq<char>) -> Seq<Seq<char>> {
    if w.len() > 0 {
        words.push(w)
    } else {
        words
    }
}

/// One step of the scan, on the character `c`.
///
/// Every character is counted and added to the open word. A whitespace
/// character closes an open word, which keeps that whitespace. The second dash
/// of a run closes an open word, which keeps both dashes; a later dash of the
/// run closes an open word without completing it. A CJK punctuation or
/// fullwidth character is counted as CJK and clears the word being read. Any
/// other CJK character is counted as CJK and completes the open word as read
/// before it. Anything else opens a word or extends the open one.
pub open spec fn step(s: Scan, c: char) -> Scan {
    let word = s.word.push(c);
    let characters = s.characters + 1;
    if whitespace_of(c) {
        if s.in_word {
            Scan {
                words: s.words.push(word),
                word: Seq::empty(),
                in_word: false,
                dashes: 0,
                characters,
                whitespaces: s.whitespaces + 1,
                cjk: s.cjk,
            }
        } else {
            Scan { word, dashes: 0, characters, whitespaces: s.whitespaces + 1, ..s }
        }
    } else if c == '-' {
        let dashes = s.dashes + 1;
        if dashes > 1 && s.in_word {
            if dashes == 2 {
                Scan {
                    words: s.words.push(word),
                    word: Seq::empty(),
                    in_word: false,
                    dashes,
                    characters,
                    ..s
                }
            } else {
                Scan { word, in_word: false, dashes, characters, ..s }
            }
        } else {
            Scan { word, in_word: true, dashes, characters, ..s }
        }
    } else if cjk_other_spec(c) {
        Scan { word: Seq::empty(), dashes: 0, characters, cjk: s.cjk + 1, ..s }
    } else if cjk_block_of(c) {
        Scan {
            words: if s.in_word { push_word(s.words, s.word) } else { s.words },
            word: Seq::empty(),
            in_word: false,
            dashes: 0,
            characters,
            cjk: s.cjk + 1,
            ..s
        }
    } else {
        Scan { word, in_word: true, dashes: 0, characters, ..s }
    }
}

/// The state of the scan after reading all of `cs`.
pub open spec fn scan(cs: Seq<char>) -> Scan
    decreases cs.len(),
{
    if cs.len() == 0 {
        scan_start()
    } else {
        step(scan(cs.drop_last()), cs.last())
    }
}

/// The words of `cs`: those the scan completed, then the word still open at
/// the end, if it is not empty.
pub open spec fn words_of(cs: Seq<char>) -> Seq<Seq<char>> {
    let s = scan(cs);
    if s.in_word {
        push_word(s.words, s.word)
    } else {
        s.words
    }
}

/// The view of a list of strings as a sequence of character sequences.
pub open spec fn strings_view(v: Seq<String>) -> Seq<Seq<char>> {
    v.map_values(|w: String| w@)
}

/// Whether `r` is the count of `cs`.
pub open spec fn counts(cs: Seq<char>, r: WordsCount) -> bool {
    &&& strings_view(r.words@) == words_of(cs)
    &&& r.characters == scan(cs).characters
    &&& r.whitespaces == scan(cs).whitespaces
    &&& r.cjk == scan(cs).cjk
}

/// The state of the scan after a prefix of `cs` is well within what the
/// counters can hold: the runs and counts never exceed the characters read,
/// and that is the length of the prefix.
pub proof fn lemma_scan_bounds(cs: Seq<char>)
    ensures
        scan(cs).characters == cs.len(),
        scan(cs).dashes <= scan(cs).characters,
        scan(cs).whitespaces + scan(cs).cjk <= scan(cs).characters,
    decreases cs.len(),
{
    if cs.len() > 0 {
        lemma_scan_bounds(cs.drop_last());
    }
}

/// Whether a character can stand in a word: whitespace (which ends one), a
/// dash, or a character that is not CJK.
pub open spec fn word_char(ch: char) -> bool {
    whitespace_of(ch) || ch == '-' || (!cjk_other_spec(ch) && !cjk_block_of(ch))
}

/// Whether `w` is a word as the scan completes them: not empty, and with no
/// CJK character in it unless that character is whitespace or a dash.
pub open spec fn well_formed_word(w: Seq<char>) -> bool {
    w.len() > 0 && forall|j: int| 0 <= j < w.len() ==> word_char(#[trigger] w[j])
}

proof fn lemma_scan_words(cs: Seq<char>)
    ensures
        forall|i: int| 0 <= i < scan(cs).words.len() ==> well_formed_word(#[trigger] scan(cs).words[i]),
        forall|j: int| 0 <= j < scan(cs).word.len() ==> word_char(#[trigger] scan(cs).word[j]),
    decreases cs.len(),
{
    if cs.len() > 0 {
        let p = cs.drop_last();
        lemma_scan_words(p);
        let s = scan(p);
        let c = cs.last();
        assert(forall|j: int| 0 <= j < s.word.len() ==> s.word.push(c)[j] == s.word[j]);
    }
}

/// No word of a text is empty, and no word holds a CJK character, a CJK
/// punctuation mark or a fullwidth form (a whitespace character or a dash
/// stands in a word whatever its block).
pub proof fn lemma_words_well_formed(cs: Seq<char>)
    ensures
        forall|i: int| 0 <= i < words_of(cs).len() ==> well_formed_word(#[trigger] words_of(cs)[i]),
{
    lemma_scan_words(cs);
}

/// Counting is a function of the text alone: two results that both count the
/// same text hold the same words and the same numbers.
pub proof fn lemma_count_deterministic(cs: Seq<char>, r1: WordsCount, r2: WordsCount)
    requires
        counts(cs, r1),
        counts(cs, r2),
    ensures
        strings_view(r1.words@) == strings_view(r2.words@),
        r1.characters == r2.characters,
        r1.whitespaces == r2.whitespaces,
        r1.cjk == r2.cjk,
{
}

/// Whitespace and CJK characters are among the characters counted, and every
/// character of the text is counted once.
pub proof fn lemma_counts_bounded(cs: Seq<char>, r: WordsCount)
    requires
        counts(cs, r),
    ensures
        r.characters == cs.len(),
        r.whitespaces + r.cjk <= r.characters,
{
    lemma_scan_bounds(cs);
}

/// Count the words in the given string. In general, every non-CJK string of
/// characters between two whitespaces is a word. Dashes (at least two dashes)
/// are word limit, too. A CJK character is counted apart and never belongs to
/// a word; CJK punctuation clears the word being read. No word is empty.
pub fn count_words(s: &str) -> (r: WordsCount)
    ensures
        counts(s@, r),
        r.characters == s@.len(),
        r.whitespaces + r.cjk <= r.characters,
        forall|i: int| 0 <= i < r.words.len() ==> well_formed_word(#[trigger] r.words[i]@),
{
    let mut in_word = false;
    let mut consecutive_dashes: usize = 0;
    let mut words: Vec<String> = Vec::new();
    let mut word = String::new();
    let mut characters: usize = 0;
    let mut whitespaces: usize = 0;
    let mut cjk: usize = 0;

    let cs = chars_of(s);
    for i in 0..cs.len()
        invariant
            cs@ == s@,
            ({
                let sc = scan(s@.take(i as int));
                &&& strings_view(words@) == sc.words
                &&& word@ == sc.word
                &&& in_word == sc.in_word
                &&& consecutive_dashes == sc.dashes
                &&& characters == sc.characters
                &&& whitespaces == sc.whitespaces
                &&& cjk == sc.cjk
            }),
    {
        let c = cs[i];
        let ghost prefix = s@.take(i as int);
        proof {
            lemma_scan_bounds(prefix);
            assert(s@.take(i + 1).drop_last() == prefix);
        }
        characters += 1;
        if is_whitespace(c) {
            consecutive_dashes = 0;
            whitespaces += 1;
            word.push(c);
            if in_word {
                words.push(word);
                word = String::new();
                in_word = false;
            }
        } else if c == '-' {
            consecutive_dashes += 1;
            word.push(c);
            if consecutive_dashes > 1 && in_word {
                if consecutive_dashes == 2 {
                    words.push(word);
                    word = String::new();
                }
                in_word = false;
            } else {
                in_word = true;
            }
        } else {
            consecutive_dashes = 0;
            if is_cjk_other(c) {
                cjk += 1;
                word = String::new();
            } else if is_cjk(c) {
                cjk += 1;
                if in_word && !word.as_str().is_empty() {
                    words.push(word);
                }
                word = String::new();
                in_word = false;
            } else {
                word.push(c);
                in_word = true;
            }
        }
    }
    let ghost before = words@;
    let ghost last = word@;
    if in_word && !word.as_str().is_empty() {
        words.push(word);
        assert(strings_view(words@) =~= strings_view(before).push(last));
    }
    proof {
        assert(s@.take(s@.len() as int) == s@);
        lemma_scan_bounds(s@);
        lemma_words_well_formed(s@);
        assert(strings_view(words@) == words_of(s@));
        assert forall|i: int| 0 <= i < words.len() implies well_formed_word(#[trigger] words[i]@) by {
            assert(strings_view(words@)[i] == words[i]@);
            assert(well_formed_word(words_of(s@)[i]));
        }
    }
    WordsCount { words, characters, whitespaces, cjk }
}

} // verus!
