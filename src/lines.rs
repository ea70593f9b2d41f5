use rand::seq::SliceRandom;
use vstd::prelude::*;

use crate::count_words::strings_view;
use crate::misc::{join, joined};

verus! {

/// A line without the carriage return that preceded its line feed.
pub open spec fn strip_cr(l: Seq<char>) -> Seq<char> {
    if l.len() > 0 && l.last() == '\r' {
        l.drop_last()
    } else {
        l
    }
}

/// The lines ended so far, and the text read since the last line feed.
pub struct LineSplit {
    pub done: Seq<Seq<char>>,
    pub cur: Seq<char>,
}

/// The split of `cs` into the lines that a line feed ended and the rest.
pub open spec fn split_at_feeds(cs: Seq<char>) -> LineSplit
    decreases cs.len(),
{
    if cs.len() == 0 {
        LineSplit { done: Seq::empty(), cur: Seq::empty() }
    } else {
        let s = split_at_feeds(cs.drop_last());
        if cs.last() == '\n' {
            LineSplit { done: s.done.push(strip_cr(s.cur)), cur: Seq::empty() }
        } else {
            LineSplit { done: s.done, cur: s.cur.push(cs.last()) }
        }
    }
}

/// The lines of `cs` as `str::lines` gives them: a line ends at a line feed,
/// and a carriage return just before that feed is dropped; text after the
/// last line feed is one more line, kept as it is.
pub open spec fn lines_of(cs: Seq<char>) -> Seq<Seq<char>> {
    let s = split_at_feeds(cs);
    if s.cur.len() > 0 {
        s.done.push(s.cur)
    } else {
        s.done
    }
}

/// The lines joined back with line feeds.
pub open spec fn unlines(ls: Seq<Seq<char>>) -> Seq<char> {
    joined(ls, seq!['\n'])
}

/// Whether `a` comes before `b` or equals it, comparing code points from the
/// left; a proper prefix comes first.
pub open spec fn lex_le(a: Seq<char>, b: Seq<char>) -> bool
    decreases a.len(),
{
    if a.len() == 0 {
        true
    } else if b.len() == 0 {
        false
    } else if a[0] != b[0] {
        (a[0] as u32) < (b[0] as u32)
    } else {
        lex_le(a.drop_first(), b.drop_first())
    }
}

/// Relies on `slice::sort` (std): a stable sort into the ascending order of
/// `Ord for String`, which compares the UTF-8 bytes and so the code points.
#[verifier::external_body]
fn sort_strings(v: &mut Vec<String>)
    ensures
        strings_view(final(v)@).to_multiset() == strings_view(old(v)@).to_multiset(),
        forall|i: int, j: int|
            0 <= i < j < final(v)@.len() ==> lex_le(#[trigger] final(v)@[i]@, #[trigger] final(v)@[j]@),
{
    v.sort();
}

/// Relies on `SliceRandom::shuffle` of rand with the thread's generator: the
/// items come back in some order.
#[verifier::external_body]
fn shuffle_strings(v: &mut Vec<String>)
    ensures
        strings_view(final(v)@).to_multiset() == strings_view(old(v)@).to_multiset(),
{
    v.shuffle(&mut rand::thread_rng());
}

/// A string of the first `n` characters of `v`.
fn string_of(v: &Vec<char>, n: usize) -> (r: String)
    requires
        n <= v.len(),
    ensures
        r@ == v@.take(n as int),
{
    let mut r = String::new();
    for i in 0..n
        invariant
            n <= v.len(),
            r@ == v@.take(i as int),
    {
        r.push(v[i]);
        assert(v@.take(i + 1) =~= v@.take(i as int).push(v@[i as int]));
    }
    r
}

/// The lines of `text`.
pub fn split_lines(text: &str) -> (r: Vec<String>)
    ensures
        strings_view(r@) == lines_of(text@),
{
    let mut done: Vec<String> = Vec::new();
    let mut cur: Vec<char> = Vec::new();
    for c in it: text.chars()
        invariant
            it.seq() == text@,
            strings_view(done@) == split_at_feeds(text@.take(it.index() as int)).done,
            cur@ == split_at_feeds(text@.take(it.index() as int)).cur,
    {
        let ghost prefix = text@.take(it.index() as int);
        assert(text@.take(it.index() + 1).drop_last() == prefix);
        if c == '\n' {
            let n = if cur.len() > 0 && cur[cur.len() - 1] == '\r' {
                cur.len() - 1
            } else {
                cur.len()
            };
            let line = string_of(&cur, n);
            assert(line@ == strip_cr(cur@));
            done.push(line);
            cur = Vec::new();
        } else {
            cur.push(c);
        }
    }
    assert(text@.take(text@.len() as int) == text@);
    if cur.len() > 0 {
        let ghost before = done@;
        let line = string_of(&cur, cur.len());
        assert(cur@.take(cur.len() as int) == cur@);
        done.push(line);
        assert(strings_view(done@) =~= strings_view(before).push(cur@));
    }
    done
}

/// A string that holds a line feed.
fn line_feed() -> (r: String)
    ensures
        r@ == seq!['\n'],
{
    let mut r = String::new();
    r.push('\n');
    r
}

/// The lines of `text` in reverse order, joined with line feeds.
pub fn reverse_lines(text: &str) -> (r: String)
    ensures
        r@ == unlines(lines_of(text@).reverse()),
{
    let lines = split_lines(text);
    let mut rev: Vec<String> = Vec::new();
    let mut i: usize = lines.len();
    while i > 0
        invariant
            i <= lines.len(),
            strings_view(rev@) == strings_view(lines@).skip(i as int).reverse(),
        decreases i,
    {
        i = i - 1;
        let ghost before = rev@;
        rev.push(lines[i].clone());
        assert(strings_view(rev@) =~= strings_view(before).push(lines@[i as int]@));
        assert(strings_view(lines@).skip(i as int).reverse()
            =~= strings_view(lines@).skip(i + 1).reverse().push(lines@[i as int]@));
    }
    assert(strings_view(lines@).skip(0) == strings_view(lines@));
    join(rev, line_feed())
}

/// The lines of `text` in ascending order, joined with line feeds.
pub fn sort_lines(text: &str) -> (r: String)
    ensures
        exists|ls: Seq<Seq<char>>|
            ls.to_multiset() == lines_of(text@).to_multiset()
            && (forall|i: int, j: int| 0 <= i < j < ls.len() ==> lex_le(#[trigger] ls[i], #[trigger] ls[j]))
            && r@ == unlines(ls),
{
    let mut lines = split_lines(text);
    sort_strings(&mut lines);
    let ghost ls = strings_view(lines@);
    assert forall|i: int, j: int| 0 <= i < j < ls.len() implies lex_le(#[trigger] ls[i], #[trigger] ls[j]) by {
        assert(ls[i] == lines@[i]@ && ls[j] == lines@[j]@);
    }
    let r = join(lines, line_feed());
    assert(ls.to_multiset() == lines_of(text@).to_multiset() && r@ == unlines(ls));
    r
}

/// The lines of `text` in an order drawn at random, joined with line feeds.
pub fn shuffle_lines(text: &str) -> (r: String)
    ensures
        exists|ls: Seq<Seq<char>>|
            ls.to_multiset() == lines_of(text@).to_multiset() && r@ == unlines(ls),
{
    let mut lines = split_lines(text);
    shuffle_strings(&mut lines);
    let ghost ls = strings_view(lines@);
    let r = join(lines, line_feed());
    assert(ls.to_multiset() == lines_of(text@).to_multiset() && r@ == unlines(ls));
    r
}

} // verus!
