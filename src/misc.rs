use vstd::prelude::*;

use crate::count_words::{is_whitespace, strings_view, whitespace_of};

verus! {

/// The strings of `ws` with `sep` between each two neighbours.
pub open spec fn joined(ws: Seq<Seq<char>>, sep: Seq<char>) -> Seq<char>
    decreases ws.len(),
{
    if ws.len() == 0 {
        Seq::empty()
    } else if ws.len() == 1 {
        ws[0]
    } else {
        joined(ws.drop_last(), sep) + sep + ws.last()
    }
}

/// `s` written `n` times in a row.
pub open spec fn repeated(s: Seq<char>, n: nat) -> Seq<char>
    decreases n,
{
    if n == 0 {
        Seq::empty()
    } else {
        repeated(s, (n - 1) as nat) + s
    }
}

/// `r` before each character of `s` and once more at the end: what replacing
/// the empty pattern gives, since it matches at every character boundary.
pub open spec fn interleaved(s: Seq<char>, r: Seq<char>) -> Seq<char>
    decreases s.len(),
{
    if s.len() == 0 {
        r
    } else {
        r + seq![s[0]] + interleaved(s.drop_first(), r)
    }
}

/// `s` with every match of the non-empty pattern `f` replaced by `r`, the
/// matches taken from left to right without overlap.
pub open spec fn replaced_nonempty(s: Seq<char>, f: Seq<char>, r: Seq<char>) -> Seq<char>
    recommends
        f.len() > 0,
    decreases s.len(),
{
    if s.len() == 0 || f.len() == 0 {
        s
    } else if f.len() <= s.len() && s.take(f.len() as int) == f {
        r + replaced_nonempty(s.skip(f.len() as int), f, r)
    } else {
        seq![s[0]] + replaced_nonempty(s.drop_first(), f, r)
    }
}

/// `s` with every match of `f` replaced by `r`, as `str::replace` does.
pub open spec fn replaced(s: Seq<char>, f: Seq<char>, r: Seq<char>) -> Seq<char> {
    if f.len() == 0 {
        interleaved(s, r)
    } else {
        replaced_nonempty(s, f, r)
    }
}

/// `s` without its leading whitespace.
pub open spec fn trimmed_start(s: Seq<char>) -> Seq<char>
    decreases s.len(),
{
    if s.len() > 0 && whitespace_of(s[0]) {
        trimmed_start(s.drop_first())
    } else {
        s
    }
}

/// `s` without its trailing whitespace.
pub open spec fn trimmed_end(s: Seq<char>) -> Seq<char>
    decreases s.len(),
{
    if s.len() > 0 && whitespace_of(s.last()) {
        trimmed_end(s.drop_last())
    } else {
        s
    }
}

/// Append the characters of `t` to `s`.
pub fn push_all(s: &mut String, t: &str)
    ensures
        final(s)@ == old(s)@ + t@,
{
    for c in it: t.chars()
        invariant
            it.seq() == t@,
            s@ == old(s)@ + t@.take(it.index() as int),
    {
        s.push(c);
        assert(old(s)@ + t@.take(it.index() + 1) =~= old(s)@ + t@.take(it.index() as int) + seq![c]);
    }
    assert(t@.take(t@.len() as int) == t@);
}

/// The characters of `t`, in order.
pub fn chars_of(t: &str) -> (v: Vec<char>)
    ensures
        v@ == t@,
{
    let mut v: Vec<char> = Vec::new();
    for c in it: t.chars()
        invariant
            it.seq() == t@,
            v@ == t@.take(it.index() as int),
    {
        v.push(c);
        assert(t@.take(it.index() + 1) =~= t@.take(it.index() as int).push(c));
    }
    assert(t@.take(t@.len() as int) == t@);
    v
}

/// Join the strings of `text`, with `joiner` between each two of them.
pub fn join(text: Vec<String>, joiner: String) -> (r: String)
    ensures
        r@ == joined(strings_view(text@), joiner@),
{
    let mut r = String::new();
    for i in 0..text.len()
        invariant
            r@ == joined(strings_view(text@).take(i as int), joiner@),
    {
        let ghost ws = strings_view(text@);
        assert(ws.take(i + 1).drop_last() =~= ws.take(i as int));
        if i > 0 {
            push_all(&mut r, joiner.as_str());
        }
        push_all(&mut r, text[i].as_str());
        proof {
            if i == 0 {
                assert(ws.take(1)[0] == ws[0]);
            }
        }
    }
    assert(strings_view(text@).take(text.len() as int) =~= strings_view(text@));
    r
}

/// Reverse the characters of `text`.
pub fn reverse(text: &str) -> (r: String)
    ensures
        r@ == text@.reverse(),
{
    let cs = chars_of(text);
    let mut r = String::new();
    let mut i: usize = cs.len();
    while i > 0
        invariant
            cs@ == text@,
            i <= cs.len(),
            r@ == cs@.skip(i as int).reverse(),
        decreases i,
    {
        i = i - 1;
        r.push(cs[i]);
        assert(cs@.skip(i as int).reverse() =~= cs@.skip(i + 1).reverse().push(cs@[i as int]));
    }
    assert(cs@.skip(0) == cs@);
    r
}

/// `text` written `count` times in a row.
pub fn repeat(text: &str, count: usize) -> (r: String)
    ensures
        r@ == repeated(text@, count as nat),
{
    let mut r = String::new();
    for i in 0..count
        invariant
            r@ == repeated(text@, i as nat),
    {
        push_all(&mut r, text);
    }
    r
}

/// Whether `f` occurs in `s` at position `i`.
fn matches_at(s: &Vec<char>, f: &Vec<char>, i: usize) -> (b: bool)
    requires
        i <= s.len(),
    ensures
        b == (f.len() <= s.len() - i && s@.skip(i as int).take(f.len() as int) == f@),
{
    if f.len() > s.len() - i {
        return false;
    }
    let mut j: usize = 0;
    while j < f.len()
        invariant
            j <= f.len(),
            i + f.len() <= s.len(),
            forall|k: int| 0 <= k < j ==> s@[i + k] == f@[k],
        decreases f.len() - j,
    {
        if s[i + j] != f[j] {
            assert(s@.skip(i as int).take(f.len() as int)[j as int] != f@[j as int]);
            return false;
        }
        j = j + 1;
    }
    assert(s@.skip(i as int).take(f.len() as int) =~= f@);
    true
}

/// Replace every match of `find` in `text` by `replacement`, from left to right,
/// without overlap. An empty `find` matches before each character and at the
/// end.
pub fn replace(text: &str, find: &str, replacement: &str) -> (r: String)
    ensures
        r@ == replaced(text@, find@, replacement@),
{
    let cs = chars_of(text);
    let f = chars_of(find);
    let mut r = String::new();
    if f.len() == 0 {
        assert(cs@.skip(0) =~= cs@);
        assert(r@ + interleaved(cs@, replacement@) =~= interleaved(cs@, replacement@));
        for i in 0..cs.len()
            invariant
                cs@ == text@,
                r@ + interleaved(cs@.skip(i as int), replacement@) == interleaved(text@, replacement@),
        {
            assert(cs@.skip(i as int).drop_first() =~= cs@.skip(i + 1));
            assert(r@ + replacement@ + seq![cs@[i as int]] + interleaved(cs@.skip(i + 1), replacement@)
                =~= r@ + interleaved(cs@.skip(i as int), replacement@));
            push_all(&mut r, replacement);
            r.push(cs[i]);
        }
        assert(cs@.skip(cs.len() as int) =~= Seq::<char>::empty());
        push_all(&mut r, replacement);
        return r;
    }
    let mut i: usize = 0;
    proof {
        assert(cs@.skip(0) =~= cs@);
        assert(r@ + replaced_nonempty(cs@, f@, replacement@) =~= replaced_nonempty(cs@, f@, replacement@));
    }
    while i < cs.len()
        invariant
            cs@ == text@,
            f@ == find@,
            f.len() > 0,
            i <= cs.len(),
            r@ + replaced_nonempty(cs@.skip(i as int), f@, replacement@) == replaced(text@, find@, replacement@),
        decreases cs.len() - i,
    {
        let ghost rest = cs@.skip(i as int);
        if matches_at(&cs, &f, i) {
            assert(rest.skip(f.len() as int) =~= cs@.skip(i + f.len()));
            assert(r@ + replacement@ + replaced_nonempty(cs@.skip(i + f.len()), f@, replacement@)
                =~= r@ + replaced_nonempty(rest, f@, replacement@));
            push_all(&mut r, replacement);
            i = i + f.len();
        } else {
            assert(rest.drop_first() =~= cs@.skip(i + 1));
            assert(r@ + seq![cs@[i as int]] + replaced_nonempty(cs@.skip(i + 1), f@, replacement@)
                =~= r@ + replaced_nonempty(rest, f@, replacement@));
            r.push(cs[i]);
            i = i + 1;
        }
    }
    assert(r@ + replaced_nonempty(cs@.skip(i as int), f@, replacement@) =~= r@);
    r
}

/// `text` without its leading and trailing whitespace.
pub fn trim(text: &str) -> (r: String)
    ensures
        r@ == trimmed_end(trimmed_start(text@)),
{
    let cs = chars_of(text);
    let mut a: usize = 0;
    assert(cs@.skip(0) =~= cs@);
    while a < cs.len() && is_whitespace(cs[a])
        invariant
            cs@ == text@,
            a <= cs.len(),
            trimmed_start(cs@.skip(a as int)) == trimmed_start(text@),
        decreases cs.len() - a,
    {
        assert(cs@.skip(a as int).drop_first() =~= cs@.skip(a + 1));
        a = a + 1;
    }
    let ghost start = cs@.skip(a as int);
    assert(trimmed_start(start) == start);
    let mut b: usize = cs.len();
    while b > a && is_whitespace(cs[b - 1])
        invariant
            cs@ == text@,
            a <= b <= cs.len(),
            start == cs@.skip(a as int),
            trimmed_end(cs@.subrange(a as int, b as int)) == trimmed_end(start),
        decreases b,
    {
        assert(cs@.subrange(a as int, b as int).drop_last() =~= cs@.subrange(a as int, b - 1));
        b = b - 1;
    }
    let mut r = String::new();
    for k in a..b
        invariant
            cs@ == text@,
            a <= b <= cs.len(),
            r@ == cs@.subrange(a as int, k as int),
    {
        r.push(cs[k]);
        assert(cs@.subrange(a as int, k + 1) =~= cs@.subrange(a as int, k as int).push(cs@[k as int]));
    }
    r
}

} // verus!
