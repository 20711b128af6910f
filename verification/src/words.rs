//! Cutting text into words, lines and fields, and joining words again.

use vstd::prelude::*;
use crate::text::{rows, lemma_rows_push, push_chars};

verus! {

/// Whether `c` is white space: the characters with the Unicode property
/// White_Space.
pub open spec fn is_space(c: char) -> bool {
    let u = c as u32;
    ||| 0x09 <= u <= 0x0D
    ||| u == 0x20
    ||| u == 0x85
    ||| u == 0xA0
    ||| u == 0x1680
    ||| 0x2000 <= u <= 0x200A
    ||| u == 0x2028
    ||| u == 0x2029
    ||| u == 0x202F
    ||| u == 0x205F
    ||| u == 0x3000
}

/// Length of the word that `s` begins with: the characters before the
/// first white space.
pub open spec fn word_len(s: Seq<char>) -> nat
    decreases s.len(),
{
    if s.len() == 0 || is_space(s[0]) {
        0
    } else {
        1 + word_len(s.drop_first())
    }
}

/// The word that `s` begins with ends within `s`, and is not empty where
/// `s` begins with a character that is no white space.
pub proof fn lemma_word_len_bounds(s: Seq<char>)
    ensures
        word_len(s) <= s.len(),
        s.len() > 0 && !is_space(s[0]) ==> word_len(s) >= 1,
    decreases s.len(),
{
    if s.len() == 0 || is_space(s[0]) {
    } else {
        lemma_word_len_bounds(s.drop_first());
    }
}

/// The words of `s`: its maximal runs of characters that are no white
/// space, in order. None of them is empty.
pub open spec fn words(s: Seq<char>) -> Seq<Seq<char>>
    decreases s.len(),
{
    if s.len() == 0 {
        Seq::empty()
    } else if is_space(s[0]) {
        words(s.drop_first())
    } else {
        proof {
            lemma_word_len_bounds(s);
        }
        seq![s.take(word_len(s) as int)] + words(s.skip(word_len(s) as int))
    }
}

/// The texts of `ws` with `sep` between each two neighbours.
pub open spec fn join(ws: Seq<Seq<char>>, sep: Seq<char>) -> Seq<char>
    decreases ws.len(),
{
    if ws.len() == 0 {
        Seq::empty()
    } else if ws.len() == 1 {
        ws[0]
    } else {
        join(ws.drop_last(), sep) + sep + ws.last()
    }
}

/// `s` with every run of white space turned into one space, and none at
/// either end.
pub open spec fn normalized(s: Seq<char>) -> Seq<char> {
    join(words(s), seq![' '])
}

/// Number of characters of `s` before the first `sep`.
pub open spec fn until(s: Seq<char>, sep: char) -> nat
    decreases s.len(),
{
    if s.len() == 0 || s[0] == sep {
        0
    } else {
        1 + until(s.drop_first(), sep)
    }
}

/// The fields of `s` between separators `sep`. There is one field more
/// than there are separators; a field may be empty.
pub open spec fn split(s: Seq<char>, sep: char) -> Seq<Seq<char>>
    decreases s.len(),
{
    let n = until(s, sep) as int;
    if n >= s.len() {
        seq![s]
    } else {
        seq![s.take(n)] + split(s.skip(n + 1), sep)
    }
}

/// `l` without a carriage return at its end.
pub open spec fn strip_cr(l: Seq<char>) -> Seq<char> {
    if l.len() > 0 && l.last() == '\r' {
        l.drop_last()
    } else {
        l
    }
}

/// The lines of `s`. A line ends with a line feed, or with a carriage
/// return and a line feed, neither of which belongs to it; what follows
/// the last line feed is a line of its own unless it is empty.
pub open spec fn lines(s: Seq<char>) -> Seq<Seq<char>>
    decreases s.len(),
{
    let n = until(s, '\n') as int;
    if s.len() == 0 {
        Seq::empty()
    } else if n >= s.len() {
        seq![s]
    } else {
        seq![strip_cr(s.take(n))] + lines(s.skip(n + 1))
    }
}

/// A run of `n` characters that are no white space, ended by white space
/// or by the end of `s`, is the word that `s` begins with.
pub proof fn lemma_word_run(s: Seq<char>, n: int)
    requires
        0 <= n <= s.len(),
        forall|k: int| 0 <= k < n ==> !is_space(s[k]),
        n == s.len() || is_space(s[n]),
    ensures
        word_len(s) == n,
    decreases n,
{
    if n > 0 {
        let t = s.drop_first();
        assert forall|k: int| 0 <= k < n - 1 implies !is_space(t[k]) by {
            assert(t[k] == s[k + 1]);
        }
        lemma_word_run(t, n - 1);
    }
}

/// A run of `n` characters other than `sep`, ended by `sep` or by the end
/// of `s`, is what stands before the first `sep`.
pub proof fn lemma_until_run(s: Seq<char>, sep: char, n: int)
    requires
        0 <= n <= s.len(),
        forall|k: int| 0 <= k < n ==> s[k] != sep,
        n == s.len() || s[n] == sep,
    ensures
        until(s, sep) == n,
    decreases n,
{
    if n > 0 {
        let t = s.drop_first();
        assert forall|k: int| 0 <= k < n - 1 implies t[k] != sep by {
            assert(t[k] == s[k + 1]);
        }
        lemma_until_run(t, sep, n - 1);
    }
}

/// Whether `c` is white space.
pub fn is_whitespace(c: char) -> (b: bool)
    ensures
        b == is_space(c),
{
    let u: u32 = c as u32;
    (0x09 <= u && u <= 0x0D) || u == 0x20 || u == 0x85 || u == 0xA0 || u == 0x1680 || (0x2000 <= u
        && u <= 0x200A) || u == 0x2028 || u == 0x2029 || u == 0x202F || u == 0x205F || u == 0x3000
}

/// The words of `s`.
pub fn split_words(s: &[char]) -> (out: Vec<Vec<char>>)
    ensures
        rows(out@) == words(s@),
{
    let mut out: Vec<Vec<char>> = Vec::new();
    let mut i: usize = 0;
    assert(s@.skip(0) == s@);
    assert(rows(out@) + words(s@) == words(s@));
    while i < s.len()
        invariant
            i <= s.len(),
            rows(out@) + words(s@.skip(i as int)) == words(s@),
        decreases s.len() - i,
    {
        let ghost rest = s@.skip(i as int);
        if is_whitespace(s[i]) {
            assert(rest.drop_first() == s@.skip(i + 1));
            i += 1;
        } else {
            let start: usize = i;
            let mut w: Vec<char> = Vec::new();
            while i < s.len() && !is_whitespace(s[i])
                invariant
                    start <= i <= s.len(),
                    w@ == s@.subrange(start as int, i as int),
                    forall|k: int| start <= k < i ==> !is_space(s@[k]),
                decreases s.len() - i,
            {
                w.push(s[i]);
                i += 1;
            }
            proof {
                let n = i - start;
                assert forall|k: int| 0 <= k < n implies !is_space(rest[k]) by {
                    assert(rest[k] == s@[start + k]);
                }
                lemma_word_run(rest, n);
                assert(rest.take(n) == w@);
                assert(rest.skip(n) == s@.skip(i as int));
                lemma_rows_push(out@, w);
                assert(rows(out@).push(w@) + words(s@.skip(i as int)) == rows(out@) + (seq![w@]
                    + words(s@.skip(i as int))));
            }
            out.push(w);
        }
    }
    assert(rows(out@) + Seq::<Seq<char>>::empty() == rows(out@));
    out
}

/// The words of `ws` with one space between each two neighbours.
pub fn join_words(ws: &Vec<Vec<char>>) -> (out: Vec<char>)
    ensures
        out@ == join(rows(ws@), seq![' ']),
{
    let mut out: Vec<char> = Vec::new();
    let mut i: usize = 0;
    while i < ws.len()
        invariant
            i <= ws.len(),
            out@ == join(rows(ws@).take(i as int), seq![' ']),
        decreases ws.len() - i,
    {
        let ghost before = rows(ws@).take(i as int);
        let ghost after = rows(ws@).take(i + 1);
        proof {
            assert(after.drop_last() == before);
            assert(after.last() == ws@[i as int]@);
        }
        if i > 0 {
            out.push(' ');
            assert(out@ == join(before, seq![' ']) + seq![' ']);
        } else {
            assert(after.len() == 1);
        }
        push_chars(&mut out, ws[i].as_slice());
        i += 1;
    }
    assert(rows(ws@).take(ws.len() as int) == rows(ws@));
    out
}

/// `s` with every run of white space turned into one space, and none at
/// either end.
pub fn normalize(s: &[char]) -> (out: Vec<char>)
    ensures
        out@ == normalized(s@),
{
    let ws = split_words(s);
    join_words(&ws)
}

/// The fields of `s` between separators `sep`.
pub fn split_on(s: &[char], sep: char) -> (out: Vec<Vec<char>>)
    ensures
        rows(out@) == split(s@, sep),
{
    let mut out: Vec<Vec<char>> = Vec::new();
    let mut cur: Vec<char> = Vec::new();
    let mut start: usize = 0;
    let mut i: usize = 0;
    assert(s@.skip(0) == s@);
    assert(rows(out@) + split(s@, sep) == split(s@, sep));
    while i < s.len()
        invariant
            start <= i <= s.len(),
            cur@ == s@.subrange(start as int, i as int),
            forall|k: int| start <= k < i ==> s@[k] != sep,
            rows(out@) + split(s@.skip(start as int), sep) == split(s@, sep),
        decreases s.len() - i,
    {
        if s[i] == sep {
            proof {
                let rest = s@.skip(start as int);
                let n = i - start;
                assert forall|k: int| 0 <= k < n implies rest[k] != sep by {
                    assert(rest[k] == s@[start + k]);
                }
                lemma_until_run(rest, sep, n);
                assert(rest.take(n) == cur@);
                assert(rest.skip(n + 1) == s@.skip(i + 1));
                lemma_rows_push(out@, cur);
                assert(rows(out@).push(cur@) + split(s@.skip(i + 1), sep) == rows(out@) + (seq![
                    cur@,
                ] + split(s@.skip(i + 1), sep)));
            }
            out.push(cur);
            cur = Vec::new();
            start = i + 1;
        } else {
            cur.push(s[i]);
        }
        i += 1;
    }
    proof {
        let rest = s@.skip(start as int);
        let n = i - start;
        assert forall|k: int| 0 <= k < n implies rest[k] != sep by {
            assert(rest[k] == s@[start + k]);
        }
        lemma_until_run(rest, sep, n);
        assert(rest == cur@);
        lemma_rows_push(out@, cur);
        assert(rows(out@).push(cur@) == rows(out@) + seq![cur@]);
    }
    out.push(cur);
    out
}

/// The lines of `s`.
pub fn split_lines(s: &[char]) -> (out: Vec<Vec<char>>)
    ensures
        rows(out@) == lines(s@),
{
    let mut out: Vec<Vec<char>> = Vec::new();
    let mut cur: Vec<char> = Vec::new();
    let mut start: usize = 0;
    let mut i: usize = 0;
    assert(s@.skip(0) == s@);
    assert(rows(out@) + lines(s@) == lines(s@));
    while i < s.len()
        invariant
            start <= i <= s.len(),
            cur@ == s@.subrange(start as int, i as int),
            forall|k: int| start <= k < i ==> s@[k] != '\n',
            rows(out@) + lines(s@.skip(start as int)) == lines(s@),
        decreases s.len() - i,
    {
        if s[i] == '\n' {
            let ghost whole = cur@;
            if cur.len() > 0 && cur[cur.len() - 1] == '\r' {
                cur.pop();
            }
            proof {
                let rest = s@.skip(start as int);
                let n = i - start;
                assert forall|k: int| 0 <= k < n implies rest[k] != '\n' by {
                    assert(rest[k] == s@[start + k]);
                }
                lemma_until_run(rest, '\n', n);
                assert(rest.take(n) == whole);
                assert(cur@ == strip_cr(whole));
                assert(rest.skip(n + 1) == s@.skip(i + 1));
                lemma_rows_push(out@, cur);
                assert(rows(out@).push(cur@) + lines(s@.skip(i + 1)) == rows(out@) + (seq![cur@]
                    + lines(s@.skip(i + 1))));
            }
            out.push(cur);
            cur = Vec::new();
            start = i + 1;
        } else {
            cur.push(s[i]);
        }
        i += 1;
    }
    if cur.len() > 0 {
        proof {
            let rest = s@.skip(start as int);
            let n = i - start;
            assert forall|k: int| 0 <= k < n implies rest[k] != '\n' by {
                assert(rest[k] == s@[start + k]);
            }
            lemma_until_run(rest, '\n', n);
            assert(rest == cur@);
            lemma_rows_push(out@, cur);
            assert(rows(out@).push(cur@) == rows(out@) + seq![cur@]);
        }
        out.push(cur);
    } else {
        assert(s@.skip(start as int).len() == 0);
        assert(rows(out@) + Seq::<Seq<char>>::empty() == rows(out@));
    }
    out
}

} // verus!
