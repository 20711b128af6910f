//! Picking lines out of the text of an information source.

use vstd::prelude::*;
use crate::search::{begins_with, find, first_occurrence, starts_with};
use crate::text::{from_chars, lemma_texts_push, texts, to_chars};
use crate::words::{normalize, normalized};

verus! {

/// What parts a key from its value in a line: a colon and a space.
pub open spec fn key_separator() -> Seq<char> {
    seq![':', ' ']
}

/// `line` without its key: what follows the first colon and space, or the
/// whole line where there is none.
pub open spec fn without_key(line: Seq<char>) -> Seq<char> {
    match first_occurrence(line, key_separator()) {
        Some(i) => line.skip(i + 2),
        None => line,
    }
}

/// What a line is turned into: its words with one space between them,
/// and without its key where `drop_key` is set.
pub open spec fn parsed_line(line: Seq<char>, drop_key: bool) -> Seq<char> {
    if drop_key {
        without_key(normalized(line))
    } else {
        normalized(line)
    }
}

/// Whether one of the first `i` lines begins with `key`.
pub open spec fn seen(lines: Seq<Seq<char>>, key: Seq<char>, i: int) -> bool {
    exists|j: int| 0 <= j < i && j < lines.len() && starts_with(#[trigger] lines[j], key)
}

/// Whether line `i` is the first of `lines` that begins with `key`.
pub open spec fn first_match(lines: Seq<Seq<char>>, key: Seq<char>, i: int) -> bool {
    &&& 0 <= i < lines.len()
    &&& starts_with(lines[i], key)
    &&& !seen(lines, key, i)
}

/// What line `i` gives for the first `n` elements: the line once for each
/// element that was not found before and whose first match it is.
pub open spec fn picks(
    lines: Seq<Seq<char>>,
    elements: Seq<(&str, bool)>,
    drop_key: bool,
    i: int,
    n: int,
) -> Seq<Seq<char>>
    decreases n,
{
    if n <= 0 {
        Seq::empty()
    } else {
        let rest = picks(lines, elements, drop_key, i, n - 1);
        if !elements[n - 1].1 && first_match(lines, elements[n - 1].0@, i) {
            rest.push(parsed_line(lines[i], drop_key))
        } else {
            rest
        }
    }
}

/// What the first `m` lines give: without elements every line; else, line
/// by line, the line for each element whose first match it is.
pub open spec fn parsed_lines(
    lines: Seq<Seq<char>>,
    elements: Seq<(&str, bool)>,
    drop_key: bool,
    m: int,
) -> Seq<Seq<char>>
    decreases m,
{
    if m <= 0 {
        Seq::empty()
    } else {
        let rest = parsed_lines(lines, elements, drop_key, m - 1);
        if elements.len() == 0 {
            rest.push(parsed_line(lines[m - 1], drop_key))
        } else {
            rest + picks(lines, elements, drop_key, m - 1, elements.len() as int)
        }
    }
}

/// A key was seen among the first `i + 1` lines where it was seen among
/// the first `i` or line `i` begins with it.
pub proof fn lemma_seen_next(lines: Seq<Seq<char>>, key: Seq<char>, i: int)
    requires
        0 <= i < lines.len(),
    ensures
        seen(lines, key, i + 1) == (seen(lines, key, i) || starts_with(lines[i], key)),
{
    if seen(lines, key, i + 1) {
        let j = choose|j: int| 0 <= j < i + 1 && j < lines.len() && starts_with(
            #[trigger] lines[j],
            key,
        );
        if j < i {
            assert(seen(lines, key, i));
        }
    }
    if seen(lines, key, i) {
        let j = choose|j: int| 0 <= j < i && j < lines.len() && starts_with(
            #[trigger] lines[j],
            key,
        );
        assert(0 <= j < i + 1 && starts_with(lines[j], key));
    }
    if starts_with(lines[i], key) {
        assert(0 <= i < i + 1 && starts_with(lines[i], key));
    }
}

/// Drops the key of `line`: everything up to and including the first colon
/// and space. A line without them stays as it is.
pub fn remove_key(line: &mut String)
    ensures
        final(line)@ == without_key(old(line)@),
{
    let chars = to_chars(line.as_str());
    let mut sep: Vec<char> = Vec::new();
    sep.push(':');
    sep.push(' ');
    assert(sep@ == key_separator());
    match find(chars.as_slice(), sep.as_slice()) {
        Some(at) => {
            assert(sep@.len() == 2);
            assert(at + 2 <= chars.len());
            let mut value: Vec<char> = Vec::new();
            let mut i: usize = at + 2;
            while i < chars.len()
                invariant
                    at + 2 <= i <= chars.len(),
                    value@ == chars@.subrange(at + 2, i as int),
                decreases chars.len() - i,
            {
                value.push(chars[i]);
                i += 1;
            }
            *line = from_chars(value.as_slice());
        },
        None => {},
    }
}

/// Turns `line` into its words with one space between them, drops its key
/// where `drop_key` is set, and appends the result to `info`.
pub fn parse_line(line: &str, drop_key: bool, info: &mut Vec<String>)
    ensures
        final(info)@.len() == old(info)@.len() + 1,
        texts(final(info)@) == texts(old(info)@).push(parsed_line(line@, drop_key)),
{
    let chars = to_chars(line);
    let joined = normalize(chars.as_slice());
    let mut text = from_chars(joined.as_slice());
    if drop_key {
        remove_key(&mut text);
    }
    proof {
        lemma_texts_push(info@, text);
    }
    info.push(text);
}

/// Finds, for each element, the first line that begins with the element's
/// text, and gives those lines in the order of the lines, each as
/// `parse_line` turns it out. An element whose flag is set counts as found
/// already and gets no line. Without elements, every line is given.
pub fn parse_lines(lines: Vec<String>, elements: Vec<(&str, bool)>, drop_key: bool) -> (info: Vec<
    String,
>)
    ensures
        texts(info@) == parsed_lines(texts(lines@), elements@, drop_key, lines.len() as int),
{
    let mut info: Vec<String> = Vec::new();
    let mut found: Vec<bool> = Vec::new();
    let mut keys: Vec<Vec<char>> = Vec::new();
    let mut e: usize = 0;
    while e < elements.len()
        invariant
            e <= elements.len(),
            found.len() == e,
            keys.len() == e,
            forall|k: int| 0 <= k < e ==> found@[k] == elements@[k].1,
            forall|k: int| 0 <= k < e ==> (#[trigger] keys@[k])@ == elements@[k].0@,
        decreases elements.len() - e,
    {
        found.push(elements[e].1);
        keys.push(to_chars(elements[e].0));
        e += 1;
    }
    let ghost all = texts(lines@);
    assert(texts(info@) == Seq::<Seq<char>>::empty());
    let mut i: usize = 0;
    while i < lines.len()
        invariant
            i <= lines.len(),
            all == texts(lines@),
            found.len() == elements.len(),
            keys.len() == elements.len(),
            forall|k: int| 0 <= k < keys.len() ==> (#[trigger] keys@[k])@ == elements@[k].0@,
            forall|k: int|
                0 <= k < found.len() ==> #[trigger] found@[k] == (elements@[k].1 || seen(
                    all,
                    elements@[k].0@,
                    i as int,
                )),
            texts(info@) == parsed_lines(all, elements@, drop_key, i as int),
        decreases lines.len() - i,
    {
        assert(all[i as int] == lines@[i as int]@);
        if elements.len() == 0 {
            parse_line(lines[i].as_str(), drop_key, &mut info);
        } else {
            let line = to_chars(lines[i].as_str());
            let ghost base = texts(info@);
            let mut e: usize = 0;
            assert(base + picks(all, elements@, drop_key, i as int, 0) == base);
            while e < elements.len()
                invariant
                    e <= elements.len(),
                    i < lines.len(),
                    all == texts(lines@),
                    line@ == all[i as int],
                    line@ == lines@[i as int]@,
                    found.len() == elements.len(),
                    keys.len() == elements.len(),
                    forall|k: int|
                        0 <= k < keys.len() ==> (#[trigger] keys@[k])@ == elements@[k].0@,
                    forall|k: int|
                        0 <= k < e ==> #[trigger] found@[k] == (elements@[k].1 || seen(
                            all,
                            elements@[k].0@,
                            i + 1,
                        )),
                    forall|k: int|
                        e <= k < found.len() ==> #[trigger] found@[k] == (elements@[k].1 || seen(
                            all,
                            elements@[k].0@,
                            i as int,
                        )),
                    texts(info@) == base + picks(all, elements@, drop_key, i as int, e as int),
                decreases elements.len() - e,
            {
                proof {
                    lemma_seen_next(all, elements@[e as int].0@, i as int);
                }
                let was: bool = found[e];
                assert(was == found@[e as int]);
                if !was && begins_with(line.as_slice(), keys[e].as_slice()) {
                    found.set(e, true);
                    parse_line(lines[i].as_str(), drop_key, &mut info);
                    assert(texts(info@) == base + picks(
                        all,
                        elements@,
                        drop_key,
                        i as int,
                        e as int,
                    ).push(parsed_line(all[i as int], drop_key)));
                }
                e += 1;
            }
        }
        i += 1;
    }
    info
}

/// `parse_lines` with the keys kept.
pub fn parse_lines_no_separator(lines: Vec<String>, elements: Vec<(&str, bool)>) -> (info: Vec<
    String,
>)
    ensures
        texts(info@) == parsed_lines(texts(lines@), elements@, false, lines.len() as int),
{
    parse_lines(lines, elements, false)
}

} // verus!
