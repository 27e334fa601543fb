//! The body of a note, cut into sections at its headings.

use vstd::prelude::*;

use crate::pattern::char_at;
use crate::text::{find_char, index_of, slice, to_chars, to_string};
use crate::types::sections_view;

verus! {

/// The number of `#` in a row in `t` from index `i` on.
pub open spec fn hash_run(t: Seq<char>, i: int) -> int
    decreases t.len() - i,
{
    if 0 <= i < t.len() && t[i] == '#' {
        1 + hash_run(t, i + 1)
    } else {
        0
    }
}

/// Where the heading that begins at index `i` of `t` ends: one to six `#`,
/// a space, at least one character that is no line feed, and then the first
/// line feed, whose index is given. There is no heading at `i` where the
/// `#` are more than six or no line feed follows.
pub open spec fn heading_at(t: Seq<char>, i: int) -> Option<int> {
    let r = hash_run(t, i);
    let p = i + r + 1;
    if 0 <= i && 1 <= r <= 6 && char_at(t, i + r, ' ') && p < t.len() && t[p] != '\n' {
        let q = p + 1 + index_of(t.subrange(p + 1, t.len() as int), '\n');
        if q < t.len() {
            Some(q)
        } else {
            None
        }
    } else {
        None
    }
}

/// The first heading of `t` that begins at index `from` or later: where it
/// begins, and the index of the line feed that ends it.
pub open spec fn next_heading(t: Seq<char>, from: int) -> Option<(int, int)>
    decreases t.len() - from + 1,
{
    if from < 0 || from >= t.len() {
        None
    } else {
        match heading_at(t, from) {
            Some(q) => Some((from, q)),
            None => next_heading(t, from + 1),
        }
    }
}

/// The sections of `t` whose headings begin at index `from` or later. A
/// section is its heading, without the line feed, and the text from behind
/// that line feed up to the next heading or the end.
pub open spec fn sections_from(t: Seq<char>, from: int) -> Seq<(Seq<char>, Seq<char>)>
    decreases t.len() - from + 1,
{
    match next_heading(t, from) {
        Some((i, q)) => if from <= i < q < t.len() {
            seq![
                (
                    t.subrange(i, q),
                    t.subrange(
                        q + 1,
                        match next_heading(t, q + 1) {
                            Some((j, _)) => j,
                            None => t.len() as int,
                        },
                    ),
                ),
            ] + sections_from(t, q + 1)
        } else {
            Seq::empty()
        },
        None => Seq::empty(),
    }
}

/// The sections of a body. A body without a heading is one section with an
/// empty heading. What stands before the first heading is left out.
pub open spec fn sections_of(t: Seq<char>) -> Seq<(Seq<char>, Seq<char>)> {
    if next_heading(t, 0) is None {
        seq![(Seq::empty(), t)]
    } else {
        sections_from(t, 0)
    }
}

fn count_hashes(t: &Vec<char>, i: usize) -> (r: usize)
    requires
        i <= t.len(),
    ensures
        r == hash_run(t@, i as int),
        i + r <= t.len(),
{
    let mut n: usize = 0;
    while i + n < t.len() && t[i + n] == '#'
        invariant
            i + n <= t.len(),
            hash_run(t@, i as int) == n + hash_run(t@, i + n),
        decreases t.len() - i - n,
    {
        n += 1;
    }
    n
}

fn heading_end(t: &Vec<char>, i: usize) -> (r: Option<usize>)
    requires
        i < t.len(),
    ensures
        match r {
            Some(q) => heading_at(t@, i as int) == Some(q as int) && i < q < t.len(),
            None => heading_at(t@, i as int) is None,
        },
{
    let r = count_hashes(t, i);
    if r < 1 || r > 6 || i + r >= t.len() || t[i + r] != ' ' {
        return None;
    }
    let p = i + r + 1;
    if p >= t.len() || t[p] == '\n' {
        return None;
    }
    let q = find_char(t, p + 1, '\n');
    if q < t.len() {
        Some(q)
    } else {
        None
    }
}

fn find_heading(t: &Vec<char>, from: usize) -> (r: Option<(usize, usize)>)
    ensures
        match r {
            Some((i, q)) => next_heading(t@, from as int) == Some((i as int, q as int)) && from
                <= i < q < t.len(),
            None => next_heading(t@, from as int) is None,
        },
{
    let mut i: usize = from;
    while i < t.len()
        invariant
            from <= i,
            next_heading(t@, from as int) == next_heading(t@, i as int),
        decreases t.len() - i,
    {
        if let Some(q) = heading_end(t, i) {
            return Some((i, q));
        }
        i += 1;
    }
    None
}

/// Cuts a body into its sections.
pub fn split_into_sections(content: &str) -> (r: Vec<(String, String)>)
    ensures
        sections_view(r@) == sections_of(content@),
{
    let t = to_chars(content);
    let mut out: Vec<(String, String)> = Vec::new();
    let mut cur = find_heading(&t, 0);
    if cur.is_none() {
        out.push((String::new(), to_string(&t)));
        assert(sections_view(out@) =~= seq![(Seq::<char>::empty(), t@)]);
        return out;
    }
    let ghost mut pos: int = 0;
    assert(sections_view(out@) =~= Seq::empty());
    loop
        invariant
            0 <= pos,
            match cur {
                Some((i, q)) => next_heading(t@, pos) == Some((i as int, q as int)) && pos <= i < q
                    < t.len(),
                None => next_heading(t@, pos) is None,
            },
            sections_from(t@, 0) == sections_view(out@) + sections_from(t@, pos),
        ensures
            sections_view(out@) == sections_from(t@, 0),
        decreases
                match cur {
                    Some((_, q)) => t.len() - q,
                    None => 0,
                },
    {
        let ghost found = sections_view(out@);
        match cur {
            None => {
                assert(found + Seq::<(Seq<char>, Seq<char>)>::empty() =~= found);
                break ;
            },
            Some((i, q)) => {
                let next = find_heading(&t, q + 1);
                let stop = match next {
                    Some((j, _)) => j,
                    None => t.len(),
                };
                let heading = to_string(&slice(&t, i, q));
                let body = to_string(&slice(&t, q + 1, stop));
                out.push((heading, body));
                assert(sections_view(out@) =~= found + seq![(heading@, body@)]);
                cur = next;
                proof {
                    pos = q + 1;
                }
            },
        }
    }
    out
}

} // verus!
