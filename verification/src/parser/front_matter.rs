//! The front matter: the YAML block between the first two fences of a file.

use vstd::prelude::*;

use crate::fields::{entries, fields_insert, fields_new, put, Entries, Fields};
use crate::pattern::{in_class, is_blank};
use crate::text::{
    concat, find, find_at, find_char, has_at, index_of, join, joined, lemma_find_at, push_all, push_str, replace_char, replaced, slice, split_words, starts_at,
    texts_view, to_chars, to_string, words_of,
};
use crate::types::YamlValue;
use crate::yaml::{front_document, parse_front_yaml, raw_entries, value_of, RawView, RawYaml};

verus! {

/// The front matter block of `t`: the index of the first `---` followed by
/// a line feed, and the index of the first line feed followed by `---`
/// behind it.
pub open spec fn front_block(t: Seq<char>) -> Option<(int, int)> {
    match find_at(t, 0, "---\n"@) {
        Some(i) => match find_at(t, i + 4, "\n---"@) {
            Some(j) => Some((i, j)),
            None => None,
        },
        None => None,
    }
}

/// The pieces of `t` between its line feeds; a text with `n` line feeds has
/// `n + 1` pieces.
pub open spec fn segments_of(t: Seq<char>) -> Seq<Seq<char>>
    decreases t.len(),
{
    let i = index_of(t, '\n');
    if 0 <= i < t.len() {
        seq![t.subrange(0, i)] + segments_of(t.subrange(i + 1, t.len() as int))
    } else {
        seq![t]
    }
}

/// The length of the key of a tag line: 3 where the line begins `tag:`, 4
/// where it begins `tags:`, else 0.
pub open spec fn tag_key_len(line: Seq<char>) -> int {
    if has_at(line, 0, "tag:"@) {
        3
    } else if has_at(line, 0, "tags:"@) {
        4
    } else {
        0
    }
}

/// The index at which the run of spaces and tabs that begins at index `i`
/// of `t` ends.
pub open spec fn gap_end(t: Seq<char>, i: int) -> int
    decreases t.len() - i,
{
    if 0 <= i < t.len() && (t[i] == ' ' || t[i] == '\t') {
        gap_end(t, i + 1)
    } else {
        i
    }
}

/// The last index from `lo` to `hi` at which a character stands that is not
/// in the class `\s`.
pub open spec fn value_start(t: Seq<char>, lo: int, hi: int) -> Option<int>
    decreases hi - lo + 1,
{
    if hi < lo {
        None
    } else if 0 <= hi < t.len() && !is_blank(t[hi]) {
        Some(hi)
    } else {
        value_start(t, lo, hi - 1)
    }
}

/// `s` without its square brackets.
pub open spec fn without_brackets(s: Seq<char>) -> Seq<char>
    decreases s.len(),
{
    if s.len() == 0 {
        s
    } else if s.last() == '[' || s.last() == ']' {
        without_brackets(s.drop_last())
    } else {
        without_brackets(s.drop_last()).push(s.last())
    }
}

/// `w` without the `#` at its start.
pub open spec fn without_hashes(w: Seq<char>) -> Seq<char>
    decreases w.len(),
{
    if w.len() > 0 && w[0] == '#' {
        without_hashes(w.drop_first())
    } else {
        w
    }
}

/// The tags that an inline value names: brackets are dropped, commas are
/// spaces, and each word loses the `#` at its start.
pub open spec fn inline_tags(value: Seq<char>) -> Seq<Seq<char>> {
    words_of(replaced(without_brackets(value), ',', ' ')).map_values(
        |w: Seq<char>| without_hashes(w),
    )
}

/// A line of the front matter with an inline value under `tag` or `tags`
/// rewritten as a YAML list; any other line as it is. A value is inline
/// where, behind the colon and any spaces and tabs, a character stands that
/// is no white space.
pub open spec fn tag_line(line: Seq<char>) -> Seq<char> {
    let k = tag_key_len(line);
    if k == 0 {
        line
    } else {
        match value_start(line, k + 1, gap_end(line, k + 1)) {
            Some(p) => line.subrange(0, k) + ": ["@ + joined(
                inline_tags(line.subrange(p, line.len() as int)),
                ", "@,
            ) + "]"@,
            None => line,
        }
    }
}

/// The front matter with its tag lines rewritten.
pub open spec fn tags_normalized(block: Seq<char>) -> Seq<char> {
    joined(segments_of(block).map_values(|line: Seq<char>| tag_line(line)), "\n"@)
}

/// The mapping that the first `n` entries of a YAML mapping give: each
/// entry whose key is a text, in document order; a key that comes again
/// keeps its place and takes the later value.
pub open spec fn mapping_fields(raw: Seq<(RawView, RawView)>, n: int) -> Entries
    decreases n,
{
    if n <= 0 {
        Seq::empty()
    } else {
        match raw[n - 1].0 {
            RawView::Text(key) => put(mapping_fields(raw, n - 1), key, value_of(raw[n - 1].1)),
            _ => mapping_fields(raw, n - 1),
        }
    }
}

/// The mapping that a YAML document gives: that of its entries where it is
/// a mapping, else the empty one.
pub open spec fn document_fields(raw: RawView) -> Entries {
    match raw {
        RawView::Mapping(items, _) => mapping_fields(items, items.len() as int),
        _ => Seq::empty(),
    }
}

/// What the front matter of a file gives: the metadata and the file without
/// the block. A file without a block, or with a block that is no YAML,
/// gives no metadata and stays whole.
pub open spec fn metadata_of(t: Seq<char>) -> (Option<Entries>, Seq<char>) {
    match front_block(t) {
        Some((i, j)) => match front_document(tags_normalized(t.subrange(i + 4, j))) {
            Some(raw) => (
                Some(document_fields(raw)),
                t.subrange(0, i) + t.subrange(j + 4, t.len() as int),
            ),
            None => (None, t),
        },
        None => (None, t),
    }
}

/// The pieces of `t` between its line feeds.
pub fn split_segments(t: &Vec<char>) -> (r: Vec<Vec<char>>)
    ensures
        texts_view(r@) == segments_of(t@),
{
    let mut out: Vec<Vec<char>> = Vec::new();
    let mut start: usize = 0;
    assert(t@.subrange(0, t.len() as int) =~= t@);
    assert(texts_view(out@) =~= Seq::empty());
    loop
        invariant_except_break
            segments_of(t@) == texts_view(out@) + segments_of(
                t@.subrange(start as int, t.len() as int),
            ),
        invariant
            start <= t.len(),
        ensures
            texts_view(out@) == segments_of(t@),
        decreases t.len() - start,
    {
        let ghost rest = t@.subrange(start as int, t.len() as int);
        let ghost found = texts_view(out@);
        let end = find_char(t, start, '\n');
        let piece = slice(t, start, end);
        out.push(piece);
        if end < t.len() {
            assert(rest.subrange(0, end - start) =~= piece@);
            assert(rest.subrange(end - start + 1, rest.len() as int) =~= t@.subrange(
                end + 1,
                t.len() as int,
            ));
            assert(texts_view(out@) =~= found + seq![piece@]);
            start = end + 1;
        } else {
            assert(piece@ =~= rest);
            assert(texts_view(out@) =~= found + seq![rest]);
            break ;
        }
    }
    out
}

fn end_of_gap(t: &Vec<char>, from: usize) -> (r: usize)
    requires
        from <= t.len(),
    ensures
        from <= r <= t.len(),
        r == gap_end(t@, from as int),
{
    let mut i: usize = from;
    while i < t.len() && (t[i] == ' ' || t[i] == '\t')
        invariant
            from <= i <= t.len(),
            gap_end(t@, from as int) == gap_end(t@, i as int),
        decreases t.len() - i,
    {
        i += 1;
    }
    i
}

fn start_of_value(t: &Vec<char>, lo: usize, hi: usize) -> (r: Option<usize>)
    requires
        lo <= hi <= t.len(),
    ensures
        match r {
            Some(p) => value_start(t@, lo as int, hi as int) == Some(p as int) && lo <= p < t.len(),
            None => value_start(t@, lo as int, hi as int) is None,
        },
{
    let mut i: usize = hi;
    loop
        invariant
            lo <= i <= hi <= t.len(),
            value_start(t@, lo as int, hi as int) == value_start(t@, lo as int, i as int),
        decreases i - lo,
    {
        if i < t.len() && !in_class("\\s", t[i]) {
            return Some(i);
        }
        if i == lo {
            assert(value_start(t@, lo as int, lo - 1) is None);
            return None;
        }
        i -= 1;
    }
}

fn strip_brackets(s: &Vec<char>) -> (r: Vec<char>)
    ensures
        r@ == without_brackets(s@),
{
    let mut out: Vec<char> = Vec::new();
    let mut i: usize = 0;
    assert(s@.take(0) =~= Seq::empty());
    while i < s.len()
        invariant
            i <= s.len(),
            out@ == without_brackets(s@.take(i as int)),
        decreases s.len() - i,
    {
        assert(s@.take(i + 1).drop_last() =~= s@.take(i as int));
        if s[i] != '[' && s[i] != ']' {
            out.push(s[i]);
        }
        i += 1;
    }
    assert(s@.take(s.len() as int) =~= s@);
    out
}

fn strip_hashes(w: &Vec<char>) -> (r: Vec<char>)
    ensures
        r@ == without_hashes(w@),
{
    let mut i: usize = 0;
    assert(w@.subrange(0, w.len() as int) =~= w@);
    while i < w.len() && w[i] == '#'
        invariant
            i <= w.len(),
            without_hashes(w@) == without_hashes(w@.subrange(i as int, w.len() as int)),
        decreases w.len() - i,
    {
        assert(w@.subrange(i as int, w.len() as int).drop_first() =~= w@.subrange(
            i + 1,
            w.len() as int,
        ));
        i += 1;
    }
    slice(w, i, w.len())
}

fn normalize_tag_line(line: &Vec<char>) -> (r: Vec<char>)
    ensures
        r@ == tag_line(line@),
{
    proof {
        reveal_strlit("tag:");
        reveal_strlit("tags:");
    }
    let k: usize = if starts_at(line, 0, &to_chars("tag:")) {
        3
    } else if starts_at(line, 0, &to_chars("tags:")) {
        4
    } else {
        return slice(line, 0, line.len());
    };
    let gap = end_of_gap(line, k + 1);
    let p = match start_of_value(line, k + 1, gap) {
        Some(p) => p,
        None => {
            return slice(line, 0, line.len());
        },
    };
    let value = slice(line, p, line.len());
    let words = split_words(&replace_char(&strip_brackets(&value), ',', ' '));
    let mut tags: Vec<Vec<char>> = Vec::new();
    let mut i: usize = 0;
    while i < words.len()
        invariant
            i <= words.len(),
            tags.len() == i,
            forall|j: int| 0 <= j < i ==> tags[j]@ == without_hashes(words[j]@),
        decreases words.len() - i,
    {
        tags.push(strip_hashes(&words[i]));
        i += 1;
    }
    assert(texts_view(tags@) =~= inline_tags(value@));
    let mut out = slice(line, 0, k);
    push_str(&mut out, ": [");
    push_all(&mut out, &join(&tags, &to_chars(", ")));
    push_str(&mut out, "]");
    out
}

/// Rewrites the tag lines of a front matter block.
pub fn normalize_tags(text: &str) -> (r: String)
    ensures
        r@ == tags_normalized(text@),
{
    let lines = split_segments(&to_chars(text));
    let mut fixed: Vec<Vec<char>> = Vec::new();
    let mut i: usize = 0;
    while i < lines.len()
        invariant
            i <= lines.len(),
            fixed.len() == i,
            forall|j: int| 0 <= j < i ==> fixed[j]@ == tag_line(lines[j]@),
        decreases lines.len() - i,
    {
        fixed.push(normalize_tag_line(&lines[i]));
        i += 1;
    }
    assert(texts_view(fixed@) =~= texts_view(lines@).map_values(|line: Seq<char>| tag_line(line)));
    to_string(&join(&fixed, &to_chars("\n")))
}

/// The mapping that a YAML document gives.
pub fn yaml_to_map(val: &RawYaml) -> (r: Fields)
    ensures
        entries(r) == document_fields(val@),
{
    let mut map = fields_new();
    if let RawYaml::Mapping(items, _) = val {
        let ghost raw = raw_entries(items@);
        let mut i: usize = 0;
        while i < items.len()
            invariant
                i <= items.len(),
                raw == raw_entries(items@),
                entries(map) == mapping_fields(raw, i as int),
            decreases items.len() - i,
        {
            assert(raw[i as int] == (items[i as int].0@, items[i as int].1@));
            if let RawYaml::Text(key) = &items[i].0 {
                fields_insert(&mut map, key.clone(), YamlValue::from_yaml(&items[i].1));
            }
            i += 1;
        }
    }
    map
}

/// Takes the front matter off a file: the metadata that it gives, and the
/// file without the block.
pub fn extract_metadata(content: &str) -> (r: (Option<Fields>, String))
    ensures
        r.1@ == metadata_of(content@).1,
        match r.0 {
            Some(m) => metadata_of(content@).0 == Some(entries(m)),
            None => metadata_of(content@).0 is None,
        },
{
    let t = to_chars(content);
    proof {
        reveal_strlit("---\n");
        reveal_strlit("\n---");
        lemma_find_at(t@, 0, "---\n"@);
    }
    let i = match find(&t, 0, &to_chars("---\n")) {
        Some(i) => i,
        None => {
            return (None, to_string(&t));
        },
    };
    let len = t.len();
    assert(has_at(t@, i as int, "---\n"@));
    proof {
        lemma_find_at(t@, i + 4, "\n---"@);
    }
    let j = match find(&t, i + 4, &to_chars("\n---")) {
        Some(j) => j,
        None => {
            return (None, to_string(&t));
        },
    };
    assert(has_at(t@, j as int, "\n---"@));
    let block = to_string(&slice(&t, i + 4, j));
    let yaml = match parse_front_yaml(normalize_tags(block.as_str()).as_str()) {
        Some(y) => y,
        None => {
            return (None, to_string(&t));
        },
    };
    let metadata = yaml_to_map(&yaml);
    let without = concat(&slice(&t, 0, i), &slice(&t, j + 4, len));
    (Some(metadata), to_string(&without))
}

} // verus!
