//! The back matter: the reference fields behind the last fence of a file,
//! written as a list of mappings with one entry each.

use vstd::prelude::*;

use crate::fields::{
    entries, fields_get, fields_insert, fields_new, has_key, lemma_find_key, lemma_put, lookup,
    put, Entries, Fields,
};
use crate::pattern::{in_class, is_blank};
use crate::text::{
    contains_char, find, find_at, find_char, find_last, has_at, has_char, index_of, join,
    joined, lemma_find_at, lemma_index_of, lines_of, push_all, push_str, rfind, slice,
    split_lines, starts_at, strip_trailing, texts_view, to_chars, to_string, trim, trim_end,
    trim_end_of, trim_of, without_trailing,
};
use crate::types::{list_view, ValueView, YamlValue};
use crate::yaml::{back_document, parse_back_yaml, raw_entries, raw_items, value_of, RawView, RawYaml};

verus! {

/// The number of characters in a row in `t`, from index `i` on, that are
/// not in the class `\s`.
pub open spec fn solid_run(t: Seq<char>, i: int) -> int
    decreases t.len() - i,
{
    if 0 <= i < t.len() && !is_blank(t[i]) {
        1 + solid_run(t, i + 1)
    } else {
        0
    }
}

/// The greatest index from `lo` to `hi` at which `::` stands in `t`.
pub open spec fn last_double_colon(t: Seq<char>, lo: int, hi: int) -> Option<int>
    decreases hi - lo + 1,
{
    if hi < lo {
        None
    } else if has_at(t, hi, "::"@) {
        Some(hi)
    } else {
        last_double_colon(t, lo, hi - 1)
    }
}

/// A line with the double colon behind its key made a single one. The key
/// is the longest run of characters that are no white space, from the start
/// of the line, that a double colon follows.
pub open spec fn dataview_line(line: Seq<char>) -> Seq<char> {
    match last_double_colon(line, 1, solid_run(line, 0)) {
        Some(k) => line.subrange(0, k) + ":"@ + line.subrange(k + 2, line.len() as int),
        None => line,
    }
}

/// A text with the dataview keys of its lines fixed.
pub open spec fn dataview_fixed(text: Seq<char>) -> Seq<char> {
    joined(lines_of(text).map_values(|line: Seq<char>| dataview_line(line)), "\n"@)
}

/// Whether a value has to be put in double quotes: it holds a colon or a
/// square bracket, and neither begins nor ends with a double quote.
pub open spec fn needs_quoting(value: Seq<char>) -> bool {
    (has_char(value, ':') || has_char(value, '[') || has_char(value, ']')) && !(value.len() > 0
        && value[0] == '"') && !(value.len() > 0 && value.last() == '"')
}

/// A line with its value quoted where it has to be. A line without a colon
/// stays as it is. Any other line is cut at its first colon followed by a
/// space, or, where there is none, has the text before its first colon as
/// key and an empty value; it is written as the key, a colon, a space, and
/// the value.
pub open spec fn quoted_line(line: Seq<char>) -> Seq<char> {
    if !has_char(line, ':') {
        line
    } else {
        let key = match find_at(line, 0, ": "@) {
            Some(i) => line.subrange(0, i),
            None => line.subrange(0, index_of(line, ':')),
        };
        let value = match find_at(line, 0, ": "@) {
            Some(i) => line.subrange(i + 2, line.len() as int),
            None => Seq::empty(),
        };
        if needs_quoting(value) {
            key + ": \""@ + value + "\""@
        } else {
            key + ": "@ + value
        }
    }
}

/// A text with the values of its lines quoted where they have to be.
pub open spec fn unsafe_quoted(text: Seq<char>) -> Seq<char> {
    joined(lines_of(text).map_values(|line: Seq<char>| quoted_line(line)), "\n"@)
}

/// `acc` with `value` merged in under `key`: a new key is a new last entry;
/// a key that is there keeps its place, and its value becomes a list: the
/// list that it was, with `value` at its end, or what it was and `value`.
pub open spec fn merged(acc: Entries, key: Seq<char>, value: ValueView) -> Entries {
    match lookup(acc, key) {
        Some(ValueView::List(items)) => put(acc, key, ValueView::List(items.push(value))),
        Some(present) => put(acc, key, ValueView::List(seq![present, value])),
        None => put(acc, key, value),
    }
}

/// `acc` with the first `n` entries of a YAML mapping merged in, in document
/// order. A key loses the colons at its end; an entry whose key is no text
/// is passed over.
pub open spec fn mapping_merged(acc: Entries, raw: Seq<(RawView, RawView)>, n: int) -> Entries
    decreases n,
{
    if n <= 0 {
        acc
    } else {
        match raw[n - 1].0 {
            RawView::Text(key) => merged(
                mapping_merged(acc, raw, n - 1),
                without_trailing(key, ':'),
                value_of(raw[n - 1].1),
            ),
            _ => mapping_merged(acc, raw, n - 1),
        }
    }
}

/// The mapping that the first `n` items of a YAML sequence give: the
/// mappings among them merged in document order; what is no mapping is
/// passed over.
pub open spec fn items_merged(items: Seq<RawView>, n: int) -> Entries
    decreases n,
{
    if n <= 0 {
        Seq::empty()
    } else {
        match items[n - 1] {
            RawView::Mapping(raw, _) => mapping_merged(
                items_merged(items, n - 1),
                raw,
                raw.len() as int,
            ),
            _ => items_merged(items, n - 1),
        }
    }
}

/// The reference that a YAML document gives: its items merged where it is a
/// sequence, else the empty mapping.
pub open spec fn reference_fields(raw: RawView) -> Entries {
    match raw {
        RawView::Sequence(items) => items_merged(items, items.len() as int),
        _ => Seq::empty(),
    }
}

/// Whether a line that is exactly `---` begins at index `p` of `t`.
pub open spec fn fence_at(t: Seq<char>, p: int) -> bool {
    has_at(t, p, "---"@) && (p == 0 || t[p - 1] == '\n') && (p + 3 == t.len() || t[p + 3] == '\n')
}

/// The greatest index up to `upto` at which a fence line begins in `t`.
pub open spec fn last_fence(t: Seq<char>, upto: int) -> Option<int>
    decreases upto + 1,
{
    if upto < 0 {
        None
    } else if fence_at(t, upto) {
        Some(upto)
    } else {
        last_fence(t, upto - 1)
    }
}

/// A file without its back matter: what stands before the last fence line,
/// without the white space at its end.
pub open spec fn without_back_matter(t: Seq<char>) -> Seq<char> {
    match last_fence(t, t.len() as int) {
        Some(p) => trim_end_of(t.subrange(0, p)),
        None => trim_end_of(t),
    }
}

/// What the back matter of a file gives: the reference and the file without
/// the back matter. The back matter is what follows the last fence that
/// stands between two line feeds; it is trimmed, its dataview keys are
/// fixed and its values quoted, and it is read as YAML. A file without such
/// a fence, or with a back matter that is no YAML, gives no reference and
/// stays whole.
pub open spec fn reference_of(t: Seq<char>) -> (Option<Entries>, Seq<char>) {
    match find_last(t, t.len() as int, "\n---\n"@) {
        Some(i) => match back_document(
            unsafe_quoted(dataview_fixed(trim_of(t.subrange(i + 5, t.len() as int)))),
        ) {
            Some(raw) => (Some(reference_fields(raw)), without_back_matter(t)),
            None => (None, t),
        },
        None => (None, t),
    }
}

fn run_of_solid(t: &Vec<char>) -> (r: usize)
    ensures
        r <= t.len(),
        r == solid_run(t@, 0),
{
    let mut i: usize = 0;
    while i < t.len() && !in_class("\\s", t[i])
        invariant
            i <= t.len(),
            solid_run(t@, 0) == i + solid_run(t@, i as int),
        decreases t.len() - i,
    {
        i += 1;
    }
    i
}

fn fix_dataview_line(line: &Vec<char>) -> (r: Vec<char>)
    ensures
        r@ == dataview_line(line@),
{
    let n = run_of_solid(line);
    let colons = to_chars("::");
    proof {
        reveal_strlit("::");
    }
    let mut k: usize = n;
    while k >= 1
        invariant
            k <= n <= line.len(),
            n == solid_run(line@, 0),
            colons@ == "::"@,
            "::"@.len() == 2,
            last_double_colon(line@, 1, n as int) == last_double_colon(line@, 1, k as int),
        decreases k,
    {
        if starts_at(line, k, &colons) {
            let mut out = slice(line, 0, k);
            out.push(':');
            push_all(&mut out, &slice(line, k + 2, line.len()));
            proof {
                reveal_strlit(":");
                assert(":"@ =~= seq![':']);
                assert(out@ =~= line@.subrange(0, k as int) + ":"@ + line@.subrange(
                    k + 2,
                    line.len() as int,
                ));
            }
            return out;
        }
        k -= 1;
    }
    slice(line, 0, line.len())
}

/// Makes the double colon behind the key of each line a single one.
pub fn fix_dataview_keys(text: &str) -> (r: String)
    ensures
        r@ == dataview_fixed(text@),
{
    let lines = split_lines(&to_chars(text));
    let mut fixed: Vec<Vec<char>> = Vec::new();
    let mut i: usize = 0;
    while i < lines.len()
        invariant
            i <= lines.len(),
            fixed.len() == i,
            forall|j: int| 0 <= j < i ==> fixed[j]@ == dataview_line(lines[j]@),
        decreases lines.len() - i,
    {
        fixed.push(fix_dataview_line(&lines[i]));
        i += 1;
    }
    assert(texts_view(fixed@) =~= texts_view(lines@).map_values(
        |line: Seq<char>| dataview_line(line),
    ));
    to_string(&join(&fixed, &to_chars("\n")))
}

fn quote_line(line: &Vec<char>) -> (r: Vec<char>)
    ensures
        r@ == quoted_line(line@),
{
    if !contains_char(line, ':') {
        return slice(line, 0, line.len());
    }
    proof {
        reveal_strlit(": ");
        lemma_find_at(line@, 0, ": "@);
        lemma_index_of(line@, ':');
    }
    let n = line.len();
    let (key, value) = match find(line, 0, &to_chars(": ")) {
        Some(i) => {
            assert(has_at(line@, i as int, ": "@));
            (slice(line, 0, i), slice(line, i + 2, n))
        },
        None => {
            assert(line@.subrange(0, n as int) =~= line@);
            (slice(line, 0, find_char(line, 0, ':')), Vec::new())
        },
    };
    let risky = contains_char(&value, ':') || contains_char(&value, '[') || contains_char(
        &value,
        ']',
    );
    let quoted = value.len() > 0 && (value[0] == '"' || value[value.len() - 1] == '"');
    let mut out = key;
    if risky && !quoted {
        push_str(&mut out, ": \"");
        push_all(&mut out, &value);
        push_str(&mut out, "\"");
    } else {
        push_str(&mut out, ": ");
        push_all(&mut out, &value);
    }
    out
}

/// Puts the values that YAML would misread in double quotes.
pub fn quote_unsafe_strings(text: &str) -> (r: String)
    ensures
        r@ == unsafe_quoted(text@),
{
    let lines = split_lines(&to_chars(text));
    let mut fixed: Vec<Vec<char>> = Vec::new();
    let mut i: usize = 0;
    while i < lines.len()
        invariant
            i <= lines.len(),
            fixed.len() == i,
            forall|j: int| 0 <= j < i ==> fixed[j]@ == quoted_line(lines[j]@),
        decreases lines.len() - i,
    {
        fixed.push(quote_line(&lines[i]));
        i += 1;
    }
    assert(texts_view(fixed@) =~= texts_view(lines@).map_values(
        |line: Seq<char>| quoted_line(line),
    ));
    to_string(&join(&fixed, &to_chars("\n")))
}

/// Merges `value` into `map` under `key`.
pub fn merge_entry(map: &mut Fields, key: String, value: YamlValue)
    ensures
        entries(*final(map)) == merged(entries(*old(map)), key@, value@),
{
    let both: YamlValue = match fields_get(map, key.as_str()) {
        Some(present) => match present.clone() {
            YamlValue::List(list) => {
                let mut list = list;
                let ghost before = list_view(list@);
                list.push(value);
                assert(list_view(list@) =~= before.push(value@));
                YamlValue::List(list)
            },
            other => {
                let mut pair: Vec<YamlValue> = Vec::new();
                pair.push(other);
                pair.push(value);
                assert(list_view(pair@) =~= seq![other@, value@]);
                YamlValue::List(pair)
            },
        },
        None => value,
    };
    fields_insert(map, key, both);
}

fn merge_mapping(map: &mut Fields, items: &Vec<(RawYaml, RawYaml)>)
    ensures
        entries(*final(map)) == mapping_merged(
            entries(*old(map)),
            raw_entries(items@),
            items.len() as int,
        ),
{
    let ghost raw = raw_entries(items@);
    let mut i: usize = 0;
    while i < items.len()
        invariant
            i <= items.len(),
            raw == raw_entries(items@),
            entries(*map) == mapping_merged(entries(*old(map)), raw, i as int),
        decreases items.len() - i,
    {
        assert(raw[i as int] == (items[i as int].0@, items[i as int].1@));
        if let RawYaml::Text(k) = &items[i].0 {
            let key = to_string(&strip_trailing(&to_chars(k.as_str()), ':'));
            merge_entry(map, key, YamlValue::from_yaml(&items[i].1));
        }
        i += 1;
    }
}

/// The reference that a YAML document gives.
pub fn merge_reference_list(val: &RawYaml) -> (r: Fields)
    ensures
        entries(r) == reference_fields(val@),
{
    let mut map = fields_new();
    if let RawYaml::Sequence(items) = val {
        let ghost raw = raw_items(items@);
        let mut i: usize = 0;
        while i < items.len()
            invariant
                i <= items.len(),
                raw == raw_items(items@),
                entries(map) == items_merged(raw, i as int),
            decreases items.len() - i,
        {
            assert(raw[i as int] == items[i as int]@);
            if let RawYaml::Mapping(pairs, _) = &items[i] {
                merge_mapping(&mut map, pairs);
            }
            i += 1;
        }
    }
    map
}

fn fence_stands_at(t: &Vec<char>, p: usize, fence: &Vec<char>) -> (r: bool)
    requires
        fence@ == "---"@,
        "---"@.len() == 3,
    ensures
        r == fence_at(t@, p as int),
{
    let n = t.len();
    if !starts_at(t, p, fence) {
        return false;
    }
    (p == 0 || t[p - 1] == '\n') && (p + 3 == n || t[p + 3] == '\n')
}

/// Cuts the back matter off a file.
pub fn remove_back_matter(content: &str) -> (r: String)
    ensures
        r@ == without_back_matter(content@),
{
    let t = to_chars(content);
    let fence = to_chars("---");
    proof {
        reveal_strlit("---");
    }
    let mut p: usize = t.len();
    loop
        invariant
            p <= t.len(),
            t@ == content@,
            fence@ == "---"@,
            "---"@.len() == 3,
            last_fence(t@, t.len() as int) == last_fence(t@, p as int),
        decreases p,
    {
        if fence_stands_at(&t, p, &fence) {
            return to_string(&trim_end(&slice(&t, 0, p)));
        }
        if p == 0 {
            assert(last_fence(t@, -1) is None);
            return to_string(&trim_end(&t));
        }
        p -= 1;
    }
}

/// Takes the back matter off a file: the reference that it gives, and the
/// file without it.
pub fn extract_reference(content: &str) -> (r: (Option<Fields>, String))
    ensures
        r.1@ == reference_of(content@).1,
        match r.0 {
            Some(m) => reference_of(content@).0 == Some(entries(m)),
            None => reference_of(content@).0 is None,
        },
{
    let t = to_chars(content);
    proof {
        reveal_strlit("\n---\n");
    }
    let n = t.len();
    let i = match rfind(&t, &to_chars("\n---\n")) {
        Some(i) => i,
        None => {
            return (None, to_string(&t));
        },
    };
    let raw = to_string(&trim(&slice(&t, i + 5, n)));
    let preprocessed = quote_unsafe_strings(fix_dataview_keys(raw.as_str()).as_str());
    let yaml = match parse_back_yaml(preprocessed.as_str()) {
        Some(y) => y,
        None => {
            return (None, to_string(&t));
        },
    };
    (Some(merge_reference_list(&yaml)), remove_back_matter(content))
}

/// The keys of a mapping, in its order.
pub open spec fn keys_of(e: Entries) -> Seq<Seq<char>> {
    Seq::new(e.len(), |i: int| e[i].0)
}

/// Merging keeps the keys in the order in which they first came: a key
/// that is there stays in its place, a new key goes to the end.
pub proof fn lemma_merged_keeps_order(acc: Entries, key: Seq<char>, value: ValueView)
    ensures
        keys_of(merged(acc, key, value)) == if has_key(acc, key) {
            keys_of(acc)
        } else {
            keys_of(acc).push(key)
        },
{
    lemma_find_key(acc, key);
    assert(keys_of(merged(acc, key, value)) =~= if has_key(acc, key) {
        keys_of(acc)
    } else {
        keys_of(acc).push(key)
    });
}

/// A key that comes three times, the first time with a value that is no
/// list, ends with the list of the three values.
pub proof fn lemma_merged_thrice(
    acc: Entries,
    key: Seq<char>,
    first: ValueView,
    second: ValueView,
    third: ValueView,
)
    requires
        !has_key(acc, key),
        !(first is List),
    ensures
        lookup(merged(merged(merged(acc, key, first), key, second), key, third), key) == Some(
            ValueView::List(seq![first, second, third]),
        ),
{
    let a1 = merged(acc, key, first);
    lemma_put(acc, key, first, key);
    let a2 = merged(a1, key, second);
    lemma_put(a1, key, ValueView::List(seq![first, second]), key);
    lemma_put(a2, key, ValueView::List(seq![first, second].push(third)), key);
    assert(seq![first, second].push(third) =~= seq![first, second, third]);
}

} // verus!
