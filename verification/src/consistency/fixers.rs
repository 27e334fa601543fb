//! The fixers of the consistency stage: tags, title, first heading, and the
//! extras that project notes get.

use vstd::prelude::*;
use vstd::string::*;

use crate::fields::{
    fields_contains_key, fields_get, fields_insert, fields_remove, has_key, lookup, put, without,
    Entries,
};
use crate::text::{
    concat, has_at, join, joined, lines_of, push_all, same_str, slice, split_lines, starts_at,
    texts_view, to_chars, to_string, trim, trim_of, upper, upper_of,
};
use crate::types::{list_view, sections_view, NoteView, ValueView, YamlValue, ZettelData};

verus! {

/// `items` with every string kept where it first occurs and dropped where it
/// occurs again; what is no string is always kept.
pub open spec fn deduped(items: Seq<ValueView>) -> Seq<ValueView>
    decreases items.len(),
{
    if items.len() == 0 {
        items
    } else if items.last() is Str && items.drop_last().contains(items.last()) {
        deduped(items.drop_last())
    } else {
        deduped(items.drop_last()).push(items.last())
    }
}

/// The entries with the list under `tags` deduplicated.
pub open spec fn without_duplicate_tags(e: Entries) -> Entries {
    match lookup(e, "tags"@) {
        Some(ValueView::List(items)) => put(e, "tags"@, ValueView::List(deduped(items))),
        _ => e,
    }
}

fn text_occurs_before(items: &Vec<YamlValue>, i: usize, t: &str) -> (r: bool)
    requires
        i < items.len(),
        items[i as int]@ == ValueView::Str(t@),
    ensures
        r == list_view(items@).take(i as int).contains(items[i as int]@),
{
    let ghost before = list_view(items@).take(i as int);
    let mut j: usize = 0;
    while j < i
        invariant
            j <= i < items.len(),
            items[i as int]@ == ValueView::Str(t@),
            before == list_view(items@).take(i as int),
            forall|m: int| 0 <= m < j ==> before[m] != items[i as int]@,
        decreases i - j,
    {
        let found = match &items[j] {
            YamlValue::String(s) => same_str(s.as_str(), t),
            _ => false,
        };
        if found {
            assert(before[j as int] == items[i as int]@);
            return true;
        }
        j += 1;
    }
    false
}

fn dedupe(items: &Vec<YamlValue>) -> (r: Vec<YamlValue>)
    ensures
        list_view(r@) == deduped(list_view(items@)),
{
    let mut out: Vec<YamlValue> = Vec::new();
    let mut i: usize = 0;
    assert(list_view(out@) =~= list_view(items@).take(0));
    while i < items.len()
        invariant
            i <= items.len(),
            list_view(out@) == deduped(list_view(items@).take(i as int)),
        decreases items.len() - i,
    {
        let ghost done = list_view(items@).take(i as int);
        let ghost next = list_view(items@).take(i + 1);
        let ghost kept = list_view(out@);
        assert(next.drop_last() =~= done);
        assert(next.last() == items[i as int]@);
        let again = match &items[i] {
            YamlValue::String(s) => text_occurs_before(items, i, s.as_str()),
            _ => false,
        };
        if !again {
            out.push(items[i].clone());
            assert(list_view(out@) =~= kept.push(items[i as int]@));
        }
        i += 1;
    }
    assert(list_view(items@).take(items.len() as int) =~= list_view(items@));
    out
}

/// Keeps each string of `tags` where it first occurs and drops it where it
/// occurs again; items that are no strings are kept.
pub fn remove_duplicate_tags(data: &mut ZettelData)
    ensures
        final(data)@ == (NoteView {
            metadata: without_duplicate_tags(old(data)@.metadata),
            ..old(data)@
        }),
{
    let kept: Vec<YamlValue> = match fields_get(&data.metadata, "tags") {
        Some(YamlValue::List(items)) => dedupe(items),
        _ => {
            return ;
        },
    };
    fields_insert(&mut data.metadata, String::from_str("tags"), YamlValue::List(kept));
}

/// The text by which a tag is ordered: a string is its own key, anything
/// else has the empty key.
pub open spec fn sort_key(v: ValueView) -> Seq<char> {
    match v {
        ValueView::Str(s) => s,
        _ => Seq::empty(),
    }
}

/// Whether `a` comes before `b`, or is `b`, in the order of texts: the order
/// of the code points at the first place where they differ, a text coming
/// before any that it starts. This is the order of the texts' UTF-8 bytes.
pub open spec fn text_le(a: Seq<char>, b: Seq<char>) -> bool
    decreases a.len(),
{
    if a.len() == 0 {
        true
    } else if b.len() == 0 {
        false
    } else if a[0] != b[0] {
        a[0] < b[0]
    } else {
        text_le(a.drop_first(), b.drop_first())
    }
}

/// `sorted` with `v` put behind the last item whose key does not come after
/// the key of `v`.
pub open spec fn inserted(sorted: Seq<ValueView>, v: ValueView) -> Seq<ValueView>
    decreases sorted.len(),
{
    if sorted.len() == 0 {
        seq![v]
    } else if text_le(sort_key(sorted.last()), sort_key(v)) {
        sorted.push(v)
    } else {
        inserted(sorted.drop_last(), v).push(sorted.last())
    }
}

/// `items` in the order of their keys; items with the same key keep the
/// order that they had.
pub open spec fn sorted_by_key(items: Seq<ValueView>) -> Seq<ValueView>
    decreases items.len(),
{
    if items.len() == 0 {
        items
    } else {
        inserted(sorted_by_key(items.drop_last()), items.last())
    }
}

/// The entries with the list under `tags` in the order of the keys.
pub open spec fn with_sorted_tags(e: Entries) -> Entries {
    match lookup(e, "tags"@) {
        Some(ValueView::List(items)) => put(e, "tags"@, ValueView::List(sorted_by_key(items))),
        _ => e,
    }
}

/// Where `v` goes: behind index `p - 1`, whose key does not come after, and
/// before everything from `p` on, whose keys do.
pub proof fn lemma_inserted_at(s: Seq<ValueView>, v: ValueView, p: int)
    requires
        0 <= p <= s.len(),
        forall|j: int| p <= j < s.len() ==> !text_le(sort_key(s[j]), sort_key(v)),
        p > 0 ==> text_le(sort_key(s[p - 1]), sort_key(v)),
    ensures
        inserted(s, v) == s.insert(p, v),
    decreases s.len() - p,
{
    if s.len() == 0 {
        assert(s.insert(p, v) =~= seq![v]);
    } else if p == s.len() {
        assert(s.insert(p, v) =~= s.push(v));
    } else {
        lemma_inserted_at(s.drop_last(), v, p);
        assert(s.insert(p, v) =~= s.drop_last().insert(p, v).push(s.last()));
    }
}

fn key_le(a: &Vec<char>, b: &Vec<char>) -> (r: bool)
    ensures
        r == text_le(a@, b@),
{
    let mut i: usize = 0;
    assert(a@.subrange(0, a.len() as int) =~= a@);
    assert(b@.subrange(0, b.len() as int) =~= b@);
    while i < a.len() && i < b.len() && a[i] == b[i]
        invariant
            i <= a.len(),
            i <= b.len(),
            text_le(a@, b@) == text_le(
                a@.subrange(i as int, a.len() as int),
                b@.subrange(i as int, b.len() as int),
            ),
        decreases a.len() - i,
    {
        assert(a@.subrange(i as int, a.len() as int).drop_first() =~= a@.subrange(
            i + 1,
            a.len() as int,
        ));
        assert(b@.subrange(i as int, b.len() as int).drop_first() =~= b@.subrange(
            i + 1,
            b.len() as int,
        ));
        i += 1;
    }
    if i == a.len() {
        true
    } else if i == b.len() {
        false
    } else {
        a[i] < b[i]
    }
}

fn key_of(v: &YamlValue) -> (r: Vec<char>)
    ensures
        r@ == sort_key(v@),
{
    match v {
        YamlValue::String(s) => to_chars(s.as_str()),
        _ => Vec::new(),
    }
}

fn sort_values(items: &Vec<YamlValue>) -> (r: Vec<YamlValue>)
    ensures
        list_view(r@) == sorted_by_key(list_view(items@)),
{
    let mut out: Vec<YamlValue> = Vec::new();
    let mut i: usize = 0;
    assert(list_view(out@) =~= list_view(items@).take(0));
    while i < items.len()
        invariant
            i <= items.len(),
            list_view(out@) == sorted_by_key(list_view(items@).take(i as int)),
        decreases items.len() - i,
    {
        let ghost done = list_view(items@).take(i as int);
        let ghost next = list_view(items@).take(i + 1);
        let ghost placed = list_view(out@);
        assert(next.drop_last() =~= done);
        assert(next.last() == items[i as int]@);
        let v = items[i].clone();
        let key = key_of(&v);
        let mut p: usize = out.len();
        while p > 0 && !key_le(&key_of(&out[p - 1]), &key)
            invariant
                p <= out.len(),
                key@ == sort_key(v@),
                placed == list_view(out@),
                forall|j: int| p <= j < out.len() ==> !text_le(sort_key(placed[j]), sort_key(v@)),
            decreases p,
        {
            p -= 1;
        }
        proof {
            lemma_inserted_at(placed, v@, p as int);
        }
        out.insert(p, v);
        assert(list_view(out@) =~= placed.insert(p as int, v@));
        i += 1;
    }
    assert(list_view(items@).take(items.len() as int) =~= list_view(items@));
    out
}

/// Puts the items of `tags` in ascending order of their text; an item that
/// is no string is ordered as the empty text, and items with the same text
/// keep their order.
pub fn sort_tags(data: &mut ZettelData)
    ensures
        final(data)@ == (NoteView { metadata: with_sorted_tags(old(data)@.metadata), ..old(data)@ }),
{
    let sorted: Vec<YamlValue> = match fields_get(&data.metadata, "tags") {
        Some(YamlValue::List(items)) => sort_values(items),
        _ => {
            return ;
        },
    };
    fields_insert(&mut data.metadata, String::from_str("tags"), YamlValue::List(sorted));
}

/// `t` with its first character in upper case.
pub open spec fn capitalized(t: Seq<char>) -> Seq<char> {
    if t.len() == 0 {
        t
    } else {
        upper_of(t[0]) + t.drop_first()
    }
}

/// The entries with the string under `title` trimmed and capitalized; a
/// title that is empty once trimmed is left as it is.
pub open spec fn with_formatted_title(e: Entries) -> Entries {
    match lookup(e, "title"@) {
        Some(ValueView::Str(t)) => if trim_of(t).len() == 0 {
            e
        } else {
            put(e, "title"@, ValueView::Str(capitalized(trim_of(t))))
        },
        _ => e,
    }
}

/// `t` with its first character in upper case. A text that is not empty
/// stays so.
pub fn capitalize(t: &Vec<char>) -> (r: Vec<char>)
    ensures
        r@ == capitalized(t@),
        t.len() > 0 ==> r.len() > 0,
{
    if t.len() == 0 {
        return slice(t, 0, 0);
    }
    let mut out = upper(t[0]);
    let rest = slice(t, 1, t.len());
    push_all(&mut out, &rest);
    assert(t@.drop_first() =~= t@.subrange(1, t.len() as int));
    out
}

/// Trims the string under `title` and puts its first character in upper
/// case; the rest of it is unchanged. A title that is not blank is not
/// empty afterwards.
pub fn fix_title_format(data: &mut ZettelData)
    ensures
        final(data)@ == (NoteView {
            metadata: with_formatted_title(old(data)@.metadata),
            ..old(data)@
        }),
        (lookup(old(data)@.metadata, "title"@) matches Some(ValueView::Str(t)) && trim_of(t).len()
            > 0) ==> (lookup(final(data)@.metadata, "title"@) matches Some(ValueView::Str(u))
            && u.len() > 0),
{
    let title: Vec<char> = match fields_get(&data.metadata, "title") {
        Some(YamlValue::String(t)) => {
            let trimmed = trim(&to_chars(t.as_str()));
            if trimmed.len() == 0 {
                return ;
            }
            capitalize(&trimmed)
        },
        _ => {
            return ;
        },
    };
    proof {
        crate::fields::lemma_put(
            old(data)@.metadata,
            "title"@,
            ValueView::Str(title@),
            "title"@,
        );
    }
    fields_insert(&mut data.metadata, String::from_str("title"), YamlValue::String(to_string(&title)));
}

/// The note with `# ` and its title as the heading of its first section,
/// which is made, with an empty body, where the note has no section. A note
/// whose title is no string is left as it is.
pub open spec fn aligned(n: NoteView) -> NoteView {
    match lookup(n.metadata, "title"@) {
        Some(ValueView::Str(t)) => NoteView {
            sections: if n.sections.len() > 0 {
                n.sections.update(0, ("# "@ + t, n.sections[0].1))
            } else {
                seq![("# "@ + t, Seq::empty())]
            },
            ..n
        },
        _ => n,
    }
}

/// Makes the heading of the first section `# ` followed by the title.
pub fn align_h1_to_title(data: &mut ZettelData)
    ensures
        final(data)@ == aligned(old(data)@),
{
    let heading: String = match fields_get(&data.metadata, "title") {
        Some(YamlValue::String(t)) => {
            let mut h = to_chars("# ");
            push_all(&mut h, &to_chars(t.as_str()));
            to_string(&h)
        },
        _ => {
            return ;
        },
    };
    let ghost before = old(data)@.sections;
    if data.sections.len() > 0 {
        let body = data.sections[0].1.clone();
        data.sections.set(0, (heading, body));
        assert(data@.sections =~= before.update(0, (heading@, before[0].1)));
    } else {
        data.sections.push((heading, String::new()));
        assert(data@.sections =~= seq![(heading@, Seq::<char>::empty())]);
    }
}

/// A line with its bullet normalised: `* ` at its start becomes `- `, and
/// what follows is trimmed; any other line is trimmed.
pub open spec fn bullet_line(line: Seq<char>) -> Seq<char> {
    if has_at(line, 0, "* "@) {
        "- "@ + trim_of(line.subrange(2, line.len() as int))
    } else {
        trim_of(line)
    }
}

/// A body with each of its lines normalised, joined by line feeds.
pub open spec fn fixed_bullets(body: Seq<char>) -> Seq<char> {
    joined(lines_of(body).map_values(|line: Seq<char>| bullet_line(line)), "\n"@)
}

/// The sections with the bullets of every body normalised.
pub open spec fn with_fixed_bullets(sections: Seq<(Seq<char>, Seq<char>)>) -> Seq<
    (Seq<char>, Seq<char>),
> {
    Seq::new(sections.len(), |i: int| (sections[i].0, fixed_bullets(sections[i].1)))
}

fn fix_bullet_line(line: &Vec<char>) -> (r: Vec<char>)
    ensures
        r@ == bullet_line(line@),
{
    let star = to_chars("* ");
    proof {
        reveal_strlit("* ");
    }
    if starts_at(line, 0, &star) {
        let rest = trim(&slice(line, 2, line.len()));
        concat(&to_chars("- "), &rest)
    } else {
        trim(line)
    }
}

fn fix_bullets(body: &str) -> (r: String)
    ensures
        r@ == fixed_bullets(body@),
{
    let lines = split_lines(&to_chars(body));
    let mut fixed: Vec<Vec<char>> = Vec::new();
    let mut i: usize = 0;
    while i < lines.len()
        invariant
            i <= lines.len(),
            fixed.len() == i,
            forall|j: int| 0 <= j < i ==> fixed[j]@ == bullet_line(lines[j]@),
        decreases lines.len() - i,
    {
        fixed.push(fix_bullet_line(&lines[i]));
        i += 1;
    }
    assert(texts_view(fixed@) =~= texts_view(lines@).map_values(
        |line: Seq<char>| bullet_line(line),
    ));
    to_string(&join(&fixed, &to_chars("\n")))
}

/// Rewrites the bullet `* ` to `- ` at the start of every line of every
/// body, and trims the lines.
pub fn fix_lists_bullets(data: &mut ZettelData)
    ensures
        final(data)@ == (NoteView {
            sections: with_fixed_bullets(old(data)@.sections),
            ..old(data)@
        }),
{
    let ghost before = old(data)@.sections;
    let mut i: usize = 0;
    while i < data.sections.len()
        invariant
            i <= data.sections.len(),
            data.sections.len() == before.len(),
            data.metadata == old(data).metadata,
            data.reference == old(data).reference,
            data.file_path == old(data).file_path,
            forall|j: int|
                0 <= j < i ==> (#[trigger] data.sections@[j]).0@ == before[j].0
                    && data.sections@[j].1@ == fixed_bullets(before[j].1),
            forall|j: int|
                i <= j < before.len() ==> (#[trigger] data.sections@[j]).0@ == before[j].0
                    && data.sections@[j].1@ == before[j].1,
        decreases data.sections.len() - i,
    {
        let heading = data.sections[i].0.clone();
        let body = fix_bullets(data.sections[i].1.as_str());
        data.sections.set(i, (heading, body));
        i += 1;
    }
    assert(data@.sections =~= with_fixed_bullets(before));
}

/// The entries with `completed` settled: `true` stays; a `gtd-list` that is
/// the string `completed` is taken out and makes it `true`; a missing key
/// becomes `false`.
pub open spec fn with_completed(e: Entries) -> Entries {
    if lookup(e, "completed"@) == Some(ValueView::Bool(true)) {
        e
    } else if lookup(e, "gtd-list"@) == Some(ValueView::Str("completed"@)) {
        without(put(e, "completed"@, ValueView::Bool(true)), "gtd-list"@)
    } else if !has_key(e, "completed"@) {
        put(e, "completed"@, ValueView::Bool(false))
    } else {
        e
    }
}

/// Settles `completed` for a project note.
pub fn set_default_completed(data: &mut ZettelData)
    ensures
        final(data)@ == (NoteView { metadata: with_completed(old(data)@.metadata), ..old(data)@ }),
{
    if let Some(YamlValue::Bool(true)) = fields_get(&data.metadata, "completed") {
        return ;
    }
    let done = match fields_get(&data.metadata, "gtd-list") {
        Some(YamlValue::String(s)) => same_str(s.as_str(), "completed"),
        _ => false,
    };
    if done {
        fields_insert(&mut data.metadata, String::from_str("completed"), YamlValue::Bool(true));
        let _ = fields_remove(&mut data.metadata, "gtd-list");
    } else if !fields_contains_key(&data.metadata, "completed") {
        fields_insert(&mut data.metadata, String::from_str("completed"), YamlValue::Bool(false));
    }
}

/// Whether a heading is a first-level heading.
pub open spec fn is_h1(heading: Seq<char>) -> bool {
    has_at(heading, 0, "# "@)
}

/// The least index of a section under a first-level heading, or `s.len()`.
pub open spec fn first_h1_at(s: Seq<(Seq<char>, Seq<char>)>) -> int
    decreases s.len(),
{
    if s.len() == 0 {
        0
    } else if is_h1(s[0].0) {
        0
    } else {
        1 + first_h1_at(s.drop_first())
    }
}

/// The greatest index of a section under the heading `h`, or -1.
pub open spec fn last_at(s: Seq<(Seq<char>, Seq<char>)>, h: Seq<char>) -> int
    decreases s.len(),
{
    if s.len() == 0 {
        -1
    } else if s.last().0 == h {
        s.len() - 1
    } else {
        last_at(s.drop_last(), h)
    }
}

/// The section at index `i`, as a sequence; empty where `i` is no index.
pub open spec fn taken(s: Seq<(Seq<char>, Seq<char>)>, i: int) -> Seq<(Seq<char>, Seq<char>)> {
    if 0 <= i < s.len() {
        seq![s[i]]
    } else {
        Seq::empty()
    }
}

/// The sections without the one at index `i`; all of them where `i` is no
/// index.
pub open spec fn left(s: Seq<(Seq<char>, Seq<char>)>, i: int) -> Seq<(Seq<char>, Seq<char>)> {
    if 0 <= i < s.len() {
        s.remove(i)
    } else {
        s
    }
}

/// The sections with the last one under `## Actions buffer` in front.
pub open spec fn actions_first(s: Seq<(Seq<char>, Seq<char>)>) -> Seq<(Seq<char>, Seq<char>)> {
    taken(s, last_at(s, "## Actions buffer"@)) + left(s, last_at(s, "## Actions buffer"@))
}

/// The sections with the last one under `## Log` in front, and behind it
/// the others with the last under `## Actions buffer` in front.
pub open spec fn log_first(s: Seq<(Seq<char>, Seq<char>)>) -> Seq<(Seq<char>, Seq<char>)> {
    taken(s, last_at(s, "## Log"@)) + actions_first(left(s, last_at(s, "## Log"@)))
}

/// The sections with the last one under `## Description` in front, and
/// behind it the others with the last under `## Log` and the last under
/// `## Actions buffer` in front.
pub open spec fn fixed_first(s: Seq<(Seq<char>, Seq<char>)>) -> Seq<(Seq<char>, Seq<char>)> {
    taken(s, last_at(s, "## Description"@)) + log_first(left(s, last_at(s, "## Description"@)))
}

/// The sections of a project note in their fixed order. Four sections are
/// taken out, one after the other, and put in front: the first under a
/// first-level heading, then the last under `## Description`, the last under
/// `## Log` and the last under `## Actions buffer`. One that is missing is
/// left out. All other sections follow as they stood.
#[verifier::opaque]
pub open spec fn reordered(s: Seq<(Seq<char>, Seq<char>)>) -> Seq<(Seq<char>, Seq<char>)> {
    taken(s, first_h1_at(s)) + fixed_first(left(s, first_h1_at(s)))
}

/// An index under a first-level heading, or the end, with no such index
/// before it, is what `first_h1_at` gives.
pub proof fn lemma_first_h1_at(s: Seq<(Seq<char>, Seq<char>)>, i: int)
    requires
        0 <= i <= s.len(),
        forall|j: int| 0 <= j < i ==> !is_h1((#[trigger] s[j]).0),
        i < s.len() ==> is_h1(s[i].0),
    ensures
        first_h1_at(s) == i,
    decreases s.len(),
{
    if s.len() > 0 && i > 0 {
        assert(!is_h1(s[0].0));
        assert forall|j: int| 0 <= j < i - 1 implies !is_h1((#[trigger] s.drop_first()[j]).0) by {
            assert(s.drop_first()[j] == s[j + 1]);
        }
        lemma_first_h1_at(s.drop_first(), i - 1);
    }
}

/// Taking a section out and putting it in front loses nothing and adds
/// nothing.
pub proof fn lemma_taken_left(s: Seq<(Seq<char>, Seq<char>)>, i: int)
    ensures
        taken(s, i).to_multiset().add(left(s, i).to_multiset()) == s.to_multiset(),
{
    broadcast use vstd::multiset::group_multiset_axioms;

    vstd::seq_lib::lemma_multiset_commutative(taken(s, i), left(s, i));
    if 0 <= i < s.len() {
        let rest = s.remove(i);
        vstd::seq_lib::to_multiset_remove(s, i);
        vstd::seq_lib::to_multiset_contains(s, s[i]);
        vstd::seq_lib::to_multiset_insert(rest, 0, s[i]);
        assert(rest.insert(0, s[i]) =~= seq![s[i]] + rest);
        assert(s.to_multiset().count(s[i]) > 0);
        assert(rest.to_multiset().insert(s[i]) =~= s.to_multiset());
    } else {
        assert(taken(s, i) + left(s, i) =~= s);
    }
}

/// Putting the last section under a fixed heading in front, for each of
/// the three, loses nothing and adds nothing.
pub proof fn lemma_fixed_first_permutes(s: Seq<(Seq<char>, Seq<char>)>)
    ensures
        actions_first(s).to_multiset() == s.to_multiset(),
        log_first(s).to_multiset() == s.to_multiset(),
        fixed_first(s).to_multiset() == s.to_multiset(),
{
    broadcast use vstd::multiset::group_multiset_axioms;

    let d = last_at(s, "## Actions buffer"@);
    lemma_taken_left(s, d);
    vstd::seq_lib::lemma_multiset_commutative(taken(s, d), left(s, d));
    let c = last_at(s, "## Log"@);
    lemma_taken_left(s, c);
    let dc = last_at(left(s, c), "## Actions buffer"@);
    lemma_taken_left(left(s, c), dc);
    vstd::seq_lib::lemma_multiset_commutative(taken(left(s, c), dc), left(left(s, c), dc));
    vstd::seq_lib::lemma_multiset_commutative(taken(s, c), actions_first(left(s, c)));
    let b = last_at(s, "## Description"@);
    lemma_taken_left(s, b);
    let u = left(s, b);
    let cu = last_at(u, "## Log"@);
    lemma_taken_left(u, cu);
    let du = last_at(left(u, cu), "## Actions buffer"@);
    lemma_taken_left(left(u, cu), du);
    vstd::seq_lib::lemma_multiset_commutative(taken(left(u, cu), du), left(left(u, cu), du));
    vstd::seq_lib::lemma_multiset_commutative(taken(u, cu), actions_first(left(u, cu)));
    vstd::seq_lib::lemma_multiset_commutative(taken(s, b), log_first(u));
}

/// Reordering loses no section and adds none: each section comes out as
/// often as it went in.
pub proof fn lemma_reordered_permutes(s: Seq<(Seq<char>, Seq<char>)>)
    ensures
        reordered(s).to_multiset() == s.to_multiset(),
        reordered(s).len() == s.len(),
{
    broadcast use vstd::multiset::group_multiset_axioms;

    reveal(reordered);
    let a = first_h1_at(s);
    lemma_taken_left(s, a);
    lemma_fixed_first_permutes(left(s, a));
    vstd::seq_lib::lemma_multiset_commutative(taken(s, a), fixed_first(left(s, a)));
    assert(reordered(s).to_multiset() =~= s.to_multiset());
    vstd::seq_lib::to_multiset_len(reordered(s));
    vstd::seq_lib::to_multiset_len(s);
}

/// A first section under a first-level heading stays the first section.
pub proof fn lemma_reordered_first(s: Seq<(Seq<char>, Seq<char>)>)
    requires
        s.len() > 0,
        is_h1(s[0].0),
    ensures
        reordered(s).len() > 0,
        reordered(s)[0] == s[0],
{
    reveal(reordered);
}

/// Whether a heading is one of the three that have a fixed place in a
/// project note.
pub open spec fn is_fixed(heading: Seq<char>) -> bool {
    heading == "## Description"@ || heading == "## Log"@ || heading == "## Actions buffer"@
}

/// Whether none of the three fixed headings heads two sections.
pub open spec fn fixed_once(s: Seq<(Seq<char>, Seq<char>)>) -> bool {
    forall|i: int, j: int|
        0 <= i < j < s.len() && is_fixed((#[trigger] s[i]).0) ==> s[i].0 != (#[trigger] s[j]).0
}

/// Whether no section is headed `h`.
pub open spec fn unheaded(s: Seq<(Seq<char>, Seq<char>)>, h: Seq<char>) -> bool {
    forall|j: int| 0 <= j < s.len() ==> (#[trigger] s[j]).0 != h
}

/// Whether no section is under a first-level heading.
pub open spec fn without_h1(s: Seq<(Seq<char>, Seq<char>)>) -> bool {
    forall|j: int| 0 <= j < s.len() ==> !is_h1((#[trigger] s[j]).0)
}

/// `first_h1_at` is within the sections or their end, no section before it
/// is under a first-level heading, and where it is an index, the section
/// there is.
pub proof fn lemma_first_h1_is(s: Seq<(Seq<char>, Seq<char>)>)
    ensures
        0 <= first_h1_at(s) <= s.len(),
        forall|j: int| 0 <= j < first_h1_at(s) ==> !is_h1((#[trigger] s[j]).0),
        first_h1_at(s) < s.len() ==> is_h1(s[first_h1_at(s)].0),
    decreases s.len(),
{
    if s.len() > 0 && !is_h1(s[0].0) {
        lemma_first_h1_is(s.drop_first());
        assert forall|j: int| 0 <= j < first_h1_at(s) implies !is_h1((#[trigger] s[j]).0) by {
            if j > 0 {
                assert(s[j] == s.drop_first()[j - 1]);
            }
        }
    }
}

/// `last_at` is an index or -1, no section behind it is headed `h`, and
/// where it is an index, the section there is.
pub proof fn lemma_last_at_is(s: Seq<(Seq<char>, Seq<char>)>, h: Seq<char>)
    ensures
        -1 <= last_at(s, h) < s.len(),
        forall|j: int| last_at(s, h) < j < s.len() ==> (#[trigger] s[j]).0 != h,
        last_at(s, h) >= 0 ==> s[last_at(s, h)].0 == h,
    decreases s.len(),
{
    if s.len() > 0 && s.last().0 != h {
        lemma_last_at_is(s.drop_last(), h);
        assert forall|j: int| last_at(s, h) < j < s.len() implies (#[trigger] s[j]).0 != h by {
            if j < s.len() - 1 {
                assert(s[j] == s.drop_last()[j]);
            }
        }
    }
}

/// An index headed `h`, or -1, with no section behind it headed `h`, is
/// what `last_at` gives.
pub proof fn lemma_last_at(s: Seq<(Seq<char>, Seq<char>)>, h: Seq<char>, i: int)
    requires
        -1 <= i < s.len(),
        forall|j: int| i < j < s.len() ==> (#[trigger] s[j]).0 != h,
        i >= 0 ==> s[i].0 == h,
    ensures
        last_at(s, h) == i,
{
    lemma_last_at_is(s, h);
}

/// A heading that heads no section of `s` heads none of a sequence that
/// holds the same sections.
pub proof fn lemma_unheaded_permuted(
    s: Seq<(Seq<char>, Seq<char>)>,
    r: Seq<(Seq<char>, Seq<char>)>,
    h: Seq<char>,
)
    requires
        r.to_multiset() == s.to_multiset(),
        unheaded(s, h),
    ensures
        unheaded(r, h),
{
    assert forall|k: int| 0 <= k < r.len() implies (#[trigger] r[k]).0 != h by {
        vstd::seq_lib::to_multiset_contains(r, r[k]);
        vstd::seq_lib::to_multiset_contains(s, r[k]);
        assert(r.contains(r[k]));
        let j = choose|j: int| 0 <= j < s.len() && s[j] == r[k];
        assert(s[j].0 != h);
    }
}

/// Where no section of `s` is under a first-level heading, none is in a
/// sequence that holds the same sections.
pub proof fn lemma_without_h1_permuted(
    s: Seq<(Seq<char>, Seq<char>)>,
    r: Seq<(Seq<char>, Seq<char>)>,
)
    requires
        r.to_multiset() == s.to_multiset(),
        without_h1(s),
    ensures
        without_h1(r),
{
    assert forall|k: int| 0 <= k < r.len() implies !is_h1((#[trigger] r[k]).0) by {
        vstd::seq_lib::to_multiset_contains(r, r[k]);
        vstd::seq_lib::to_multiset_contains(s, r[k]);
        assert(r.contains(r[k]));
        let j = choose|j: int| 0 <= j < s.len() && s[j] == r[k];
        assert(!is_h1(s[j].0));
    }
}

/// Taking the last section under the fixed heading `h` out of sections that
/// begin with what was taken out of `s` in the same way, and hold none of
/// the fixed headings twice, takes the same section out and leaves the same
/// sections.
pub proof fn lemma_taken_again(
    s: Seq<(Seq<char>, Seq<char>)>,
    tail: Seq<(Seq<char>, Seq<char>)>,
    h: Seq<char>,
)
    requires
        is_fixed(h),
        fixed_once(taken(s, last_at(s, h)) + tail),
        last_at(s, h) < 0 ==> unheaded(tail, h),
    ensures
        taken(taken(s, last_at(s, h)) + tail, last_at(taken(s, last_at(s, h)) + tail, h)) == taken(
            s,
            last_at(s, h),
        ),
        left(taken(s, last_at(s, h)) + tail, last_at(taken(s, last_at(s, h)) + tail, h)) == tail,
{
    lemma_last_at_is(s, h);
    let t = taken(s, last_at(s, h));
    let r = t + tail;
    if last_at(s, h) >= 0 {
        assert(r[0] == s[last_at(s, h)]);
        assert forall|j: int| 0 < j < r.len() implies (#[trigger] r[j]).0 != h by {
            assert(is_fixed(r[0].0));
        }
        lemma_last_at(r, h, 0);
        assert(r.remove(0) =~= tail);
    } else {
        assert(r =~= tail);
        lemma_last_at(r, h, -1);
    }
}

/// What is behind the first sections holds none of the fixed headings
/// twice where the whole does not.
pub proof fn lemma_fixed_once_behind(
    front: Seq<(Seq<char>, Seq<char>)>,
    behind: Seq<(Seq<char>, Seq<char>)>,
)
    requires
        fixed_once(front + behind),
    ensures
        fixed_once(behind),
{
    let r = front + behind;
    assert forall|i: int, j: int| 0 <= i < j < behind.len() && is_fixed(
        (#[trigger] behind[i]).0,
    ) implies behind[i].0 != (#[trigger] behind[j]).0 by {
        assert(behind[i] == r[i + front.len()] && behind[j] == r[j + front.len()]);
    }
}

/// Putting the last section under `## Actions buffer` in front again
/// changes nothing, where that heading heads no two sections.
pub proof fn lemma_actions_first_settled(s: Seq<(Seq<char>, Seq<char>)>)
    requires
        fixed_once(actions_first(s)),
    ensures
        actions_first(actions_first(s)) == actions_first(s),
{
    lemma_last_at_is(s, "## Actions buffer"@);
    lemma_taken_again(s, left(s, last_at(s, "## Actions buffer"@)), "## Actions buffer"@);
}

/// Putting the last sections under `## Log` and `## Actions buffer` in
/// front again changes nothing, where neither heading heads two sections.
pub proof fn lemma_log_first_settled(s: Seq<(Seq<char>, Seq<char>)>)
    requires
        fixed_once(log_first(s)),
    ensures
        log_first(log_first(s)) == log_first(s),
{
    let c = last_at(s, "## Log"@);
    let u = left(s, c);
    lemma_last_at_is(s, "## Log"@);
    lemma_fixed_first_permutes(u);
    if c < 0 {
        lemma_unheaded_permuted(u, actions_first(u), "## Log"@);
    }
    lemma_taken_again(s, actions_first(u), "## Log"@);
    lemma_fixed_once_behind(taken(s, c), actions_first(u));
    lemma_actions_first_settled(u);
}

/// Putting the last sections under the three fixed headings in front again
/// changes nothing, where none of them heads two sections.
pub proof fn lemma_fixed_first_settled(s: Seq<(Seq<char>, Seq<char>)>)
    requires
        fixed_once(fixed_first(s)),
    ensures
        fixed_first(fixed_first(s)) == fixed_first(s),
{
    let b = last_at(s, "## Description"@);
    let u = left(s, b);
    lemma_last_at_is(s, "## Description"@);
    lemma_fixed_first_permutes(u);
    if b < 0 {
        lemma_unheaded_permuted(u, log_first(u), "## Description"@);
    }
    lemma_taken_again(s, log_first(u), "## Description"@);
    lemma_fixed_once_behind(taken(s, b), log_first(u));
    lemma_log_first_settled(u);
}

/// Reordering again changes nothing, where none of the three fixed headings
/// heads two of the reordered sections.
pub proof fn lemma_reordered_settled(s: Seq<(Seq<char>, Seq<char>)>)
    requires
        fixed_once(reordered(s)),
    ensures
        reordered(reordered(s)) == reordered(s),
{
    reveal(reordered);
    let a = first_h1_at(s);
    let u = left(s, a);
    let r = reordered(s);
    lemma_first_h1_is(s);
    lemma_fixed_once_behind(taken(s, a), fixed_first(u));
    lemma_fixed_first_settled(u);
    if a < s.len() {
        lemma_first_h1_at(r, 0);
        assert(r.remove(0) =~= fixed_first(u));
    } else {
        lemma_fixed_first_permutes(s);
        lemma_without_h1_permuted(s, fixed_first(s));
        assert(r =~= fixed_first(s));
        lemma_first_h1_at(r, r.len() as int);
    }
}

fn first_h1_index(v: &Vec<(String, String)>) -> (r: Option<usize>)
    ensures
        match r {
            Some(i) => i < v.len() && first_h1_at(sections_view(v@)) == i,
            None => first_h1_at(sections_view(v@)) == v.len(),
        },
{
    let mark = to_chars("# ");
    let ghost s = sections_view(v@);
    let mut i: usize = 0;
    while i < v.len()
        invariant
            i <= v.len(),
            mark@ == "# "@,
            s == sections_view(v@),
            forall|j: int| 0 <= j < i ==> !is_h1((#[trigger] s[j]).0),
        decreases v.len() - i,
    {
        if starts_at(&to_chars(v[i].0.as_str()), 0, &mark) {
            proof {
                lemma_first_h1_at(s, i as int);
            }
            return Some(i);
        }
        i += 1;
    }
    proof {
        lemma_first_h1_at(s, i as int);
    }
    None
}

fn last_index_under(v: &Vec<(String, String)>, h: &str) -> (r: Option<usize>)
    ensures
        match r {
            Some(i) => i < v.len() && last_at(sections_view(v@), h@) == i,
            None => last_at(sections_view(v@), h@) == -1,
        },
{
    let ghost s = sections_view(v@);
    let mut i: usize = v.len();
    assert(s.take(i as int) =~= s);
    while i > 0
        invariant
            i <= v.len(),
            s == sections_view(v@),
            last_at(s, h@) == last_at(s.take(i as int), h@),
        decreases i,
    {
        assert(s.take(i as int).drop_last() =~= s.take(i - 1));
        if same_str(v[i - 1].0.as_str(), h) {
            return Some(i - 1);
        }
        i -= 1;
    }
    None
}

fn put_in_front(rest: &mut Vec<(String, String)>, at: Option<usize>) -> (front: Vec<
    (String, String),
>)
    requires
        at matches Some(i) ==> i < old(rest).len(),
    ensures
        sections_view(front@) == taken(
            sections_view(old(rest)@),
            match at {
                Some(i) => i as int,
                None => -1,
            },
        ),
        sections_view(final(rest)@) == left(
            sections_view(old(rest)@),
            match at {
                Some(i) => i as int,
                None => -1,
            },
        ),
{
    let mut front: Vec<(String, String)> = Vec::new();
    if let Some(i) = at {
        let section = rest.remove(i);
        front.push(section);
        assert(sections_view(rest@) =~= sections_view(old(rest)@).remove(i as int));
        assert(sections_view(front@) =~= seq![sections_view(old(rest)@)[i as int]]);
    } else {
        assert(sections_view(front@) =~= Seq::empty());
    }
    front
}

fn join_sections(front: Vec<(String, String)>, behind: Vec<(String, String)>) -> (r: Vec<
    (String, String),
>)
    ensures
        sections_view(r@) == sections_view(front@) + sections_view(behind@),
{
    let ghost first = sections_view(front@);
    let ghost second = sections_view(behind@);
    let mut out = front;
    let mut behind = behind;
    out.append(&mut behind);
    assert(sections_view(out@) =~= first + second);
    out
}

fn actions_in_front(rest: Vec<(String, String)>) -> (r: Vec<(String, String)>)
    ensures
        sections_view(r@) == actions_first(sections_view(rest@)),
{
    let mut rest = rest;
    let at = last_index_under(&rest, "## Actions buffer");
    let front = put_in_front(&mut rest, at);
    join_sections(front, rest)
}

fn log_in_front(rest: Vec<(String, String)>) -> (r: Vec<(String, String)>)
    ensures
        sections_view(r@) == log_first(sections_view(rest@)),
{
    let mut rest = rest;
    let at = last_index_under(&rest, "## Log");
    let front = put_in_front(&mut rest, at);
    join_sections(front, actions_in_front(rest))
}

fn fixed_in_front(rest: Vec<(String, String)>) -> (r: Vec<(String, String)>)
    ensures
        sections_view(r@) == fixed_first(sections_view(rest@)),
{
    let mut rest = rest;
    let at = last_index_under(&rest, "## Description");
    let front = put_in_front(&mut rest, at);
    join_sections(front, log_in_front(rest))
}

fn reorder(rest: Vec<(String, String)>) -> (r: Vec<(String, String)>)
    ensures
        sections_view(r@) == reordered(sections_view(rest@)),
{
    reveal(reordered);
    let mut rest = rest;
    let at = first_h1_index(&rest);
    let front = put_in_front(&mut rest, at);
    join_sections(front, fixed_in_front(rest))
}

/// Puts the sections of a project note in their fixed order. No section is
/// lost.
pub fn normalize_sections_order(data: &mut ZettelData)
    ensures
        final(data)@ == (NoteView { sections: reordered(old(data)@.sections), ..old(data)@ }),
        final(data)@.sections.to_multiset() == old(data)@.sections.to_multiset(),
        final(data)@.sections.len() == old(data)@.sections.len(),
{
    let mut rest: Vec<(String, String)> = Vec::new();
    std::mem::swap(&mut rest, &mut data.sections);
    data.sections = reorder(rest);
    proof {
        lemma_reordered_permutes(old(data)@.sections);
    }
}

/// Of two texts, one comes before the other or is the other.
pub proof fn lemma_text_le_total(a: Seq<char>, b: Seq<char>)
    ensures
        text_le(a, b) || text_le(b, a),
    decreases a.len(),
{
    if a.len() > 0 && b.len() > 0 && a[0] == b[0] {
        lemma_text_le_total(a.drop_first(), b.drop_first());
    }
}

/// The order of texts is transitive.
pub proof fn lemma_text_le_trans(a: Seq<char>, b: Seq<char>, c: Seq<char>)
    requires
        text_le(a, b),
        text_le(b, c),
    ensures
        text_le(a, c),
    decreases a.len(),
{
    if a.len() > 0 && b.len() > 0 && c.len() > 0 && a[0] == b[0] && b[0] == c[0] {
        lemma_text_le_trans(a.drop_first(), b.drop_first(), c.drop_first());
    }
}

/// The keys of `t` ascend.
pub open spec fn keys_ascend(t: Seq<ValueView>) -> bool {
    forall|i: int, j: int| 0 <= i < j < t.len() ==> text_le(sort_key(t[i]), sort_key(t[j]))
}

/// No string occurs twice in `t`.
pub open spec fn strings_unique(t: Seq<ValueView>) -> bool {
    forall|i: int, j: int| 0 <= i < j < t.len() && t[i] is Str ==> t[i] != t[j]
}

/// The index at which `inserted` puts `v`.
pub open spec fn insert_position(s: Seq<ValueView>, v: ValueView) -> int
    decreases s.len(),
{
    if s.len() == 0 {
        0
    } else if text_le(sort_key(s.last()), sort_key(v)) {
        s.len() as int
    } else {
        insert_position(s.drop_last(), v)
    }
}

/// `inserted` puts `v` at `insert_position`, behind an item whose key does
/// not come after its key and before the items whose keys do.
pub proof fn lemma_insert_position(s: Seq<ValueView>, v: ValueView)
    ensures
        0 <= insert_position(s, v) <= s.len(),
        forall|j: int|
            insert_position(s, v) <= j < s.len() ==> !text_le(sort_key(s[j]), sort_key(v)),
        insert_position(s, v) > 0 ==> text_le(
            sort_key(s[insert_position(s, v) - 1]),
            sort_key(v),
        ),
        inserted(s, v) == s.insert(insert_position(s, v), v),
    decreases s.len(),
{
    if s.len() > 0 && !text_le(sort_key(s.last()), sort_key(v)) {
        lemma_insert_position(s.drop_last(), v);
    }
    let p = insert_position(s, v);
    if s.len() > 0 && !text_le(sort_key(s.last()), sort_key(v)) {
        assert forall|j: int| p <= j < s.len() implies !text_le(sort_key(s[j]), sort_key(v)) by {
            if j < s.len() - 1 {
                assert(s[j] == s.drop_last()[j]);
            }
        }
        if p > 0 {
            assert(s[p - 1] == s.drop_last()[p - 1]);
        }
    }
    lemma_inserted_at(s, v, p);
}

/// Inserting into ascending keys leaves them ascending.
pub proof fn lemma_inserted_ascends(s: Seq<ValueView>, v: ValueView)
    requires
        keys_ascend(s),
    ensures
        keys_ascend(inserted(s, v)),
{
    lemma_insert_position(s, v);
    let p = insert_position(s, v);
    let r = s.insert(p, v);
    assert forall|i: int, j: int| 0 <= i < j < r.len() implies text_le(
        sort_key(r[i]),
        sort_key(r[j]),
    ) by {
        if j < p {
        } else if j == p {
            assert(r[i] == s[i]);
            if i < p - 1 {
                lemma_text_le_trans(sort_key(s[i]), sort_key(s[p - 1]), sort_key(v));
            }
        } else if i == p {
            assert(r[j] == s[j - 1]);
            lemma_text_le_total(sort_key(s[j - 1]), sort_key(v));
        } else if i < p {
            assert(r[i] == s[i]);
            assert(r[j] == s[j - 1]);
        } else {
            assert(r[i] == s[i - 1]);
            assert(r[j] == s[j - 1]);
        }
    }
}

/// Sorting gives ascending keys and keeps the items: the result holds each
/// item as often as `items` holds it, and a sequence in which no string
/// occurs twice stays one.
pub proof fn lemma_sorted_by_key(items: Seq<ValueView>)
    ensures
        keys_ascend(sorted_by_key(items)),
        sorted_by_key(items).len() == items.len(),
        forall|x: ValueView|
            #![trigger sorted_by_key(items).contains(x)]
            #![trigger items.contains(x)]
            sorted_by_key(items).contains(x) <==> items.contains(x),
        strings_unique(items) ==> strings_unique(sorted_by_key(items)),
        sorted_by_key(items).to_multiset() == items.to_multiset(),
    decreases items.len(),
{
    if items.len() > 0 {
        let init = items.drop_last();
        let last = items.last();
        let s = sorted_by_key(init);
        lemma_sorted_by_key(init);
        lemma_inserted_ascends(s, last);
        lemma_insert_position(s, last);
        let p = insert_position(s, last);
        let r = s.insert(p, last);
        vstd::seq_lib::to_multiset_insert(s, p, last);
        vstd::seq_lib::to_multiset_build(init, last);
        assert(init.push(last) =~= items);
        assert forall|x: ValueView| r.contains(x) <==> items.contains(x) by {
            if r.contains(x) {
                let i = choose|i: int| 0 <= i < r.len() && r[i] == x;
                if i == p {
                    assert(items[items.len() - 1] == x);
                } else {
                    let k = if i < p {
                        i
                    } else {
                        i - 1
                    };
                    assert(s[k] == x);
                    assert(s.contains(x));
                    let m = choose|m: int| 0 <= m < init.len() && init[m] == x;
                    assert(items[m] == x);
                }
            }
            if items.contains(x) {
                let i = choose|i: int| 0 <= i < items.len() && items[i] == x;
                if i == items.len() - 1 {
                    assert(r[p] == x);
                } else {
                    assert(init[i] == x);
                    assert(init.contains(x));
                    let m = choose|m: int| 0 <= m < s.len() && s[m] == x;
                    let k = if m < p {
                        m
                    } else {
                        m + 1
                    };
                    assert(r[k] == x);
                }
            }
        }
        if strings_unique(items) {
            assert(strings_unique(init)) by {
                assert forall|i: int, j: int| 0 <= i < j < init.len() && init[i] is Str implies init[i]
                    != init[j] by {
                    assert(init[i] == items[i] && init[j] == items[j]);
                }
            }
            assert forall|i: int, j: int| 0 <= i < j < r.len() && r[i] is Str implies r[i]
                != r[j] by {
                let a = if i < p {
                    i
                } else {
                    i - 1
                };
                let b = if j < p {
                    j
                } else {
                    j - 1
                };
                if i == p || j == p {
                    let k = if i == p {
                        b
                    } else {
                        a
                    };
                    assert(s[k] == if i == p { r[j] } else { r[i] });
                    if r[i] == r[j] {
                        assert(s.contains(last));
                        let m = choose|m: int| 0 <= m < init.len() && init[m] == last;
                        assert(items[m] == items[items.len() - 1]);
                    }
                } else {
                    assert(r[i] == s[a] && r[j] == s[b]);
                }
            }
        }
    }
}

/// Deduplicating leaves no string twice, and what occurs in the result
/// occurs in `items`.
pub proof fn lemma_deduped(items: Seq<ValueView>)
    ensures
        strings_unique(deduped(items)),
        forall|x: ValueView|
            #![trigger deduped(items).contains(x)]
            #![trigger items.contains(x)]
            deduped(items).contains(x) <==> items.contains(x),
    decreases items.len(),
{
    if items.len() > 0 {
        let init = items.drop_last();
        let last = items.last();
        lemma_deduped(init);
        let d = deduped(init);
        let r = deduped(items);
        assert forall|x: ValueView| r.contains(x) <==> items.contains(x) by {
            if r.contains(x) {
                let i = choose|i: int| 0 <= i < r.len() && r[i] == x;
                if i < d.len() {
                    assert(d[i] == x);
                    assert(d.contains(x));
                    let m = choose|m: int| 0 <= m < init.len() && init[m] == x;
                    assert(items[m] == x);
                } else {
                    assert(items[items.len() - 1] == x);
                }
            }
            if items.contains(x) {
                let i = choose|i: int| 0 <= i < items.len() && items[i] == x;
                if i < init.len() {
                    assert(init[i] == x);
                    assert(init.contains(x));
                    let m = choose|m: int| 0 <= m < d.len() && d[m] == x;
                    assert(r[m] == x);
                } else if last is Str && init.contains(last) {
                    let m = choose|m: int| 0 <= m < d.len() && d[m] == x;
                    assert(r[m] == x);
                } else {
                    assert(r[r.len() - 1] == x);
                }
            }
        }
        if !(last is Str && init.contains(last)) {
            assert forall|i: int, j: int| 0 <= i < j < r.len() && r[i] is Str implies r[i]
                != r[j] by {
                if j < d.len() {
                    assert(r[i] == d[i] && r[j] == d[j]);
                } else {
                    assert(r[i] == d[i]);
                    if r[i] == r[j] {
                        assert(d.contains(last));
                    }
                }
            }
        }
    }
}

/// Deduplicating a sequence in which no string occurs twice changes
/// nothing.
pub proof fn lemma_deduped_settled(items: Seq<ValueView>)
    requires
        strings_unique(items),
    ensures
        deduped(items) == items,
    decreases items.len(),
{
    if items.len() > 0 {
        let init = items.drop_last();
        assert forall|i: int, j: int| 0 <= i < j < init.len() && init[i] is Str implies init[i]
            != init[j] by {
            assert(init[i] == items[i] && init[j] == items[j]);
        }
        lemma_deduped_settled(init);
        if items.last() is Str && init.contains(items.last()) {
            let m = choose|m: int| 0 <= m < init.len() && init[m] == items.last();
            assert(items[m] == items[items.len() - 1]);
        }
        assert(init.push(items.last()) =~= items);
    }
}

/// Sorting a sequence whose keys ascend changes nothing.
pub proof fn lemma_sorted_settled(items: Seq<ValueView>)
    requires
        keys_ascend(items),
    ensures
        sorted_by_key(items) == items,
    decreases items.len(),
{
    if items.len() > 0 {
        let init = items.drop_last();
        assert forall|i: int, j: int| 0 <= i < j < init.len() implies text_le(
            sort_key(init[i]),
            sort_key(init[j]),
        ) by {
            assert(init[i] == items[i] && init[j] == items[j]);
        }
        lemma_sorted_settled(init);
        if init.len() > 0 {
            assert(init.last() == items[items.len() - 2]);
            assert(items.last() == items[items.len() - 1]);
        }
        assert(init.push(items.last()) =~= items);
    }
}

} // verus!
