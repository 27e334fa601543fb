//! The consistency stage: defaults are set and structural invariants are
//! enforced.

pub mod defaults;
pub mod fixers;

use vstd::prelude::*;

use crate::datetime::now_utc;
use crate::fields::{lemma_put, lemma_put_same, lemma_without, lookup, put, Entries};
use crate::text::trim_of;
use crate::types::{NoteView, ValueView, ZettelData};

verus! {

/// The note after the consistency stage, `now` being the time on the clock:
/// defaults, then tags deduplicated and sorted, the title formatted, and the
/// first heading aligned to the title.
pub open spec fn consistent(n: NoteView, now: i64) -> NoteView {
    let d = defaults::with_defaults(n, now);
    fixers::aligned(
        NoteView {
            metadata: fixers::with_formatted_title(
                fixers::with_sorted_tags(fixers::without_duplicate_tags(d.metadata)),
            ),
            ..d
        },
    )
}

/// The note after the extras that a project note gets: bullets normalised,
/// sections in their fixed order, `completed` settled.
pub open spec fn project_consistent(n: NoteView) -> NoteView {
    NoteView {
        metadata: fixers::with_completed(n.metadata),
        sections: fixers::reordered(fixers::with_fixed_bullets(n.sections)),
        ..n
    }
}

/// Runs the consistency stage with `now` as the time on the clock.
pub fn ensure_consistency_at(data: &mut ZettelData, now: i64)
    ensures
        final(data)@ == consistent(old(data)@, now),
{
    defaults::set_missing_defaults_at(data, now);
    fixers::remove_duplicate_tags(data);
    fixers::sort_tags(data);
    fixers::fix_title_format(data);
    fixers::align_h1_to_title(data);
}

/// Runs the consistency stage. The clock is read once; its time is the
/// default for a missing `date`.
pub fn ensure_consistency(data: &mut ZettelData)
    ensures
        exists|now: i64| final(data)@ == consistent(old(data)@, now),
{
    let now = now_utc();
    ensure_consistency_at(data, now);
}

/// Runs the extras of the consistency stage that a project note gets.
pub fn ensure_project_consistency(data: &mut ZettelData)
    ensures
        final(data)@ == project_consistent(old(data)@),
{
    fixers::fix_lists_bullets(data);
    fixers::normalize_sections_order(data);
    fixers::set_default_completed(data);
}

/// The keys that the consistency stage writes are different keys.
pub proof fn lemma_consistency_keys()
    ensures
        "title"@ != "date"@,
        "title"@ != "id"@,
        "title"@ != "type"@,
        "title"@ != "tags"@,
        "title"@ != "publish"@,
        "title"@ != "processed"@,
        "tags"@ != "date"@,
        "tags"@ != "id"@,
        "tags"@ != "type"@,
        "tags"@ != "publish"@,
        "tags"@ != "processed"@,
{
    reveal_strlit("title");
    reveal_strlit("date");
    reveal_strlit("id");
    reveal_strlit("type");
    reveal_strlit("tags");
    reveal_strlit("publish");
    reveal_strlit("processed");
    assert("title"@.len() == 5 && "date"@.len() == 4 && "id"@.len() == 2 && "type"@.len() == 4);
    assert("tags"@.len() == 4 && "publish"@.len() == 7 && "processed"@.len() == 9);
    assert("tags"@[0] != "date"@[0]);
    assert("tags"@[1] != "type"@[1]);
}

/// What setting a default under `k` does to another key `k2`.
pub proof fn lemma_with_default(e: Entries, k: Seq<char>, v: ValueView, k2: Seq<char>)
    requires
        k2 != k,
    ensures
        lookup(defaults::with_default(e, k, v), k2) == lookup(e, k2),
{
    lemma_put(e, k, v, k2);
}

/// After the consistency stage, a note whose `title` was missing or a string
/// has a first section, and the heading of that section is `# ` followed by
/// the title.
pub proof fn lemma_consistency_aligns_heading(n: NoteView, now: i64)
    requires
        defaults::missing(n.metadata, "title"@) || lookup(n.metadata, "title"@) matches Some(
            ValueView::Str(_),
        ),
    ensures
        lookup(consistent(n, now).metadata, "title"@) matches Some(ValueView::Str(t))
            && consistent(n, now).sections.len() > 0 && consistent(n, now).sections[0].0 == "# "@
            + t,
{
    lemma_consistency_keys();
    let e0 = n.metadata;
    let e1 = defaults::with_default(
        e0,
        "date"@,
        ValueView::DateTime(crate::types::DateTime { timestamp: now, offset: 0 }),
    );
    lemma_put(
        e0,
        "date"@,
        ValueView::DateTime(crate::types::DateTime { timestamp: now, offset: 0 }),
        "title"@,
    );
    let e2 = defaults::with_default_id(e1);
    if let Some(ValueView::DateTime(date)) = lookup(e1, "date"@) {
        if let Some(i) = defaults::id_of(date) {
            lemma_put(e1, "id"@, ValueView::Int(i), "title"@);
        }
    }
    assert(lookup(e2, "title"@) == lookup(e0, "title"@));
    let title = ValueView::Str(defaults::heading_title(n.sections));
    let e3 = defaults::with_default(e2, "title"@, title);
    lemma_put(e2, "title"@, title, "title"@);
    assert(lookup(e3, "title"@) matches Some(ValueView::Str(_)));
    let e4 = defaults::with_default(e3, "type"@, ValueView::Str("note"@));
    lemma_with_default(e3, "type"@, ValueView::Str("note"@), "title"@);
    let e5 = defaults::with_default(e4, "tags"@, ValueView::List(Seq::empty()));
    lemma_with_default(e4, "tags"@, ValueView::List(Seq::empty()), "title"@);
    let e6 = defaults::with_default(e5, "publish"@, ValueView::Bool(false));
    lemma_with_default(e5, "publish"@, ValueView::Bool(false), "title"@);
    let e7 = defaults::with_default(e6, "processed"@, ValueView::Bool(false));
    lemma_with_default(e6, "processed"@, ValueView::Bool(false), "title"@);
    assert(lookup(e7, "title"@) == lookup(e3, "title"@));
    let e8 = fixers::without_duplicate_tags(e7);
    if let Some(ValueView::List(items)) = lookup(e7, "tags"@) {
        lemma_put(e7, "tags"@, ValueView::List(fixers::deduped(items)), "title"@);
    }
    let e9 = fixers::with_sorted_tags(e8);
    if let Some(ValueView::List(items)) = lookup(e8, "tags"@) {
        lemma_put(e8, "tags"@, ValueView::List(fixers::sorted_by_key(items)), "title"@);
    }
    assert(lookup(e9, "title"@) == lookup(e3, "title"@));
    let e10 = fixers::with_formatted_title(e9);
    if let Some(ValueView::Str(t)) = lookup(e9, "title"@) {
        lemma_put(e9, "title"@, ValueView::Str(fixers::capitalized(crate::text::trim_of(t))), "title"@);
    }
}

/// After the consistency stage, a list under `tags` is in ascending order of
/// its items' texts, and no string occurs in it twice.
pub proof fn lemma_consistency_orders_tags(n: NoteView, now: i64)
    ensures
        lookup(consistent(n, now).metadata, "tags"@) matches Some(ValueView::List(tags))
            ==> fixers::keys_ascend(tags) && fixers::strings_unique(tags),
{
    lemma_consistency_keys();
    let e7 = defaults::with_defaults(n, now).metadata;
    let e8 = fixers::without_duplicate_tags(e7);
    if let Some(ValueView::List(items)) = lookup(e7, "tags"@) {
        lemma_put(e7, "tags"@, ValueView::List(fixers::deduped(items)), "tags"@);
        fixers::lemma_deduped(items);
    }
    let e9 = fixers::with_sorted_tags(e8);
    if let Some(ValueView::List(items)) = lookup(e8, "tags"@) {
        lemma_put(e8, "tags"@, ValueView::List(fixers::sorted_by_key(items)), "tags"@);
        fixers::lemma_sorted_by_key(items);
    }
    let e10 = fixers::with_formatted_title(e9);
    if let Some(ValueView::Str(t)) = lookup(e9, "title"@) {
        lemma_put(e9, "title"@, ValueView::Str(fixers::capitalized(crate::text::trim_of(t))), "tags"@);
    }
}

/// The seven keys that get a default are different keys.
pub proof fn lemma_default_keys()
    ensures
        "date"@ != "id"@,
        "date"@ != "type"@,
        "date"@ != "publish"@,
        "date"@ != "processed"@,
        "id"@ != "type"@,
        "id"@ != "publish"@,
        "id"@ != "processed"@,
        "type"@ != "publish"@,
        "type"@ != "processed"@,
        "publish"@ != "processed"@,
{
    reveal_strlit("date");
    reveal_strlit("id");
    reveal_strlit("type");
    reveal_strlit("publish");
    reveal_strlit("processed");
    assert("date"@.len() == 4 && "id"@.len() == 2 && "type"@.len() == 4);
    assert("publish"@.len() == 7 && "processed"@.len() == 9);
    assert("date"@[0] != "type"@[0]);
}

/// What setting a default under `k` does: nothing is missing under `k`
/// afterwards, and any other key is as it was.
pub proof fn lemma_default_set(e: Entries, k: Seq<char>, v: ValueView, k2: Seq<char>)
    requires
        !(v is Null),
    ensures
        !defaults::missing(defaults::with_default(e, k, v), k),
        k2 != k ==> lookup(defaults::with_default(e, k, v), k2) == lookup(e, k2),
        !defaults::missing(e, k) ==> defaults::with_default(e, k, v) == e,
{
    lemma_put(e, k, v, k);
    lemma_put(e, k, v, k2);
}

/// Whether the date of the metadata gives no identifier: it is no point in
/// time, or the text that it is written as is no number.
pub open spec fn date_gives_no_id(e: Entries) -> bool {
    match lookup(e, "date"@) {
        Some(ValueView::DateTime(date)) => defaults::id_of(date) is None,
        _ => true,
    }
}

/// What the default for `id` does: any other key is as it was, and an `id`
/// is still missing only where the date gives none.
pub proof fn lemma_default_id(e: Entries, k2: Seq<char>)
    ensures
        k2 != "id"@ ==> lookup(defaults::with_default_id(e), k2) == lookup(e, k2),
        !defaults::missing(e, "id"@) ==> defaults::with_default_id(e) == e,
        date_gives_no_id(e) ==> defaults::with_default_id(e) == e,
        defaults::missing(defaults::with_default_id(e), "id"@) ==> date_gives_no_id(e),
{
    if defaults::missing(e, "id"@) {
        if let Some(ValueView::DateTime(date)) = lookup(e, "date"@) {
            if let Some(i) = defaults::id_of(date) {
                lemma_put(e, "id"@, ValueView::Int(i), k2);
                lemma_put(e, "id"@, ValueView::Int(i), "id"@);
            }
        }
    }
}

/// The metadata once the tags are deduplicated and sorted and the title is
/// formatted.
pub open spec fn fixed_fields(e: Entries) -> Entries {
    fixers::with_formatted_title(fixers::with_sorted_tags(fixers::without_duplicate_tags(e)))
}

/// What fixing tags and title does to a key: any key but `tags` and `title` is
/// as it was, and neither of the two comes to be missing or stops being so.
pub proof fn lemma_fixed_fields(e: Entries, k: Seq<char>)
    ensures
        k != "tags"@ && k != "title"@ ==> lookup(fixed_fields(e), k) == lookup(e, k),
        defaults::missing(fixed_fields(e), k) == defaults::missing(e, k),
{
    lemma_consistency_keys();
    let e1 = fixers::without_duplicate_tags(e);
    if let Some(ValueView::List(items)) = lookup(e, "tags"@) {
        lemma_put(e, "tags"@, ValueView::List(fixers::deduped(items)), k);
    }
    let e2 = fixers::with_sorted_tags(e1);
    if let Some(ValueView::List(items)) = lookup(e1, "tags"@) {
        lemma_put(e1, "tags"@, ValueView::List(fixers::sorted_by_key(items)), k);
    }
    if let Some(ValueView::Str(t)) = lookup(e2, "title"@) {
        lemma_put(e2, "title"@, ValueView::Str(fixers::capitalized(trim_of(t))), k);
    }
}

/// Whether formatting the title would change nothing: the title is no
/// string, or is empty once trimmed, or is its own trimmed and capitalized
/// form.
pub open spec fn title_settled(e: Entries) -> bool {
    match lookup(e, "title"@) {
        Some(ValueView::Str(t)) => trim_of(t).len() == 0 || fixers::capitalized(trim_of(t)) == t,
        _ => true,
    }
}

/// After the defaults nothing is missing under the six keys that always get
/// one, and `id` is missing only where another try would leave it so.
pub proof fn lemma_defaults_complete(n: NoteView, now: i64)
    ensures
        !defaults::missing(defaults::with_defaults(n, now).metadata, "date"@),
        !defaults::missing(defaults::with_defaults(n, now).metadata, "title"@),
        !defaults::missing(defaults::with_defaults(n, now).metadata, "type"@),
        !defaults::missing(defaults::with_defaults(n, now).metadata, "tags"@),
        !defaults::missing(defaults::with_defaults(n, now).metadata, "publish"@),
        !defaults::missing(defaults::with_defaults(n, now).metadata, "processed"@),
        defaults::missing(defaults::with_defaults(n, now).metadata, "id"@) ==> date_gives_no_id(
            defaults::with_defaults(n, now).metadata,
        ),
{
    lemma_consistency_keys();
    lemma_default_keys();
    let date = ValueView::DateTime(crate::types::DateTime { timestamp: now, offset: 0 });
    let title = ValueView::Str(defaults::heading_title(n.sections));
    let kind = ValueView::Str("note"@);
    let tags = ValueView::List(Seq::empty());
    let no = ValueView::Bool(false);
    let e0 = n.metadata;
    let e1 = defaults::with_default(e0, "date"@, date);
    let e2 = defaults::with_default_id(e1);
    let e3 = defaults::with_default(e2, "title"@, title);
    let e4 = defaults::with_default(e3, "type"@, kind);
    let e5 = defaults::with_default(e4, "tags"@, tags);
    let e6 = defaults::with_default(e5, "publish"@, no);
    let e7 = defaults::with_default(e6, "processed"@, no);
    lemma_default_set(e0, "date"@, date, "date"@);
    lemma_default_id(e1, "date"@);
    lemma_default_set(e2, "title"@, title, "date"@);
    lemma_default_set(e2, "title"@, title, "id"@);
    lemma_default_set(e3, "type"@, kind, "date"@);
    lemma_default_set(e3, "type"@, kind, "id"@);
    lemma_default_set(e3, "type"@, kind, "title"@);
    lemma_default_set(e4, "tags"@, tags, "date"@);
    lemma_default_set(e4, "tags"@, tags, "id"@);
    lemma_default_set(e4, "tags"@, tags, "title"@);
    lemma_default_set(e4, "tags"@, tags, "type"@);
    lemma_default_set(e5, "publish"@, no, "date"@);
    lemma_default_set(e5, "publish"@, no, "id"@);
    lemma_default_set(e5, "publish"@, no, "title"@);
    lemma_default_set(e5, "publish"@, no, "type"@);
    lemma_default_set(e5, "publish"@, no, "tags"@);
    lemma_default_set(e6, "processed"@, no, "date"@);
    lemma_default_set(e6, "processed"@, no, "id"@);
    lemma_default_set(e6, "processed"@, no, "title"@);
    lemma_default_set(e6, "processed"@, no, "type"@);
    lemma_default_set(e6, "processed"@, no, "tags"@);
    lemma_default_set(e6, "processed"@, no, "publish"@);
    assert(lookup(e7, "date"@) == lookup(e1, "date"@));
    assert(lookup(e7, "id"@) == lookup(e2, "id"@));
}

/// Whether a note is as the consistency stage leaves a note: nothing is
/// missing under the six keys that always get a default; `id` is missing
/// only where the date gives none; a list under `tags` is sorted and has no
/// string twice; formatting the title would change nothing; and the first
/// section is headed by the title.
pub open spec fn is_consistent(z: NoteView) -> bool {
    &&& !defaults::missing(z.metadata, "date"@)
    &&& !defaults::missing(z.metadata, "title"@)
    &&& !defaults::missing(z.metadata, "type"@)
    &&& !defaults::missing(z.metadata, "tags"@)
    &&& !defaults::missing(z.metadata, "publish"@)
    &&& !defaults::missing(z.metadata, "processed"@)
    &&& (defaults::missing(z.metadata, "id"@) ==> date_gives_no_id(z.metadata))
    &&& (lookup(z.metadata, "tags"@) matches Some(ValueView::List(t)) ==> fixers::keys_ascend(t)
        && fixers::strings_unique(t))
    &&& title_settled(z.metadata)
    &&& (lookup(z.metadata, "title"@) matches Some(ValueView::Str(t)) ==> z.sections.len() > 0
        && z.sections[0].0 == "# "@ + t)
}

/// What the consistency stage leaves is consistent, where formatting its
/// title would change nothing.
pub proof fn lemma_consistent_is(n: NoteView, now: i64)
    requires
        title_settled(consistent(n, now).metadata),
    ensures
        is_consistent(consistent(n, now)),
{
    lemma_consistency_keys();
    lemma_default_keys();
    let d = defaults::with_defaults(n, now);
    assert(consistent(n, now).metadata == fixed_fields(d.metadata));
    lemma_defaults_complete(n, now);
    lemma_fixed_fields(d.metadata, "date"@);
    lemma_fixed_fields(d.metadata, "id"@);
    lemma_fixed_fields(d.metadata, "title"@);
    lemma_fixed_fields(d.metadata, "type"@);
    lemma_fixed_fields(d.metadata, "tags"@);
    lemma_fixed_fields(d.metadata, "publish"@);
    lemma_fixed_fields(d.metadata, "processed"@);
    lemma_consistency_orders_tags(n, now);
}

/// The consistency stage leaves a consistent note as it is.
pub proof fn lemma_consistent_fixed(z: NoteView, later: i64)
    requires
        is_consistent(z),
    ensures
        consistent(z, later) == z,
{
    let m = z.metadata;
    assert(defaults::with_defaults(z, later).metadata == m) by {
        lemma_default_id(m, "id"@);
    }
    assert(defaults::with_defaults(z, later) == z);
    assert(fixed_fields(m) == m) by {
        if let Some(ValueView::List(tags)) = lookup(m, "tags"@) {
            fixers::lemma_deduped_settled(tags);
            fixers::lemma_sorted_settled(tags);
            lemma_put_same(m, "tags"@, ValueView::List(tags));
        }
        if let Some(ValueView::Str(t)) = lookup(m, "title"@) {
            if trim_of(t).len() != 0 {
                lemma_put_same(m, "title"@, ValueView::Str(t));
            }
        }
    }
    if let Some(ValueView::Str(t)) = lookup(m, "title"@) {
        assert(z.sections.update(0, ("# "@ + t, z.sections[0].1)) =~= z.sections);
    }
}

/// The consistency stage leaves a note that it has made consistent as it
/// is, where formatting the title of that note would change nothing.
pub proof fn lemma_consistency_idempotent(n: NoteView, now: i64, later: i64)
    requires
        title_settled(consistent(n, now).metadata),
    ensures
        consistent(consistent(n, now), later) == consistent(n, now),
{
    lemma_consistent_is(n, now);
    lemma_consistent_fixed(consistent(n, now), later);
}

/// The keys `completed` and `gtd-list` are different from each other and
/// from the keys that the consistency and migration stages read.
pub proof fn lemma_project_keys()
    ensures
        "completed"@ != "gtd-list"@,
        !has_default("completed"@),
        !has_default("gtd-list"@),
        "completed"@ != "zkn-id"@,
        "completed"@ != "tag"@,
        "gtd-list"@ != "zkn-id"@,
        "gtd-list"@ != "tag"@,
{
    reveal_strlit("completed");
    reveal_strlit("gtd-list");
    reveal_strlit("date");
    reveal_strlit("id");
    reveal_strlit("title");
    reveal_strlit("type");
    reveal_strlit("tags");
    reveal_strlit("publish");
    reveal_strlit("processed");
    reveal_strlit("zkn-id");
    reveal_strlit("tag");
    assert("completed"@.len() == 9 && "gtd-list"@.len() == 8 && "date"@.len() == 4);
    assert("id"@.len() == 2 && "title"@.len() == 5 && "type"@.len() == 4 && "tags"@.len() == 4);
    assert("publish"@.len() == 7 && "processed"@.len() == 9 && "zkn-id"@.len() == 6);
    assert("tag"@.len() == 3);
    assert("completed"@[0] != "processed"@[0]);
}

/// Settling `completed` again changes nothing.
pub proof fn lemma_completed_idempotent(e: Entries)
    ensures
        fixers::with_completed(fixers::with_completed(e)) == fixers::with_completed(e),
{
    lemma_project_keys();
    let yes = ValueView::Bool(true);
    let no = ValueView::Bool(false);
    lemma_put(e, "completed"@, yes, "completed"@);
    lemma_put(e, "completed"@, yes, "gtd-list"@);
    lemma_put(e, "completed"@, no, "completed"@);
    lemma_put(e, "completed"@, no, "gtd-list"@);
    lemma_without(put(e, "completed"@, yes), "gtd-list"@, "completed"@);
    lemma_without(put(e, "completed"@, yes), "gtd-list"@, "gtd-list"@);
}

/// The project extras leave a consistent note consistent.
pub proof fn lemma_project_consistent_keeps(c: NoteView)
    requires
        is_consistent(c),
    ensures
        is_consistent(project_consistent(c)),
{
    lemma_project_keys();
    let y = project_consistent(c);
    lemma_completed_other(c.metadata, "date"@);
    lemma_completed_other(c.metadata, "id"@);
    lemma_completed_other(c.metadata, "title"@);
    lemma_completed_other(c.metadata, "type"@);
    lemma_completed_other(c.metadata, "tags"@);
    lemma_completed_other(c.metadata, "publish"@);
    lemma_completed_other(c.metadata, "processed"@);
    if let Some(ValueView::Str(t)) = lookup(c.metadata, "title"@) {
        let s = fixers::with_fixed_bullets(c.sections);
        reveal_strlit("# ");
        assert(("# "@ + t).subrange(0, 2) =~= "# "@);
        assert(fixers::is_h1(s[0].0));
        fixers::lemma_reordered_first(s);
    }
}

/// Whether `k` is one of the seven keys that get a default.
pub open spec fn has_default(k: Seq<char>) -> bool {
    k == "date"@ || k == "id"@ || k == "title"@ || k == "type"@ || k == "tags"@ || k == "publish"@
        || k == "processed"@
}

/// The consistency stage leaves a key that gets no default as it was.
pub proof fn lemma_consistent_other(n: NoteView, now: i64, k: Seq<char>)
    requires
        !has_default(k),
    ensures
        lookup(consistent(n, now).metadata, k) == lookup(n.metadata, k),
{
    let date = ValueView::DateTime(crate::types::DateTime { timestamp: now, offset: 0 });
    let title = ValueView::Str(defaults::heading_title(n.sections));
    let e0 = n.metadata;
    let e1 = defaults::with_default(e0, "date"@, date);
    let e2 = defaults::with_default_id(e1);
    let e3 = defaults::with_default(e2, "title"@, title);
    let e4 = defaults::with_default(e3, "type"@, ValueView::Str("note"@));
    let e5 = defaults::with_default(e4, "tags"@, ValueView::List(Seq::empty()));
    let e6 = defaults::with_default(e5, "publish"@, ValueView::Bool(false));
    let e7 = defaults::with_default(e6, "processed"@, ValueView::Bool(false));
    lemma_default_set(e0, "date"@, date, k);
    lemma_default_id(e1, k);
    lemma_default_set(e2, "title"@, title, k);
    lemma_default_set(e3, "type"@, ValueView::Str("note"@), k);
    lemma_default_set(e4, "tags"@, ValueView::List(Seq::empty()), k);
    lemma_default_set(e5, "publish"@, ValueView::Bool(false), k);
    lemma_default_set(e6, "processed"@, ValueView::Bool(false), k);
    lemma_fixed_fields(e7, k);
}

/// After the consistency stage `type` is what it was, or the string `note`
/// where it was missing.
pub proof fn lemma_consistent_type(n: NoteView, now: i64)
    ensures
        lookup(consistent(n, now).metadata, "type"@) == if defaults::missing(
            n.metadata,
            "type"@,
        ) {
            Some(ValueView::Str("note"@))
        } else {
            lookup(n.metadata, "type"@)
        },
{
    lemma_consistency_keys();
    lemma_default_keys();
    let date = ValueView::DateTime(crate::types::DateTime { timestamp: now, offset: 0 });
    let title = ValueView::Str(defaults::heading_title(n.sections));
    let kind = ValueView::Str("note"@);
    let e0 = n.metadata;
    let e1 = defaults::with_default(e0, "date"@, date);
    let e2 = defaults::with_default_id(e1);
    let e3 = defaults::with_default(e2, "title"@, title);
    let e4 = defaults::with_default(e3, "type"@, kind);
    let e5 = defaults::with_default(e4, "tags"@, ValueView::List(Seq::empty()));
    let e6 = defaults::with_default(e5, "publish"@, ValueView::Bool(false));
    let e7 = defaults::with_default(e6, "processed"@, ValueView::Bool(false));
    lemma_default_set(e0, "date"@, date, "type"@);
    lemma_default_id(e1, "type"@);
    lemma_default_set(e2, "title"@, title, "type"@);
    lemma_put(e3, "type"@, kind, "type"@);
    lemma_default_set(e4, "tags"@, ValueView::List(Seq::empty()), "type"@);
    lemma_default_set(e5, "publish"@, ValueView::Bool(false), "type"@);
    lemma_default_set(e6, "processed"@, ValueView::Bool(false), "type"@);
    lemma_fixed_fields(e7, "type"@);
}

/// Settling `completed` leaves every key but `completed` and `gtd-list` as
/// it was.
pub proof fn lemma_completed_other(e: Entries, k: Seq<char>)
    requires
        k != "completed"@,
        k != "gtd-list"@,
    ensures
        lookup(fixers::with_completed(e), k) == lookup(e, k),
{
    lemma_put(e, "completed"@, ValueView::Bool(true), k);
    lemma_put(e, "completed"@, ValueView::Bool(false), k);
    lemma_without(put(e, "completed"@, ValueView::Bool(true)), "gtd-list"@, k);
}

} // verus!
