//! Defaults for the metadata fields that every note has.

use vstd::prelude::*;
use vstd::string::*;

use crate::datetime::{format_utc, now_utc, utc_text};
use crate::fields::{fields_get, fields_insert, lookup, put, Entries};
use crate::text::{has_at, parse_int, parsed_int, slice, starts_at, to_chars, to_string};
use crate::types::{DateTime, NoteView, ValueView, YamlValue, ZettelData};

verus! {

/// A field is missing where its key is absent or its value is null.
pub open spec fn missing(e: Entries, k: Seq<char>) -> bool {
    match lookup(e, k) {
        None => true,
        Some(ValueView::Null) => true,
        Some(_) => false,
    }
}

/// `e` with `v` under `k` where the field is missing.
pub open spec fn with_default(e: Entries, k: Seq<char>, v: ValueView) -> Entries {
    if missing(e, k) {
        put(e, k, v)
    } else {
        e
    }
}

/// The identifier that a date gives: the date in UTC written as
/// `%Y%m%d%H%M%S`, read as a number.
pub open spec fn id_of(date: DateTime) -> Option<i64> {
    match utc_text(date.timestamp, "%Y%m%d%H%M%S"@) {
        Some(s) => parsed_int(s),
        None => None,
    }
}

/// `e` with the identifier of its date under `id`, where `id` is missing and
/// the date gives one.
pub open spec fn with_default_id(e: Entries) -> Entries {
    if missing(e, "id"@) {
        match lookup(e, "date"@) {
            Some(ValueView::DateTime(date)) => match id_of(date) {
                Some(i) => put(e, "id"@, ValueView::Int(i)),
                None => e,
            },
            _ => e,
        }
    } else {
        e
    }
}

/// The title that the sections give: the text of the first heading after
/// `# ` where the first section is a first-level heading, else
/// `Unknown title`.
pub open spec fn heading_title(sections: Seq<(Seq<char>, Seq<char>)>) -> Seq<char> {
    if sections.len() > 0 && has_at(sections[0].0, 0, "# "@) {
        sections[0].0.subrange(2, sections[0].0.len() as int)
    } else {
        "Unknown title"@
    }
}

/// The note with every missing default set, `now` being the time on the
/// clock: `date`, `id`, `title`, `type`, `tags`, `publish`, `processed`, in
/// this order.
pub open spec fn with_defaults(n: NoteView, now: i64) -> NoteView {
    let e1 = with_default(
        n.metadata,
        "date"@,
        ValueView::DateTime(DateTime { timestamp: now, offset: 0 }),
    );
    let e2 = with_default_id(e1);
    let e3 = with_default(e2, "title"@, ValueView::Str(heading_title(n.sections)));
    let e4 = with_default(e3, "type"@, ValueView::Str("note"@));
    let e5 = with_default(e4, "tags"@, ValueView::List(Seq::empty()));
    let e6 = with_default(e5, "publish"@, ValueView::Bool(false));
    let e7 = with_default(e6, "processed"@, ValueView::Bool(false));
    NoteView { metadata: e7, ..n }
}

/// Whether the field `key` of the metadata is missing.
pub fn is_missing(data: &ZettelData, key: &str) -> (r: bool)
    ensures
        r == missing(data@.metadata, key@),
{
    match fields_get(&data.metadata, key) {
        None => true,
        Some(YamlValue::Null) => true,
        Some(_) => false,
    }
}

fn set_default(data: &mut ZettelData, key: &str, value: YamlValue)
    ensures
        final(data)@ == (NoteView {
            metadata: with_default(old(data)@.metadata, key@, value@),
            ..old(data)@
        }),
{
    if is_missing(data, key) {
        fields_insert(&mut data.metadata, String::from_str(key), value);
    }
}

fn set_default_id(data: &mut ZettelData)
    ensures
        final(data)@ == (NoteView { metadata: with_default_id(old(data)@.metadata), ..old(data)@ }),
{
    if is_missing(data, "id") {
        let id = match fields_get(&data.metadata, "date") {
            Some(YamlValue::DateTime(date)) => match format_utc(date.timestamp, "%Y%m%d%H%M%S") {
                Some(s) => parse_int(s.as_str()),
                None => None,
            },
            _ => None,
        };
        if let Some(i) = id {
            fields_insert(&mut data.metadata, String::from_str("id"), YamlValue::Int(i));
        }
    }
}

fn title_from_heading(data: &ZettelData) -> (r: String)
    ensures
        r@ == heading_title(data@.sections),
{
    if data.sections.len() > 0 {
        let heading = to_chars(data.sections[0].0.as_str());
        let mark = to_chars("# ");
        proof {
            reveal_strlit("# ");
        }
        if starts_at(&heading, 0, &mark) {
            let rest = slice(&heading, 2, heading.len());
            return to_string(&rest);
        }
    }
    String::from_str("Unknown title")
}

/// Sets the defaults that are missing, with `now` as the time on the clock.
pub fn set_missing_defaults_at(data: &mut ZettelData, now: i64)
    ensures
        final(data)@ == with_defaults(old(data)@, now),
{
    set_default(data, "date", YamlValue::DateTime(DateTime { timestamp: now, offset: 0 }));
    set_default_id(data);
    let title = title_from_heading(data);
    set_default(data, "title", YamlValue::String(title));
    set_default(data, "type", YamlValue::String(String::from_str("note")));
    let none: Vec<YamlValue> = Vec::new();
    assert(crate::types::list_view(none@) =~= Seq::empty());
    set_default(data, "tags", YamlValue::List(none));
    set_default(data, "publish", YamlValue::Bool(false));
    set_default(data, "processed", YamlValue::Bool(false));
}

/// Sets the defaults that are missing; a missing `date` is the time on the
/// machine's clock, in whole seconds and in UTC.
pub fn set_missing_defaults(data: &mut ZettelData)
    ensures
        exists|now: i64| final(data)@ == with_defaults(old(data)@, now),
{
    let now = now_utc();
    set_missing_defaults_at(data, now);
}

} // verus!
