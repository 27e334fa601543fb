//! The parser: a Markdown file is taken apart into metadata, reference and
//! sections.

pub mod back_matter;
pub mod enrichment;
pub mod front_matter;
pub mod key_normalizer;
pub mod sections;

use vstd::prelude::*;
use vstd::string::*;

use crate::fields::{fields_contains_key, fields_insert, fields_new, has_key, put, Entries};
use crate::types::{DateTime, NoteView, ValueView, YamlValue, ZettelData};

verus! {

/// The mapping of a note that a parsed block gives: its keys in kebab case,
/// or the empty mapping where there was no block.
pub open spec fn block_fields(block: Option<Entries>) -> Entries {
    match block {
        Some(e) => key_normalizer::keys_normalized(e, e.len() as int),
        None => Seq::empty(),
    }
}

/// The note that the text of a file gives: the front matter is taken off
/// first, then the back matter, and what is left is cut into sections.
pub open spec fn parsed(content: Seq<char>) -> NoteView {
    let front = front_matter::metadata_of(content);
    let back = back_matter::reference_of(front.1);
    NoteView {
        metadata: block_fields(front.0),
        reference: block_fields(back.0),
        sections: sections::sections_of(back.1),
        file_path: None,
    }
}

/// `e` with `v` under `k` where `k` is no key of it.
pub open spec fn with_absent(e: Entries, k: Seq<char>, v: Option<ValueView>) -> Entries {
    match v {
        Some(v) => if has_key(e, k) {
            e
        } else {
            put(e, k, v)
        },
        None => e,
    }
}

/// The metadata with what the file stem tells: its date under `date` and
/// its title under `title`, each only where the key is absent.
pub open spec fn enriched(e: Entries, stem: Option<Seq<char>>) -> Entries {
    match stem {
        Some(s) => with_absent(
            with_absent(
                e,
                "date"@,
                match enrichment::filename_date(s) {
                    Some(d) => Some(ValueView::DateTime(d)),
                    None => None,
                },
            ),
            "title"@,
            match enrichment::filename_title(s) {
                Some(t) => Some(ValueView::Str(t)),
                None => None,
            },
        ),
        None => e,
    }
}

/// The note that a file gives: the note of its text, with its path, and
/// with what its stem tells.
pub open spec fn parsed_file(path: Seq<char>, stem: Option<Seq<char>>, content: Seq<char>) -> NoteView {
    NoteView {
        metadata: enriched(parsed(content).metadata, stem),
        file_path: Some(path),
        ..parsed(content)
    }
}

/// The note of a file, with the time of the file as its date where it has
/// none.
pub open spec fn parsed_with_fallback(
    path: Seq<char>,
    stem: Option<Seq<char>>,
    content: Seq<char>,
    file_time: Option<i64>,
) -> NoteView {
    let n = parsed_file(path, stem, content);
    NoteView {
        metadata: with_absent(
            n.metadata,
            "date"@,
            match file_time {
                Some(t) => Some(ValueView::DateTime(DateTime { timestamp: t, offset: 0 })),
                None => None,
            },
        ),
        ..n
    }
}

/// Parses the text of a Markdown file into a note.
pub fn parse_content(content: &str) -> (r: ZettelData)
    ensures
        r@ == parsed(content@),
{
    let (metadata, remaining) = front_matter::extract_metadata(content);
    let (reference, remaining) = back_matter::extract_reference(remaining.as_str());
    ZettelData {
        metadata: match metadata {
            Some(m) => key_normalizer::normalize_keys(m),
            None => fields_new(),
        },
        reference: match reference {
            Some(r) => key_normalizer::normalize_keys(r),
            None => fields_new(),
        },
        sections: sections::split_into_sections(remaining.as_str()),
        file_path: None,
    }
}

fn set_absent(data: &mut ZettelData, key: &str, value: Option<YamlValue>)
    ensures
        final(data)@ == (NoteView {
            metadata: with_absent(
                old(data)@.metadata,
                key@,
                match value {
                    Some(v) => Some(v@),
                    None => None,
                },
            ),
            ..old(data)@
        }),
{
    if let Some(v) = value {
        if !fields_contains_key(&data.metadata, key) {
            fields_insert(&mut data.metadata, String::from_str(key), v);
        }
    }
}

/// Parses a file that was read: `path` is where it lies, `stem` the stem of
/// its name where it has one, `content` its text.
pub fn parse_file(path: &str, stem: Option<&str>, content: &str) -> (r: ZettelData)
    ensures
        r@ == parsed_file(
            path@,
            match stem {
                Some(s) => Some(s@),
                None => None,
            },
            content@,
        ),
{
    let mut data = parse_content(content);
    data.file_path = Some(String::from_str(path));
    if let Some(s) = stem {
        set_absent(
            &mut data,
            "date",
            match enrichment::date_from_filename(s) {
                Some(d) => Some(YamlValue::DateTime(d)),
                None => None,
            },
        );
        set_absent(
            &mut data,
            "title",
            match enrichment::title_from_filename(s) {
                Some(t) => Some(YamlValue::String(t)),
                None => None,
            },
        );
    }
    data
}

/// Parses a file that was read, and takes `file_time`, the time at which
/// the file was made, in seconds since the Unix epoch, as its date where
/// neither its front matter nor its name gives one.
pub fn parse_file_with_fallback(
    path: &str,
    stem: Option<&str>,
    content: &str,
    file_time: Option<i64>,
) -> (r: ZettelData)
    ensures
        r@ == parsed_with_fallback(
            path@,
            match stem {
                Some(s) => Some(s@),
                None => None,
            },
            content@,
            file_time,
        ),
{
    let mut data = parse_file(path, stem, content);
    set_absent(
        &mut data,
        "date",
        match file_time {
            Some(t) => Some(YamlValue::DateTime(DateTime { timestamp: t, offset: 0 })),
            None => None,
        },
    );
    data
}

} // verus!
