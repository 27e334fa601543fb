//! Legacy values of `type` become the current ones.

use vstd::prelude::*;
use vstd::string::*;

use crate::fields::{fields_get, fields_insert, lookup, put, Entries};
use crate::text::{same_str};
use crate::types::{NoteView, ValueView, YamlValue, ZettelData};

verus! {

/// Whether `t` is a legacy value of `type`.
pub open spec fn is_legacy_type(t: Seq<char>) -> bool {
    t == "loop"@ || t == "wiki-article"@ || t == "zettel"@
}

/// The current value for a value of `type`: `loop` is `project`,
/// `wiki-article` and `zettel` are `note`, any other stays.
pub open spec fn current_type(t: Seq<char>) -> Seq<char> {
    if t == "loop"@ {
        "project"@
    } else if t == "wiki-article"@ || t == "zettel"@ {
        "note"@
    } else {
        t
    }
}

/// The entries with a legacy string under `type` replaced.
pub open spec fn normalized_type(e: Entries) -> Entries {
    match lookup(e, "type"@) {
        Some(ValueView::Str(t)) => if is_legacy_type(t) {
            put(e, "type"@, ValueView::Str(current_type(t)))
        } else {
            e
        },
        _ => e,
    }
}

/// Rewrites a legacy value of `type`; anything else is left as it is.
pub fn migrate(data: &mut ZettelData)
    ensures
        final(data)@ == (NoteView { metadata: normalized_type(old(data)@.metadata), ..old(data)@ }),
{
    let replacement: Option<&str> = match fields_get(&data.metadata, "type") {
        Some(YamlValue::String(s)) => {
            if same_str(s.as_str(), "loop") {
                Some("project")
            } else if same_str(s.as_str(), "wiki-article") || same_str(s.as_str(), "zettel") {
                Some("note")
            } else {
                None
            }
        },
        _ => None,
    };
    if let Some(t) = replacement {
        fields_insert(&mut data.metadata, String::from_str("type"), YamlValue::String(String::from_str(t)));
    }
}

} // verus!
