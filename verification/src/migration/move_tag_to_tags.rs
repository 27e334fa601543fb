//! The legacy key `tag` is folded into the list under `tags`.

use vstd::prelude::*;
use vstd::string::*;

use crate::fields::{
    fields_get, fields_insert, fields_remove, lemma_without_absent, lookup, put, without, Entries,
};
use crate::types::{list_view, NoteView, ValueView, YamlValue, ZettelData};

verus! {

/// The items that a value under `tag` stands for: a string is one item, a
/// list is its items, anything else is discarded.
pub open spec fn tag_items(tag: ValueView) -> Option<Seq<ValueView>> {
    match tag {
        ValueView::Str(s) => Some(seq![ValueView::Str(s)]),
        ValueView::List(items) => Some(items),
        _ => None,
    }
}

/// The entries once `tag` is gone: its items are appended to the list under
/// `tags`, which is created where it is missing. A value under `tags` that
/// is no list is left as it is.
pub open spec fn moved_tag(e: Entries) -> Entries {
    match lookup(e, "tag"@) {
        None => e,
        Some(tag) => {
            let rest = without(e, "tag"@);
            match tag_items(tag) {
                None => rest,
                Some(items) => match lookup(rest, "tags"@) {
                    None => put(rest, "tags"@, ValueView::List(items)),
                    Some(ValueView::List(present)) => put(
                        rest,
                        "tags"@,
                        ValueView::List(present + items),
                    ),
                    Some(_) => rest,
                },
            }
        },
    }
}

/// Removes `tag` from the metadata and appends what it held to `tags`.
pub fn migrate(data: &mut ZettelData)
    ensures
        final(data)@ == (NoteView { metadata: moved_tag(old(data)@.metadata), ..old(data)@ }),
{
    let tag = match fields_remove(&mut data.metadata, "tag") {
        Some(t) => t,
        None => {
            proof {
                lemma_without_absent(old(data)@.metadata, "tag"@);
            }
            return ;
        },
    };
    let mut items: Vec<YamlValue> = match tag {
        YamlValue::String(s) => {
            let mut one: Vec<YamlValue> = Vec::new();
            one.push(YamlValue::String(s));
            assert(list_view(one@) =~= seq![ValueView::Str(s@)]);
            one
        },
        YamlValue::List(l) => l,
        _ => {
            return ;
        },
    };
    let ghost added = list_view(items@);
    let mut list: Vec<YamlValue> = match fields_get(&data.metadata, "tags") {
        None => Vec::new(),
        Some(v) => match v.clone() {
            YamlValue::List(copy) => copy,
            _ => {
                return ;
            },
        },
    };
    let ghost present = list_view(list@);
    list.append(&mut items);
    assert(list_view(list@) =~= present + added);
    assert(Seq::<ValueView>::empty() + added =~= added);
    fields_insert(&mut data.metadata, String::from_str("tags"), YamlValue::List(list));
}

} // verus!
