//! The legacy key `zkn-id` becomes `id`.

use vstd::prelude::*;
use vstd::string::*;

use crate::fields::{
    fields_contains_key, fields_insert, fields_remove, has_key, lemma_without_absent, lookup, put,
    without, Entries,
};
use crate::types::{NoteView, ZettelData};

verus! {

/// The entries once `zkn-id` is gone: its value stands under `id` unless
/// `id` was there already.
pub open spec fn moved_zkn_id(e: Entries) -> Entries {
    match lookup(e, "zkn-id"@) {
        Some(v) => {
            let rest = without(e, "zkn-id"@);
            if has_key(rest, "id"@) {
                rest
            } else {
                put(rest, "id"@, v)
            }
        },
        None => e,
    }
}

/// Removes `zkn-id` from the metadata and, where there is no `id`, keeps
/// its value under `id`.
pub fn migrate(data: &mut ZettelData)
    ensures
        final(data)@ == (NoteView { metadata: moved_zkn_id(old(data)@.metadata), ..old(data)@ }),
{
    let taken = fields_remove(&mut data.metadata, "zkn-id");
    match taken {
        Some(v) => {
            if !fields_contains_key(&data.metadata, "id") {
                fields_insert(&mut data.metadata, String::from_str("id"), v);
            }
        },
        None => {
            proof {
                lemma_without_absent(old(data)@.metadata, "zkn-id"@);
            }
        },
    }
}

} // verus!
