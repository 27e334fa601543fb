//! The migration stage: legacy field names and values are rewritten.

pub mod move_tag_to_tags;
pub mod move_zkn_id;
pub mod normalize_type;
pub mod project;

use vstd::prelude::*;

use crate::fields::{has_key, lemma_put, lemma_without, lookup, without, Entries};
use crate::types::{NoteView, ValueView, ZettelData};

verus! {

/// The note after the three base migrations, in their fixed order.
pub open spec fn migrated(n: NoteView) -> NoteView {
    NoteView {
        metadata: normalize_type::normalized_type(
            move_tag_to_tags::moved_tag(move_zkn_id::moved_zkn_id(n.metadata)),
        ),
        ..n
    }
}

/// Runs the base migrations: `zkn-id` to `id`, `tag` into `tags`, then the
/// legacy values of `type`.
pub fn migrate(data: &mut ZettelData)
    ensures
        final(data)@ == migrated(old(data)@),
{
    move_zkn_id::migrate(data);
    move_tag_to_tags::migrate(data);
    normalize_type::migrate(data);
}

/// The note after the migrations of a project note: the base migrations,
/// then the log of the first section, then the parent reference.
pub open spec fn project_migrated(n: NoteView) -> NoteView {
    project::parent_migrated(project::loop_log_migrated(migrated(n)))
}

/// Runs the migrations of a project note.
pub fn migrate_project(data: &mut ZettelData)
    ensures
        final(data)@ == project_migrated(old(data)@),
{
    migrate(data);
    project::migrate_loop_log(data);
    project::migrate_parent_reference(data);
}

/// The keys that the base migrations read and write are five different keys.
pub proof fn lemma_migration_keys()
    ensures
        "zkn-id"@ != "id"@,
        "zkn-id"@ != "tag"@,
        "zkn-id"@ != "tags"@,
        "zkn-id"@ != "type"@,
        "id"@ != "tag"@,
        "id"@ != "tags"@,
        "id"@ != "type"@,
        "tag"@ != "tags"@,
        "tag"@ != "type"@,
        "tags"@ != "type"@,
{
    reveal_strlit("zkn-id");
    reveal_strlit("id");
    reveal_strlit("tag");
    reveal_strlit("tags");
    reveal_strlit("type");
    assert("zkn-id"@.len() == 6 && "id"@.len() == 2 && "tag"@.len() == 3);
    assert("tags"@.len() == 4 && "type"@.len() == 4);
    assert("tags"@[1] != "type"@[1]);
}

/// What moving `zkn-id` does to a key `k`: `zkn-id` is gone, `id` is there
/// if either was, and any other key is there, with its value, as before.
pub proof fn lemma_moved_zkn_id(e: Entries, k: Seq<char>)
    ensures
        !has_key(move_zkn_id::moved_zkn_id(e), "zkn-id"@),
        k != "zkn-id"@ && k != "id"@ ==> lookup(move_zkn_id::moved_zkn_id(e), k) == lookup(e, k),
{
    lemma_migration_keys();
    let rest = without(e, "zkn-id"@);
    lemma_without(e, "zkn-id"@, "zkn-id"@);
    lemma_without(e, "zkn-id"@, k);
    lemma_without(e, "zkn-id"@, "id"@);
    if let Some(v) = lookup(e, "zkn-id"@) {
        lemma_put(rest, "id"@, v, "zkn-id"@);
        lemma_put(rest, "id"@, v, k);
    }
}

/// What folding `tag` into `tags` does to a key `k`: `tag` is gone, and any
/// key but `tag` and `tags` is there, with its value, as before.
pub proof fn lemma_moved_tag(e: Entries, k: Seq<char>)
    ensures
        !has_key(move_tag_to_tags::moved_tag(e), "tag"@),
        k != "tag"@ && k != "tags"@ ==> lookup(move_tag_to_tags::moved_tag(e), k) == lookup(e, k),
        k != "tag"@ && k != "tags"@ ==> has_key(move_tag_to_tags::moved_tag(e), k) == has_key(e, k),
{
    lemma_migration_keys();
    let rest = without(e, "tag"@);
    lemma_without(e, "tag"@, "tag"@);
    lemma_without(e, "tag"@, k);
    if let Some(tag) = lookup(e, "tag"@) {
        if let Some(items) = move_tag_to_tags::tag_items(tag) {
            match lookup(rest, "tags"@) {
                None => {
                    lemma_put(rest, "tags"@, ValueView::List(items), "tag"@);
                    lemma_put(rest, "tags"@, ValueView::List(items), k);
                },
                Some(ValueView::List(present)) => {
                    lemma_put(rest, "tags"@, ValueView::List(present + items), "tag"@);
                    lemma_put(rest, "tags"@, ValueView::List(present + items), k);
                },
                Some(_) => {},
            }
        }
    }
}

/// What rewriting `type` does to a key `k`: no key comes or goes, and any
/// key but `type` keeps its value.
pub proof fn lemma_normalized_type(e: Entries, k: Seq<char>)
    ensures
        has_key(normalize_type::normalized_type(e), k) == has_key(e, k),
        k != "type"@ ==> lookup(normalize_type::normalized_type(e), k) == lookup(e, k),
{
    if let Some(ValueView::Str(t)) = lookup(e, "type"@) {
        lemma_put(e, "type"@, ValueView::Str(normalize_type::current_type(t)), k);
    }
}

/// After the migration stage the metadata has neither the key `tag` nor the
/// key `zkn-id`.
pub proof fn lemma_migration_drops_legacy_keys(n: NoteView)
    ensures
        !has_key(migrated(n).metadata, "tag"@),
        !has_key(migrated(n).metadata, "zkn-id"@),
{
    lemma_migration_keys();
    let e1 = move_zkn_id::moved_zkn_id(n.metadata);
    let e2 = move_tag_to_tags::moved_tag(e1);
    lemma_moved_zkn_id(n.metadata, "zkn-id"@);
    lemma_moved_tag(e1, "zkn-id"@);
    lemma_normalized_type(e2, "tag"@);
    lemma_normalized_type(e2, "zkn-id"@);
}

/// The base migrations leave a migrated note as it is.
pub proof fn lemma_migration_idempotent(n: NoteView)
    ensures
        migrated(migrated(n)) == migrated(n),
{
    lemma_migration_drops_legacy_keys(n);
    let e = migrated(n).metadata;
    let e2 = move_tag_to_tags::moved_tag(move_zkn_id::moved_zkn_id(n.metadata));
    reveal_strlit("loop");
    reveal_strlit("wiki-article");
    reveal_strlit("zettel");
    reveal_strlit("project");
    reveal_strlit("note");
    assert("loop"@.len() == 4 && "wiki-article"@.len() == 12 && "zettel"@.len() == 6);
    assert("project"@.len() == 7 && "note"@.len() == 4);
    assert("note"@[0] != "loop"@[0]);
    if let Some(ValueView::Str(t)) = lookup(e2, "type"@) {
        if normalize_type::is_legacy_type(t) {
            lemma_put(e2, "type"@, ValueView::Str(normalize_type::current_type(t)), "type"@);
        }
    }
}

/// A note whose `type` is the string `loop`, `wiki-article` or `zettel`
/// before the migration stage has `project`, `note` or `note` after it.
pub proof fn lemma_migration_rewrites_type(n: NoteView, t: Seq<char>)
    requires
        lookup(n.metadata, "type"@) == Some(ValueView::Str(t)),
        normalize_type::is_legacy_type(t),
    ensures
        lookup(migrated(n).metadata, "type"@) == Some(
            ValueView::Str(normalize_type::current_type(t)),
        ),
        t == "loop"@ ==> normalize_type::current_type(t) == "project"@,
        t == "wiki-article"@ ==> normalize_type::current_type(t) == "note"@,
        t == "zettel"@ ==> normalize_type::current_type(t) == "note"@,
{
    lemma_migration_keys();
    let e1 = move_zkn_id::moved_zkn_id(n.metadata);
    let e2 = move_tag_to_tags::moved_tag(e1);
    lemma_moved_zkn_id(n.metadata, "type"@);
    lemma_moved_tag(e1, "type"@);
    lemma_put(e2, "type"@, ValueView::Str(normalize_type::current_type(t)), "type"@);
    reveal_strlit("loop");
    reveal_strlit("wiki-article");
    reveal_strlit("zettel");
    assert("loop"@.len() == 4 && "wiki-article"@.len() == 12 && "zettel"@.len() == 6);
}

/// What a value under `type` is after the migration stage.
pub open spec fn migrated_type(before: Option<ValueView>) -> Option<ValueView> {
    match before {
        Some(ValueView::Str(t)) => if normalize_type::is_legacy_type(t) {
            Some(ValueView::Str(normalize_type::current_type(t)))
        } else {
            before
        },
        _ => before,
    }
}

/// The migration stage changes `type` as `migrated_type` says, and leaves
/// every key but `zkn-id`, `id`, `tag`, `tags` and `type` as it was.
pub proof fn lemma_migrated_lookup(n: NoteView, k: Seq<char>)
    ensures
        lookup(migrated(n).metadata, "type"@) == migrated_type(lookup(n.metadata, "type"@)),
        k != "zkn-id"@ && k != "id"@ && k != "tag"@ && k != "tags"@ && k != "type"@ ==> lookup(
            migrated(n).metadata,
            k,
        ) == lookup(n.metadata, k),
{
    lemma_migration_keys();
    let e1 = move_zkn_id::moved_zkn_id(n.metadata);
    let e2 = move_tag_to_tags::moved_tag(e1);
    lemma_moved_zkn_id(n.metadata, "type"@);
    lemma_moved_tag(e1, "type"@);
    lemma_moved_zkn_id(n.metadata, k);
    lemma_moved_tag(e1, k);
    lemma_normalized_type(e2, k);
    if let Some(ValueView::Str(t)) = lookup(e2, "type"@) {
        lemma_put(e2, "type"@, ValueView::Str(normalize_type::current_type(t)), "type"@);
    }
}

/// The migration stage leaves a note without legacy keys and without a
/// legacy type as it is.
pub proof fn lemma_migrated_fixed(n: NoteView)
    requires
        !has_key(n.metadata, "zkn-id"@),
        !has_key(n.metadata, "tag"@),
        migrated_type(lookup(n.metadata, "type"@)) == lookup(n.metadata, "type"@),
    ensures
        migrated(n) == n,
{
    reveal_strlit("loop");
    reveal_strlit("wiki-article");
    reveal_strlit("zettel");
    reveal_strlit("project");
    reveal_strlit("note");
    assert("loop"@.len() == 4 && "wiki-article"@.len() == 12 && "zettel"@.len() == 6);
    assert("project"@.len() == 7 && "note"@.len() == 4);
    assert("note"@[0] != "loop"@[0]);
}

} // verus!
