//! Scanning a corpus: the pipeline that every note goes through, the
//! filters on metadata, the search, and the decisions of the metadata cache.
//! Walking directories and reading files is left to the caller, who hands
//! over what was read.

use vstd::prelude::*;
use vstd::string::*;

pub use crate::cache::{load_cached, refresh_cache};

use crate::consistency::{
    consistent, ensure_consistency_at, ensure_project_consistency, lemma_consistency_idempotent,
    lemma_consistent_other, lemma_consistent_type, project_consistent, title_settled,
};
use crate::datetime::now_utc;
use crate::fields::{entries, fields_get, has_key, lookup, Entries, Fields};
use crate::migration::{
    lemma_migrated_fixed, lemma_migrated_lookup, lemma_migration_drops_legacy_keys, migrate,
    migrate_project, migrated, project_migrated,
};
use crate::parser::{parse_file, parsed_file};
use crate::text::{contains_seq, find, lower, lower_of, same_str, to_chars};
use crate::types::{list_view, NoteView, ValueView, YamlValue, ZettelData};

verus! {

/// A value that a metadata field is compared with.
#[derive(Debug, Clone)]
pub enum MetaFilterValue {
    Str(String),
    Bool(bool),
    Int(i64),
}

/// What a `MetaFilterValue` holds.
pub enum FilterView {
    Str(Seq<char>),
    Bool(bool),
    Int(i64),
}

impl View for MetaFilterValue {
    type V = FilterView;

    open spec fn view(&self) -> FilterView {
        match self {
            MetaFilterValue::Str(s) => FilterView::Str(s@),
            MetaFilterValue::Bool(b) => FilterView::Bool(*b),
            MetaFilterValue::Int(i) => FilterView::Int(*i),
        }
    }
}

/// Whether a value is the one that a filter asks for: a string, a flag or a
/// number of the same kind and the same content.
pub open spec fn filter_eq(v: ValueView, f: FilterView) -> bool {
    match (v, f) {
        (ValueView::Str(a), FilterView::Str(b)) => a == b,
        (ValueView::Bool(a), FilterView::Bool(b)) => a == b,
        (ValueView::Int(a), FilterView::Int(b)) => a == b,
        _ => false,
    }
}

/// Whether a value is the one that a filter asks for.
pub fn yaml_eq_filter(yaml: &YamlValue, filter: &MetaFilterValue) -> (r: bool)
    ensures
        r == filter_eq(yaml@, filter@),
{
    match (yaml, filter) {
        (YamlValue::String(a), MetaFilterValue::Str(b)) => same_str(a.as_str(), b.as_str()),
        (YamlValue::Bool(a), MetaFilterValue::Bool(b)) => *a == *b,
        (YamlValue::Int(a), MetaFilterValue::Int(b)) => *a == *b,
        _ => false,
    }
}

/// What a list of conditions holds.
pub open spec fn conditions_view(c: Seq<(String, MetaFilterValue)>) -> Seq<(Seq<char>, FilterView)> {
    Seq::new(c.len(), |i: int| (c[i].0@, c[i].1@))
}

/// Whether the metadata have, under the key of a condition, the value that
/// it asks for.
pub open spec fn condition_holds(e: Entries, c: (Seq<char>, FilterView)) -> bool {
    match lookup(e, c.0) {
        Some(v) => filter_eq(v, c.1),
        None => false,
    }
}

/// Whether the metadata meet every condition.
pub open spec fn all_hold(e: Entries, c: Seq<(Seq<char>, FilterView)>) -> bool {
    forall|i: int| 0 <= i < c.len() ==> condition_holds(e, #[trigger] c[i])
}

/// Whether the metadata meet every condition.
pub fn metadata_matches(meta: &Fields, conditions: &Vec<(String, MetaFilterValue)>) -> (r: bool)
    ensures
        r == all_hold(entries(*meta), conditions_view(conditions@)),
{
    let ghost c = conditions_view(conditions@);
    let mut i: usize = 0;
    while i < conditions.len()
        invariant
            i <= conditions.len(),
            c == conditions_view(conditions@),
            forall|j: int| 0 <= j < i ==> condition_holds(entries(*meta), #[trigger] c[j]),
        decreases conditions.len() - i,
    {
        let holds = match fields_get(meta, conditions[i].0.as_str()) {
            Some(actual) => yaml_eq_filter(actual, &conditions[i].1),
            None => false,
        };
        if !holds {
            assert(!condition_holds(entries(*meta), c[i as int]));
            return false;
        }
        i += 1;
    }
    true
}

/// Whether a text, in lower case, holds the query.
pub open spec fn text_matches(t: Seq<char>, q: Seq<char>) -> bool {
    contains_seq(lower_of(t), q)
}

/// Whether one of the sections holds the query in its heading or its body.
pub open spec fn sections_match(s: Seq<(Seq<char>, Seq<char>)>, q: Seq<char>) -> bool {
    exists|i: int| 0 <= i < s.len() && #[trigger] section_matches(s[i], q)
}

/// Whether a section holds the query in its heading or its body.
pub open spec fn section_matches(s: (Seq<char>, Seq<char>), q: Seq<char>) -> bool {
    text_matches(s.0, q) || text_matches(s.1, q)
}

/// Whether a value is a string that holds the query.
pub open spec fn value_matches(v: ValueView, q: Seq<char>) -> bool {
    v matches ValueView::Str(t) && text_matches(t, q)
}

/// Whether one of the tags is a string that holds the query.
pub open spec fn tags_match(tags: Seq<ValueView>, q: Seq<char>) -> bool {
    exists|i: int| 0 <= i < tags.len() && #[trigger] value_matches(tags[i], q)
}

/// Whether a note holds the query: in a heading or a body, in its title, or
/// in one of its tags. The query is taken as it is; the texts are put in
/// lower case.
pub open spec fn query_matches(n: NoteView, q: Seq<char>) -> bool {
    sections_match(n.sections, q) || (match lookup(n.metadata, "title"@) {
        Some(v) => value_matches(v, q),
        None => false,
    }) || (match lookup(n.metadata, "tags"@) {
        Some(ValueView::List(tags)) => tags_match(tags, q),
        _ => false,
    })
}

fn holds_query(t: &str, query: &Vec<char>) -> (r: bool)
    ensures
        r == text_matches(t@, query@),
{
    find(&lower(&to_chars(t)), 0, query).is_some()
}

/// Whether a note holds a query that is in lower case.
pub fn matches_query(data: &ZettelData, query_lower: &str) -> (r: bool)
    ensures
        r == query_matches(data@, query_lower@),
{
    let query = to_chars(query_lower);
    let mut i: usize = 0;
    while i < data.sections.len()
        invariant
            i <= data.sections.len(),
            query@ == query_lower@,
            forall|j: int| 0 <= j < i ==> !section_matches(#[trigger] data@.sections[j], query@),
        decreases data.sections.len() - i,
    {
        if holds_query(data.sections[i].0.as_str(), &query) || holds_query(
            data.sections[i].1.as_str(),
            &query,
        ) {
            assert(section_matches(data@.sections[i as int], query@));
            return true;
        }
        i += 1;
    }
    if let Some(YamlValue::String(title)) = fields_get(&data.metadata, "title") {
        if holds_query(title.as_str(), &query) {
            return true;
        }
    }
    if let Some(YamlValue::List(tags)) = fields_get(&data.metadata, "tags") {
        let ghost all = list_view(tags@);
        let mut j: usize = 0;
        while j < tags.len()
            invariant
                j <= tags.len(),
                query@ == query_lower@,
                all == list_view(tags@),
                lookup(data@.metadata, "tags"@) == Some(ValueView::List(all)),
                forall|m: int| 0 <= m < j ==> !value_matches(#[trigger] all[m], query@),
            decreases tags.len() - j,
        {
            if let YamlValue::String(t) = &tags[j] {
                if holds_query(t.as_str(), &query) {
                    assert(value_matches(all[j as int], query@));
                    return true;
                }
            }
            j += 1;
        }
    }
    false
}

/// Whether a note is a project note: its `type` is the string `project` or
/// the string `loop`.
pub open spec fn is_project(n: NoteView) -> bool {
    match lookup(n.metadata, "type"@) {
        Some(ValueView::Str(t)) => t == "project"@ || t == "loop"@,
        _ => false,
    }
}

/// The note after the pipeline, `now` being the time on the clock:
/// consistency, migration, consistency. A note that was a project note
/// before the pipeline gets the project extras of each stage.
#[verifier::opaque]
pub open spec fn processed(n: NoteView, now: i64) -> NoteView {
    if is_project(n) {
        project_consistent(
            consistent(project_migrated(project_consistent(consistent(n, now))), now),
        )
    } else {
        consistent(migrated(consistent(n, now)), now)
    }
}

/// Runs the pipeline on a note, with `now` as the time on the clock.
pub fn process_zettel_at(data: &mut ZettelData, now: i64)
    ensures
        final(data)@ == processed(old(data)@, now),
{
    reveal(processed);
    let project = match fields_get(&data.metadata, "type") {
        Some(YamlValue::String(t)) => same_str(t.as_str(), "project") || same_str(
            t.as_str(),
            "loop",
        ),
        _ => false,
    };
    ensure_consistency_at(data, now);
    if project {
        ensure_project_consistency(data);
        migrate_project(data);
    } else {
        migrate(data);
    }
    ensure_consistency_at(data, now);
    if project {
        ensure_project_consistency(data);
    }
}

/// Runs the pipeline on a note. The clock is read once.
pub fn process_zettel(data: &mut ZettelData)
    ensures
        exists|now: i64| final(data)@ == processed(old(data)@, now),
{
    let now = now_utc();
    process_zettel_at(data, now);
}

/// After the pipeline, a list under `tags` is in ascending order of its
/// items' texts, and no string occurs in it twice.
pub proof fn lemma_pipeline_orders_tags(n: NoteView, now: i64)
    ensures
        lookup(processed(n, now).metadata, "tags"@) matches Some(ValueView::List(tags))
            ==> crate::consistency::fixers::keys_ascend(tags)
            && crate::consistency::fixers::strings_unique(tags),
{
    reveal(processed);
    if is_project(n) {
        let m = project_migrated(project_consistent(consistent(n, now)));
        let c = consistent(m, now);
        crate::consistency::lemma_consistency_orders_tags(m, now);
        reveal_strlit("tags");
        reveal_strlit("completed");
        reveal_strlit("gtd-list");
        assert("tags"@.len() == 4 && "completed"@.len() == 9 && "gtd-list"@.len() == 8);
        crate::consistency::lemma_completed_other(c.metadata, "tags"@);
    } else {
        crate::consistency::lemma_consistency_orders_tags(migrated(consistent(n, now)), now);
    }
}

/// The pipeline leaves a note that it has processed as it is, where the
/// note was no project note and formatting the title of the processed note
/// would change nothing.
pub proof fn lemma_pipeline_idempotent(n: NoteView, now: i64, later: i64)
    requires
        !is_project(n),
        title_settled(processed(n, now).metadata),
    ensures
        processed(processed(n, now), later) == processed(n, now),
        !is_project(processed(n, now)),
{
    reveal(processed);
    reveal_strlit("zkn-id");
    reveal_strlit("tag");
    reveal_strlit("date");
    reveal_strlit("id");
    reveal_strlit("title");
    reveal_strlit("type");
    reveal_strlit("tags");
    reveal_strlit("publish");
    reveal_strlit("processed");
    reveal_strlit("loop");
    reveal_strlit("wiki-article");
    reveal_strlit("zettel");
    reveal_strlit("project");
    reveal_strlit("note");
    assert("zkn-id"@.len() == 6 && "tag"@.len() == 3 && "date"@.len() == 4 && "id"@.len() == 2);
    assert("title"@.len() == 5 && "type"@.len() == 4 && "tags"@.len() == 4);
    assert("publish"@.len() == 7 && "processed"@.len() == 9);
    assert("loop"@.len() == 4 && "wiki-article"@.len() == 12 && "zettel"@.len() == 6);
    assert("project"@.len() == 7 && "note"@.len() == 4);
    assert("note"@[0] != "loop"@[0]);
    let a = consistent(n, now);
    let b = migrated(a);
    let y = consistent(b, now);
    lemma_consistent_type(n, now);
    lemma_migrated_lookup(a, "type"@);
    lemma_consistent_type(b, now);
    lemma_migration_drops_legacy_keys(a);
    lemma_consistent_other(b, now, "zkn-id"@);
    lemma_consistent_other(b, now, "tag"@);
    assert(!is_project(y));
    lemma_migrated_fixed(y);
    lemma_consistency_idempotent(b, now, later);
}

/// Whether the stages that only project notes get would find nothing to do
/// in a note: formatting its title and fixing the bullets of its sections
/// would change nothing, none of the three fixed headings heads two
/// sections, and reading a next action from its metadata, moving log lines
/// out of its first section and rewriting its parent would each change
/// nothing.
pub open spec fn project_settled(y: NoteView) -> bool {
    &&& title_settled(y.metadata)
    &&& crate::consistency::fixers::with_fixed_bullets(y.sections) == y.sections
    &&& crate::consistency::fixers::fixed_once(y.sections)
    &&& crate::migration::project::next_action(y.metadata).1 == y.metadata
    &&& (y.sections.len() > 0 ==> crate::migration::project::log_entries(
        crate::text::lines_of(y.sections[0].1),
    ).len() == 0 && crate::text::joined(
        crate::migration::project::kept_lines(crate::text::lines_of(y.sections[0].1)),
        "\n"@,
    ) == y.sections[0].1)
    &&& crate::migration::project::parent_migrated(y) == y
}

/// A processed project note is a project note without legacy keys.
pub proof fn lemma_processed_project(n: NoteView, now: i64)
    requires
        is_project(n),
    ensures
        lookup(processed(n, now).metadata, "type"@) == Some(ValueView::Str("project"@)),
        !has_key(processed(n, now).metadata, "zkn-id"@),
        !has_key(processed(n, now).metadata, "tag"@),
{
    reveal(processed);
    crate::consistency::lemma_project_keys();
    crate::migration::project::lemma_type_not_dashed();
    reveal_strlit("zkn-id");
    reveal_strlit("tag");
    reveal_strlit("date");
    reveal_strlit("id");
    reveal_strlit("title");
    reveal_strlit("type");
    reveal_strlit("tags");
    reveal_strlit("publish");
    reveal_strlit("processed");
    reveal_strlit("completed");
    reveal_strlit("gtd-list");
    reveal_strlit("loop");
    reveal_strlit("wiki-article");
    reveal_strlit("zettel");
    reveal_strlit("project");
    assert("zkn-id"@.len() == 6 && "tag"@.len() == 3 && "date"@.len() == 4 && "id"@.len() == 2);
    assert("title"@.len() == 5 && "type"@.len() == 4 && "tags"@.len() == 4);
    assert("publish"@.len() == 7 && "processed"@.len() == 9);
    assert("completed"@.len() == 9 && "gtd-list"@.len() == 8);
    assert("loop"@.len() == 4 && "wiki-article"@.len() == 12 && "zettel"@.len() == 6);
    assert("project"@.len() == 7);
    let a = consistent(n, now);
    let x = project_consistent(a);
    let g = migrated(x);
    let m = project_migrated(x);
    let c = consistent(m, now);
    lemma_consistent_type(n, now);
    crate::consistency::lemma_completed_other(a.metadata, "type"@);
    lemma_migrated_lookup(x, "type"@);
    lemma_migration_drops_legacy_keys(x);
    crate::migration::project::lemma_next_action_keeps(g.metadata, "type"@);
    crate::migration::project::lemma_next_action_keeps(g.metadata, "zkn-id"@);
    crate::migration::project::lemma_next_action_keeps(g.metadata, "tag"@);
    assert(lookup(m.metadata, "type"@) == Some(ValueView::Str("project"@)));
    assert(!has_key(m.metadata, "zkn-id"@) && !has_key(m.metadata, "tag"@));
    lemma_consistent_type(m, now);
    lemma_consistent_other(m, now, "zkn-id"@);
    lemma_consistent_other(m, now, "tag"@);
    crate::consistency::lemma_completed_other(c.metadata, "type"@);
    crate::consistency::lemma_completed_other(c.metadata, "zkn-id"@);
    crate::consistency::lemma_completed_other(c.metadata, "tag"@);
}

/// The pipeline leaves a project note that it has processed as it is,
/// where the stages that only project notes get would find nothing to do
/// in the processed note.
pub proof fn lemma_project_pipeline_idempotent(n: NoteView, now: i64, later: i64)
    requires
        is_project(n),
        project_settled(processed(n, now)),
    ensures
        processed(processed(n, now), later) == processed(n, now),
{
    lemma_processed_project(n, now);
    let y = processed(n, now);
    assert(is_project(y));
    assert(y == project_consistent(
        consistent(project_migrated(project_consistent(consistent(n, now))), now),
    )) by {
        reveal(processed);
    }
    let m = project_migrated(project_consistent(consistent(n, now)));
    let c = consistent(m, now);
    crate::consistency::lemma_project_keys();
    crate::consistency::lemma_completed_other(c.metadata, "title"@);
    crate::consistency::lemma_consistent_is(m, now);
    crate::consistency::lemma_project_consistent_keeps(c);
    crate::consistency::lemma_consistent_fixed(y, later);
    crate::consistency::lemma_completed_idempotent(c.metadata);
    crate::consistency::fixers::lemma_reordered_settled(
        crate::consistency::fixers::with_fixed_bullets(c.sections),
    );
    assert(project_consistent(y) == y);
    reveal_strlit("loop");
    reveal_strlit("wiki-article");
    reveal_strlit("zettel");
    reveal_strlit("project");
    assert("loop"@.len() == 4 && "wiki-article"@.len() == 12 && "zettel"@.len() == 6);
    assert("project"@.len() == 7);
    lemma_migrated_fixed(y);
    assert(crate::migration::project::loop_log_migrated(y) == y) by {
        if y.sections.len() > 0 {
            assert(y.sections.update(0, (y.sections[0].0, y.sections[0].1)) =~= y.sections);
        }
    }
    assert(project_migrated(y) == y);
    assert(processed(y, later) == y) by {
        reveal(processed);
    }
}

/// Whether the pipeline would find nothing to do in a note: for a project
/// note, what `project_settled` says; for any other, that formatting its
/// title would change nothing.
pub open spec fn settled(y: NoteView) -> bool {
    if is_project(y) {
        project_settled(y)
    } else {
        title_settled(y.metadata)
    }
}

/// A note that the pipeline has processed is a project note where the note
/// that went in was one, and only there.
pub proof fn lemma_processed_kind(n: NoteView, now: i64)
    ensures
        is_project(processed(n, now)) == is_project(n),
{
    if is_project(n) {
        lemma_processed_project(n, now);
    } else {
        reveal(processed);
        reveal_strlit("type");
        reveal_strlit("loop");
        reveal_strlit("wiki-article");
        reveal_strlit("zettel");
        reveal_strlit("project");
        reveal_strlit("note");
        assert("loop"@.len() == 4 && "wiki-article"@.len() == 12 && "zettel"@.len() == 6);
        assert("project"@.len() == 7 && "note"@.len() == 4);
        assert("note"@[0] != "loop"@[0]);
        let a = consistent(n, now);
        let b = migrated(a);
        lemma_consistent_type(n, now);
        lemma_migrated_lookup(a, "type"@);
        lemma_consistent_type(b, now);
    }
}

/// The pipeline leaves a note that it has processed as it is, where it
/// would find nothing to do in the processed note.
pub proof fn lemma_pipeline_fixed_point(n: NoteView, now: i64, later: i64)
    requires
        settled(processed(n, now)),
    ensures
        processed(processed(n, now), later) == processed(n, now),
{
    lemma_processed_kind(n, now);
    if is_project(n) {
        lemma_project_pipeline_idempotent(n, now, later);
    } else {
        lemma_pipeline_idempotent(n, now, later);
    }
}

/// A file that was read: where it lies, the stem of its name where it has
/// one, and its text.
#[derive(Debug)]
pub struct NoteFile {
    pub path: String,
    pub stem: Option<String>,
    pub content: String,
}

/// The note that a file gives, before the pipeline.
#[verifier::opaque]
pub open spec fn file_note(f: NoteFile) -> NoteView {
    parsed_file(
        f.path@,
        match f.stem {
            Some(s) => Some(s@),
            None => None,
        },
        f.content@,
    )
}

/// What a list of notes holds.
pub open spec fn notes_view(notes: Seq<ZettelData>) -> Seq<NoteView> {
    Seq::new(notes.len(), |i: int| notes[i]@)
}

/// The notes of the first `n` files after the pipeline, in their order.
pub open spec fn loaded(files: Seq<NoteFile>, n: int, now: i64) -> Seq<NoteView>
    decreases n,
{
    if n <= 0 {
        Seq::empty()
    } else {
        loaded(files, n - 1, now).push(processed(file_note(files[n - 1]), now))
    }
}

/// The notes of the first `n` files after the pipeline whose metadata meet
/// the conditions, in their order.
pub open spec fn loaded_matching(
    files: Seq<NoteFile>,
    n: int,
    c: Seq<(Seq<char>, FilterView)>,
    now: i64,
) -> Seq<NoteView>
    decreases n,
{
    if n <= 0 {
        Seq::empty()
    } else if all_hold(processed(file_note(files[n - 1]), now).metadata, c) {
        loaded_matching(files, n - 1, c, now).push(processed(file_note(files[n - 1]), now))
    } else {
        loaded_matching(files, n - 1, c, now)
    }
}

/// The notes of the first `n` files that hold the query before the
/// pipeline, after the pipeline and in their order.
pub open spec fn found(files: Seq<NoteFile>, n: int, q: Seq<char>, now: i64) -> Seq<NoteView>
    decreases n,
{
    if n <= 0 {
        Seq::empty()
    } else if query_matches(file_note(files[n - 1]), q) {
        found(files, n - 1, q, now).push(processed(file_note(files[n - 1]), now))
    } else {
        found(files, n - 1, q, now)
    }
}

/// Parses a file that was read.
pub fn parse_note(file: &NoteFile) -> (r: ZettelData)
    ensures
        r@ == file_note(*file),
{
    reveal(file_note);
    parse_file(
        file.path.as_str(),
        match &file.stem {
            Some(s) => Some(s.as_str()),
            None => None,
        },
        file.content.as_str(),
    )
}

/// Parses every file and runs the pipeline on it, with `now` as the time on
/// the clock.
pub fn load_all_at(files: &Vec<NoteFile>, now: i64) -> (r: Vec<ZettelData>)
    ensures
        notes_view(r@) == loaded(files@, files.len() as int, now),
{
    let mut out: Vec<ZettelData> = Vec::new();
    let mut i: usize = 0;
    assert(notes_view(out@) =~= Seq::empty());
    while i < files.len()
        invariant
            i <= files.len(),
            notes_view(out@) == loaded(files@, i as int, now),
        decreases files.len() - i,
    {
        let ghost done = notes_view(out@);
        let mut data = parse_note(&files[i]);
        process_zettel_at(&mut data, now);
        out.push(data);
        assert(notes_view(out@) =~= done.push(data@));
        i += 1;
    }
    out
}

/// Parses every file and runs the pipeline on it. The clock is read once.
pub fn load_all(files: &Vec<NoteFile>) -> (r: Vec<ZettelData>)
    ensures
        exists|now: i64| notes_view(r@) == loaded(files@, files.len() as int, now),
{
    let now = now_utc();
    load_all_at(files, now)
}

/// Parses every file, runs the pipeline on it, and keeps the notes whose
/// metadata meet the conditions, with `now` as the time on the clock.
pub fn load_filtered_at(
    files: &Vec<NoteFile>,
    conditions: &Vec<(String, MetaFilterValue)>,
    now: i64,
) -> (r: Vec<ZettelData>)
    ensures
        notes_view(r@) == loaded_matching(
            files@,
            files.len() as int,
            conditions_view(conditions@),
            now,
        ),
{
    let mut out: Vec<ZettelData> = Vec::new();
    let mut i: usize = 0;
    assert(notes_view(out@) =~= Seq::empty());
    while i < files.len()
        invariant
            i <= files.len(),
            notes_view(out@) == loaded_matching(
                files@,
                i as int,
                conditions_view(conditions@),
                now,
            ),
        decreases files.len() - i,
    {
        let ghost done = notes_view(out@);
        let mut data = parse_note(&files[i]);
        process_zettel_at(&mut data, now);
        if metadata_matches(&data.metadata, conditions) {
            out.push(data);
            assert(notes_view(out@) =~= done.push(data@));
        }
        i += 1;
    }
    out
}

/// Parses every file, runs the pipeline on it, and keeps the notes whose
/// metadata meet the conditions. The clock is read once.
pub fn load_filtered(files: &Vec<NoteFile>, conditions: &Vec<(String, MetaFilterValue)>) -> (r:
    Vec<ZettelData>)
    ensures
        exists|now: i64|
            notes_view(r@) == loaded_matching(
                files@,
                files.len() as int,
                conditions_view(conditions@),
                now,
            ),
{
    let now = now_utc();
    load_filtered_at(files, conditions, now)
}

/// Parses every file and, where the parsed note holds the query in lower
/// case, runs the pipeline on it, with `now` as the time on the clock.
pub fn search_at(files: &Vec<NoteFile>, query: &str, now: i64) -> (r: Vec<ZettelData>)
    ensures
        notes_view(r@) == found(files@, files.len() as int, lower_of(query@), now),
{
    let query_lower = query.to_lowercase();
    let mut out: Vec<ZettelData> = Vec::new();
    let mut i: usize = 0;
    assert(notes_view(out@) =~= Seq::empty());
    while i < files.len()
        invariant
            i <= files.len(),
            query_lower@ == lower_of(query@),
            notes_view(out@) == found(files@, i as int, lower_of(query@), now),
        decreases files.len() - i,
    {
        let ghost done = notes_view(out@);
        let mut data = parse_note(&files[i]);
        if matches_query(&data, query_lower.as_str()) {
            process_zettel_at(&mut data, now);
            out.push(data);
            assert(notes_view(out@) =~= done.push(data@));
        }
        i += 1;
    }
    out
}

/// Searches the files for a query, without regard to case. The clock is
/// read once.
pub fn search(files: &Vec<NoteFile>, query: &str) -> (r: Vec<ZettelData>)
    ensures
        exists|now: i64| notes_view(r@) == found(files@, files.len() as int, lower_of(query@), now),
{
    let now = now_utc();
    search_at(files, query, now)
}

} // verus!
