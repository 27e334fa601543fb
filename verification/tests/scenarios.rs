use zettel::cache::{load_cached, Cache, CacheEntry, CachedLoad};
use zettel::migration::project::{migrate_loop_log, migrate_parent_reference};
use zettel::migration::{migrate, migrate_project};
use zettel::parser::parse_content;
use zettel::scanner::{process_zettel, process_zettel_at, MetaFilterValue};
use zettel::types::{YamlValue, ZettelData};

fn text(s: &str) -> YamlValue {
    YamlValue::String(s.to_string())
}

fn strings(values: &[YamlValue]) -> Vec<&str> {
    values.iter().map(|v| v.as_str().unwrap()).collect()
}

#[test]
fn minimal_note_gets_defaults_and_heading() {
    let mut data =
        parse_content("---\nid: 42\ntitle: simple note\ntype: note\n---\n\n## Body\n\ntext");
    assert_eq!(data.sections, vec![("## Body".to_string(), "\ntext".to_string())]);
    process_zettel(&mut data);

    assert_eq!(data.metadata.get("title").unwrap().as_str(), Some("Simple note"));
    assert_eq!(data.metadata.get("id").unwrap().as_int(), Some(42));
    assert_eq!(data.sections[0].0, "# Simple note");
    assert_eq!(data.sections[0].1, "\ntext");
    assert_eq!(data.sections.len(), 1);
    assert_eq!(data.metadata.get("tags").unwrap().as_list().unwrap().len(), 0);
    assert_eq!(data.metadata.get("publish").unwrap().as_bool(), Some(false));
    assert_eq!(data.metadata.get("processed").unwrap().as_bool(), Some(false));
    assert!(matches!(data.metadata.get("date"), Some(YamlValue::DateTime(_))));
}

#[test]
fn inline_tags_are_folded_sorted_and_deduplicated() {
    let mut data = parse_content("---\ntag: [foo, #bar, baz]\ntags: [baz, qux]\n---\nbody\n");
    process_zettel(&mut data);

    let tags = data.metadata.get("tags").unwrap().as_list().unwrap();
    assert_eq!(strings(tags), vec!["bar", "baz", "foo", "qux"]);
    assert!(!data.metadata.contains_key("tag"));
}

#[test]
fn migration_moves_the_legacy_id_and_type() {
    let mut data = parse_content("---\nzkn-id: 7\ntype: wiki-article\n---\n");
    migrate(&mut data);

    assert_eq!(data.metadata.get("id").unwrap().as_int(), Some(7));
    assert_eq!(data.metadata.get("type").unwrap().as_str(), Some("note"));
    assert!(!data.metadata.contains_key("zkn-id"));
}

#[test]
fn project_log_moves_into_its_own_section() {
    let mut data = ZettelData::new();
    data.metadata.insert("type".to_string(), text("project"));
    data.metadata.insert("title".to_string(), text("Plan"));
    data.metadata.insert("should-end".to_string(), text("2024-02-01"));
    data.sections.push((
        "# Plan".to_string(),
        "Some words\n15.01.2024 09:00 - started => done\n\n  more words  ".to_string(),
    ));
    data.sections.push(("## Notes".to_string(), "n".to_string()));
    data.sections.push(("## Description".to_string(), "d".to_string()));
    process_zettel_at(&mut data, 1_700_000_000);

    assert!(!data.metadata.contains_key("should-end"));
    assert_eq!(data.sections[0], ("# Plan".to_string(), "Some words\nmore words".to_string()));
    let headings: Vec<&str> = data.sections.iter().map(|s| s.0.as_str()).collect();
    assert_eq!(headings, vec!["# Plan", "## Description", "## Log", "## Notes"]);
    assert_eq!(
        data.sections[2].1,
        "- [ ] 2024-01-15 09:00 - started => done | #gtd/act/now \u{1F53C} \u{1F4C5} 2024-02-01"
    );
    assert_eq!(data.metadata.get("completed").unwrap().as_bool(), Some(false));
}

#[test]
fn log_rows_after_the_first_task_are_closed() {
    let mut data = ZettelData::new();
    data.metadata.insert("must-wait".to_string(), text("later 2024-03-05 or so"));
    data.sections.push((
        "# T".to_string(),
        "01.02.2024 10:00 - seen\n02.02.2024 11:30 - asked   =>   answered\n03.02.2024 12:00 - a =>b\n31.02.2024 12:00 - no such day\nkept".to_string(),
    ));
    migrate_loop_log(&mut data);

    assert!(!data.metadata.contains_key("must-wait"));
    assert_eq!(data.sections[0].1, "kept");
    assert_eq!(data.sections[1].0, "## Log");
    assert_eq!(
        data.sections[1].1,
        "- [i] 2024-02-01 10:00 - seen\n- [ ] 2024-02-02 11:30 - asked => answered | #gtd/wait \u{23EB}\n- [x] 2024-02-03 12:00 - a => b | \u{23EB}\n"
    );
}

#[test]
fn log_without_a_next_action_goes_to_the_inbox() {
    let mut data = ZettelData::new();
    data.metadata.insert("title".to_string(), text("T"));
    data.sections.push(("# T".to_string(), "01.02.2024 10:00 - a => b".to_string()));
    migrate_loop_log(&mut data);

    assert_eq!(data.sections[0].1, "");
    assert_eq!(data.sections[1].1, "- [ ] 2024-02-01 10:00 - a => b | #gtd/inbox \u{1F53C}\n");
}

#[test]
fn importance_without_a_sign_leaves_the_key_and_gives_no_marks() {
    let mut data = ZettelData::new();
    data.metadata.insert("gtd-list".to_string(), text("someday"));
    data.metadata.insert("should-start".to_string(), text("2024-02-01"));
    data.sections.push(("# T".to_string(), "01.02.2024 10:00 - a => b".to_string()));
    migrate_loop_log(&mut data);

    assert!(data.metadata.contains_key("gtd-list"));
    assert!(data.metadata.contains_key("should-start"));
    assert_eq!(data.sections[1].1, "- [ ] 2024-02-01 10:00 - a => b | \n");
}

#[test]
fn note_without_log_lines_gets_no_log_section() {
    let mut data = ZettelData::new();
    data.metadata.insert("could-start".to_string(), text("2024-02-01"));
    data.sections.push(("# T".to_string(), "  a  \n\n b".to_string()));
    migrate_loop_log(&mut data);

    assert_eq!(data.sections, vec![("# T".to_string(), "a\nb".to_string())]);
    assert!(!data.metadata.contains_key("could-start"));
}

#[test]
fn parent_that_is_the_note_itself_names_place_and_title() {
    let mut data = ZettelData::new();
    data.reference.insert("parent".to_string(), text("[[20240101000000]]"));
    data.metadata.insert("id".to_string(), YamlValue::Int(20240101000000));
    data.metadata.insert("title".to_string(), text("Root"));
    migrate_parent_reference(&mut data);

    assert_eq!(
        data.reference.get("parent").unwrap().as_str(),
        Some("[[zettelkasten/20240101000000|Root]]")
    );
}

#[test]
fn parent_that_is_another_note_is_written_plainly() {
    let mut data = ZettelData::new();
    data.reference.insert("parent".to_string(), text("see [[other note]] and [[more]]"));
    data.metadata.insert("id".to_string(), YamlValue::Int(5));
    migrate_parent_reference(&mut data);
    assert_eq!(data.reference.get("parent").unwrap().as_str(), Some("[[other note]]"));

    let mut plain = ZettelData::new();
    plain.reference.insert("parent".to_string(), text("no link [[here\n]]"));
    migrate_parent_reference(&mut plain);
    assert_eq!(plain.reference.get("parent").unwrap().as_str(), Some("no link [[here\n]]"));

    let mut number = ZettelData::new();
    number.reference.insert("parent".to_string(), YamlValue::Int(3));
    migrate_project(&mut number);
    assert_eq!(number.reference.get("parent").unwrap().as_int(), Some(3));
}

fn entry(publish: bool) -> CacheEntry {
    let mut metadata = indexmap::IndexMap::new();
    metadata.insert("publish".to_string(), YamlValue::Bool(publish));
    CacheEntry { mtime_secs: 1, mtime_nanos: 2, metadata, reference: indexmap::IndexMap::new() }
}

#[test]
fn warm_cache_asks_only_for_the_matching_file() {
    let cache: Cache = vec![("a.md".to_string(), entry(false)), ("b.md".to_string(), entry(true))];
    let conditions = vec![("publish".to_string(), MetaFilterValue::Bool(true))];
    match load_cached(&cache, &conditions) {
        CachedLoad::Warm(paths) => assert_eq!(paths, vec!["b.md".to_string()]),
        CachedLoad::Cold => panic!("a cache with entries is trusted"),
    }
    let empty: Cache = Vec::new();
    assert!(matches!(load_cached(&empty, &conditions), CachedLoad::Cold));
}
