use zettel::consistency::fixers::normalize_sections_order;
use zettel::consistency::{ensure_consistency, ensure_consistency_at, ensure_project_consistency};
use zettel::migration::migrate;
use zettel::parser::back_matter::{extract_reference, merge_entry};
use zettel::parser::front_matter::extract_metadata;
use zettel::parser::key_normalizer::as_note_field_name;
use zettel::parser::parse_content;
use zettel::scanner::process_zettel_at;
use zettel::types::{YamlValue, ZettelData};

fn text(s: &str) -> YamlValue {
    YamlValue::String(s.to_string())
}

fn shown(data: &ZettelData) -> String {
    format!("{:?}", data)
}

#[test]
fn pipeline_reaches_a_fixed_point_on_a_plain_note() {
    let mut data = parse_content(
        "---\nzkn-id: 7\ntitle: a note\ntag: x\ntags: [b, a, b]\ntype: zettel\n---\n# Old\nbody\n## More\nend\n",
    );
    process_zettel_at(&mut data, 1_700_000_000);
    let once = shown(&data);
    process_zettel_at(&mut data, 1_800_000_000);
    assert_eq!(shown(&data), once);
    assert_eq!(data.metadata.get("id").unwrap().as_int(), Some(20231114221320));
}

fn project_note() -> ZettelData {
    let mut data = ZettelData::new();
    data.metadata.insert("type".to_string(), text("loop"));
    data.metadata.insert("title".to_string(), text("plan"));
    data.metadata.insert("id".to_string(), YamlValue::Int(5));
    data.metadata.insert("should-end".to_string(), text("2024-02-01"));
    data.metadata.insert("gtd-list".to_string(), text("completed"));
    data.reference.insert("parent".to_string(), text("up: [[5]]"));
    data.sections.push((
        "## Notes".to_string(),
        "words\n15.01.2024 09:00 - started => done\n* item\n".to_string(),
    ));
    data.sections.push(("## Description".to_string(), "  what  ".to_string()));
    data
}

#[test]
fn pipeline_reaches_a_fixed_point_on_a_settled_project_note() {
    let mut data = project_note();
    process_zettel_at(&mut data, 1_700_000_000);
    let once = shown(&data);
    assert_eq!(data.metadata.get("type").unwrap().as_str(), Some("project"));
    assert_eq!(data.metadata.get("completed").unwrap().as_bool(), Some(true));
    assert_eq!(data.reference.get("parent").unwrap().as_str(), Some("[[zettelkasten/5|Plan]]"));
    let headings: Vec<&str> = data.sections.iter().map(|s| s.0.as_str()).collect();
    assert_eq!(headings, vec!["# Plan", "## Description", "## Log"]);
    assert_eq!(data.sections[0].1, "words\n- item");
    process_zettel_at(&mut data, 1_800_000_000);
    assert_eq!(shown(&data), once);
}

#[test]
fn repeated_fixed_heading_keeps_both_sections() {
    let mut data = project_note();
    data.sections.push(("## Description".to_string(), "other".to_string()));
    process_zettel_at(&mut data, 0);
    let bodies: Vec<&str> = data
        .sections
        .iter()
        .filter(|s| s.0 == "## Description")
        .map(|s| s.1.as_str())
        .collect();
    assert_eq!(bodies, vec!["what", "other"]);
    let once = shown(&data);
    process_zettel_at(&mut data, 0);
    assert_eq!(shown(&data), once);
}

#[test]
fn project_notes_that_are_not_settled_change_again() {
    let mut keys = project_note();
    keys.metadata.insert("must-start".to_string(), text("2024-03-01"));
    process_zettel_at(&mut keys, 0);
    assert!(keys.metadata.contains_key("must-start"));
    process_zettel_at(&mut keys, 0);
    assert!(!keys.metadata.contains_key("must-start"));

    let mut blank = project_note();
    blank.sections.push(("## End".to_string(), "a\n\n\n\n".to_string()));
    process_zettel_at(&mut blank, 0);
    let last = blank.sections.len() - 1;
    assert_eq!(blank.sections[last].1, "a\n\n");
    process_zettel_at(&mut blank, 0);
    assert_eq!(blank.sections[last].1, "a");

    let mut title = project_note();
    title.metadata.insert("title".to_string(), text("a]]b"));
    process_zettel_at(&mut title, 0);
    assert_eq!(title.reference.get("parent").unwrap().as_str(), Some("[[zettelkasten/5|A]]b]]"));
    process_zettel_at(&mut title, 0);
    assert_eq!(title.reference.get("parent").unwrap().as_str(), Some("[[zettelkasten/5|A]]"));
}

#[test]
fn migration_twice_is_migration_once() {
    let mut data = ZettelData::new();
    data.metadata.insert("zkn-id".to_string(), YamlValue::Int(1));
    data.metadata.insert("tag".to_string(), text("t"));
    data.metadata.insert("type".to_string(), text("loop"));
    migrate(&mut data);
    let once = shown(&data);
    migrate(&mut data);
    assert_eq!(shown(&data), once);
}

#[test]
fn tags_after_consistency_are_sorted_and_strings_are_unique() {
    let mut data = ZettelData::new();
    data.metadata.insert(
        "tags".to_string(),
        YamlValue::List(vec![
            text("b"),
            YamlValue::Int(3),
            text("a"),
            text("b"),
            YamlValue::Int(3),
            text("B"),
            text("\u{e9}"),
            text("z"),
            text(""),
        ]),
    );
    ensure_consistency(&mut data);
    let tags = data.metadata.get("tags").unwrap().as_list().unwrap();
    let shown: Vec<String> = tags.iter().map(|t| format!("{:?}", t)).collect();
    assert_eq!(
        shown,
        vec![
            "Int(3)",
            "Int(3)",
            "String(\"\")",
            "String(\"B\")",
            "String(\"a\")",
            "String(\"b\")",
            "String(\"z\")",
            "String(\"\u{e9}\")"
        ]
    );
}

#[test]
fn no_legacy_key_survives_migration() {
    let mut data = ZettelData::new();
    data.metadata.insert("tag".to_string(), YamlValue::Int(5));
    data.metadata.insert("id".to_string(), YamlValue::Int(1));
    data.metadata.insert("zkn-id".to_string(), YamlValue::Int(2));
    data.metadata.insert("tags".to_string(), text("no list"));
    migrate(&mut data);
    assert!(!data.metadata.contains_key("tag"));
    assert!(!data.metadata.contains_key("zkn-id"));
    assert_eq!(data.metadata.get("id").unwrap().as_int(), Some(1));
    assert_eq!(data.metadata.get("tags").unwrap().as_str(), Some("no list"));
    let keys: Vec<&String> = data.metadata.keys().collect();
    assert_eq!(keys, vec!["id", "tags"]);
}

#[test]
fn legacy_types_become_current_ones() {
    for (before, after) in [("loop", "project"), ("wiki-article", "note"), ("zettel", "note")] {
        let mut data = ZettelData::new();
        data.metadata.insert("type".to_string(), text(before));
        migrate(&mut data);
        assert_eq!(data.metadata.get("type").unwrap().as_str(), Some(after));
    }
    let mut empty = ZettelData::new();
    empty.metadata.insert("type".to_string(), text(""));
    migrate(&mut empty);
    assert_eq!(empty.metadata.get("type").unwrap().as_str(), Some(""));
}

#[test]
fn first_heading_is_the_title_after_consistency() {
    let mut with_sections = ZettelData::new();
    with_sections.metadata.insert("title".to_string(), text("  my title "));
    with_sections.sections.push(("## Sub".to_string(), "kept".to_string()));
    with_sections.sections.push(("# Late".to_string(), "x".to_string()));
    ensure_consistency_at(&mut with_sections, 0);
    assert_eq!(with_sections.sections[0], ("# My title".to_string(), "kept".to_string()));
    assert_eq!(with_sections.sections.len(), 2);

    let mut bare = ZettelData::new();
    ensure_consistency_at(&mut bare, 0);
    assert_eq!(bare.sections, vec![("# Unknown title".to_string(), String::new())]);
    assert_eq!(bare.metadata.get("id").unwrap().as_int(), Some(19700101000000));

    let mut from_heading = ZettelData::new();
    from_heading.sections.push(("# from the heading".to_string(), "b".to_string()));
    ensure_consistency_at(&mut from_heading, 0);
    assert_eq!(from_heading.metadata.get("title").unwrap().as_str(), Some("From the heading"));
    assert_eq!(from_heading.sections[0].0, "# From the heading");

    let mut number = ZettelData::new();
    number.metadata.insert("title".to_string(), YamlValue::Int(5));
    number.sections.push(("## Sub".to_string(), "kept".to_string()));
    ensure_consistency_at(&mut number, 0);
    assert_eq!(number.sections[0].0, "## Sub");
}

#[test]
fn key_normalization_twice_is_once() {
    for key in ["SomeValue", "Note Title", "zkn-id", "HTTPServer2Go", "already_snake", "a--b", "ÉcoleName"] {
        let once = as_note_field_name(key);
        assert_eq!(as_note_field_name(&once), once);
    }
    assert_eq!(as_note_field_name("HTTPServer2Go"), "http-server2-go");
    assert_eq!(as_note_field_name("already_snake"), "already-snake");
    assert_eq!(as_note_field_name("value\u{0663}Next"), "value\u{0663}-next");
}

fn emitted(value: &YamlValue) -> serde_yaml::Value {
    match value {
        YamlValue::Null => serde_yaml::Value::Null,
        YamlValue::Bool(b) => serde_yaml::Value::Bool(*b),
        YamlValue::Int(i) => serde_yaml::Value::Number((*i).into()),
        YamlValue::Float(bits) => serde_yaml::Value::Number(f64::from_bits(*bits).into()),
        YamlValue::String(s) => serde_yaml::Value::String(s.clone()),
        YamlValue::List(items) => serde_yaml::Value::Sequence(items.iter().map(emitted).collect()),
        YamlValue::DateTime(dt) => serde_yaml::Value::String(
            chrono::DateTime::from_timestamp(dt.timestamp, 0).unwrap().to_rfc3339(),
        ),
    }
}

#[test]
fn front_matter_survives_a_round_trip() {
    let content = "---\nid: 42\nSomeKey: some text\ntags: [b, #a]\nratio: 1.5\nwhen: 2024-01-15 10:30:00 +00:00\nflag: true\nnothing: null\n---\n";
    let first = parse_content(content);
    let mut mapping = serde_yaml::Mapping::new();
    for (key, value) in first.metadata.iter() {
        mapping.insert(serde_yaml::Value::String(key.clone()), emitted(value));
    }
    let again = format!("---\n{}---\n", serde_yaml::to_string(&mapping).unwrap());
    let second = parse_content(&again);
    assert_eq!(format!("{:?}", second.metadata), format!("{:?}", first.metadata));
    assert_eq!(first.metadata.get("some-key").unwrap().as_str(), Some("some text"));
    assert_eq!(first.metadata.get("id").unwrap().as_int(), Some(42));
    assert!(matches!(first.metadata.get("ratio"), Some(YamlValue::Float(b)) if f64::from_bits(*b) == 1.5));
}

#[test]
fn merged_keys_keep_their_order_and_repeats_make_a_list() {
    let (reference, rest) = extract_reference(
        "body\n---\n- b:: one\n- a:: [[x]]\n- b:: two\n- c: 3\n- b:: three\n",
    );
    let reference = reference.unwrap();
    assert_eq!(rest, "body");
    let keys: Vec<&String> = reference.keys().collect();
    assert_eq!(keys, vec!["b", "a", "c"]);
    let b: Vec<&str> =
        reference.get("b").unwrap().as_list().unwrap().iter().map(|v| v.as_str().unwrap()).collect();
    assert_eq!(b, vec!["one", "two", "three"]);
    assert_eq!(reference.get("a").unwrap().as_str(), Some("[[x]]"));
    assert_eq!(reference.get("c").unwrap().as_int(), Some(3));
}

#[test]
fn list_followed_by_a_repeat_is_appended_to() {
    let mut map = indexmap::IndexMap::new();
    merge_entry(&mut map, "k".to_string(), YamlValue::List(vec![text("x"), text("y")]));
    merge_entry(&mut map, "k".to_string(), text("z"));
    assert_eq!(map.get("k").unwrap().as_list().unwrap().len(), 3);
    merge_entry(&mut map, "other".to_string(), YamlValue::Null);
    merge_entry(&mut map, "other".to_string(), YamlValue::Bool(true));
    assert_eq!(format!("{:?}", map.get("other").unwrap()), "List([Null, Bool(true)])");
}

#[test]
fn project_consistency_orders_sections_and_settles_completed() {
    let mut data = ZettelData::new();
    data.metadata.insert("gtd-list".to_string(), text("completed"));
    for heading in ["## Actions buffer", "## X", "# Title", "## Log", "## Description", "# Second", "## Log"] {
        data.sections.push((heading.to_string(), format!("* {}  \n  plain\n", heading)));
    }
    ensure_project_consistency(&mut data);
    let headings: Vec<&str> = data.sections.iter().map(|s| s.0.as_str()).collect();
    assert_eq!(
        headings,
        vec!["# Title", "## Description", "## Log", "## Actions buffer", "## X", "## Log", "# Second"]
    );
    assert_eq!(data.sections[0].1, "- # Title\nplain");
    assert_eq!(data.metadata.get("completed").unwrap().as_bool(), Some(true));
    assert!(!data.metadata.contains_key("gtd-list"));

    let mut set = ZettelData::new();
    set.metadata.insert("completed".to_string(), YamlValue::Bool(true));
    set.metadata.insert("gtd-list".to_string(), text("completed"));
    ensure_project_consistency(&mut set);
    assert!(set.metadata.contains_key("gtd-list"));

    let mut kept = ZettelData::new();
    kept.metadata.insert("completed".to_string(), text("yes"));
    ensure_project_consistency(&mut kept);
    assert_eq!(kept.metadata.get("completed").unwrap().as_str(), Some("yes"));
}

#[test]
fn section_order_loses_no_section() {
    let mut data = ZettelData::new();
    for (heading, body) in [
        ("## Log", "first log"),
        ("## Description", "first description"),
        ("text", "no heading"),
        ("## Log", "second log"),
        ("## Description", "second description"),
        ("## Actions buffer", "a"),
        ("## Actions buffer", "b"),
    ] {
        data.sections.push((heading.to_string(), body.to_string()));
    }
    let mut before = data.sections.clone();
    normalize_sections_order(&mut data);
    let bodies: Vec<&str> = data.sections.iter().map(|s| s.1.as_str()).collect();
    assert_eq!(
        bodies,
        vec![
            "second description",
            "second log",
            "b",
            "first log",
            "first description",
            "no heading",
            "a"
        ]
    );
    let mut after = data.sections.clone();
    before.sort();
    after.sort();
    assert_eq!(after, before);

    let mut plain = ZettelData::new();
    for heading in ["## Z", "## Log", "# One", "## A", "# Two"] {
        plain.sections.push((heading.to_string(), String::new()));
    }
    normalize_sections_order(&mut plain);
    let once = plain.sections.clone();
    let headings: Vec<&str> = once.iter().map(|s| s.0.as_str()).collect();
    assert_eq!(headings, vec!["# One", "## Log", "## Z", "## A", "# Two"]);
    normalize_sections_order(&mut plain);
    assert_eq!(plain.sections, once);
}

#[test]
fn title_that_is_not_blank_is_not_empty_after_formatting() {
    for title in ["x", " \u{df} ", "\u{149}a", "  a b  "] {
        let mut data = ZettelData::new();
        data.metadata.insert("title".to_string(), text(title));
        ensure_consistency_at(&mut data, 0);
        assert!(!data.metadata.get("title").unwrap().as_str().unwrap().is_empty());
    }
    let mut blank = ZettelData::new();
    blank.metadata.insert("title".to_string(), text(" \t "));
    ensure_consistency_at(&mut blank, 0);
    assert_eq!(blank.metadata.get("title").unwrap().as_str(), Some(" \t "));
}

#[test]
fn front_matter_that_is_no_yaml_leaves_the_file_whole() {
    let content = "---\nkey: [unclosed\n---\nbody";
    let (metadata, rest) = extract_metadata(content);
    assert!(metadata.is_none());
    assert_eq!(rest, content);
    let (none, whole) = extract_metadata("no fences at all");
    assert!(none.is_none());
    assert_eq!(whole, "no fences at all");
}
