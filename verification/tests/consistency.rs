use zettel::consistency::defaults::set_missing_defaults;
use zettel::consistency::fixers::{
    align_h1_to_title, fix_lists_bullets, fix_title_format, remove_duplicate_tags, sort_tags,
};
use zettel::types::{YamlValue, ZettelData};

#[test]
fn test_sets_all_defaults() {
    let mut data = ZettelData::new();
    set_missing_defaults(&mut data);

    assert!(data.metadata.contains_key("date"));
    assert!(data.metadata.contains_key("id"));
    assert!(data.metadata.contains_key("title"));
    assert!(data.metadata.contains_key("type"));
    assert!(data.metadata.contains_key("tags"));
    assert!(data.metadata.contains_key("publish"));
    assert!(data.metadata.contains_key("processed"));
}

#[test]
fn test_does_not_override_existing() {
    let mut data = ZettelData::new();
    data.metadata
        .insert("title".to_string(), YamlValue::String("My title".to_string()));

    set_missing_defaults(&mut data);

    assert_eq!(
        data.metadata.get("title").unwrap().as_str(),
        Some("My title")
    );
}

#[test]
fn test_remove_duplicate_tags() {
    let mut data = ZettelData::new();
    data.metadata.insert(
        "tags".to_string(),
        YamlValue::List(vec![
            YamlValue::String("a".to_string()),
            YamlValue::String("b".to_string()),
            YamlValue::String("a".to_string()),
        ]),
    );
    remove_duplicate_tags(&mut data);
    let tags = data.metadata.get("tags").unwrap().as_list().unwrap();
    assert_eq!(tags.len(), 2);
}

#[test]
fn test_sort_tags() {
    let mut data = ZettelData::new();
    data.metadata.insert(
        "tags".to_string(),
        YamlValue::List(vec![
            YamlValue::String("c".to_string()),
            YamlValue::String("a".to_string()),
            YamlValue::String("b".to_string()),
        ]),
    );
    sort_tags(&mut data);
    let tags = data.metadata.get("tags").unwrap().as_list().unwrap();
    assert_eq!(tags[0].as_str(), Some("a"));
    assert_eq!(tags[1].as_str(), Some("b"));
    assert_eq!(tags[2].as_str(), Some("c"));
}

#[test]
fn test_fix_title_format() {
    let mut data = ZettelData::new();
    data.metadata.insert(
        "title".to_string(),
        YamlValue::String("  some title  ".to_string()),
    );
    fix_title_format(&mut data);
    assert_eq!(
        data.metadata.get("title").unwrap().as_str(),
        Some("Some title")
    );
}

#[test]
fn test_align_h1_to_title() {
    let mut data = ZettelData::new();
    data.metadata.insert(
        "title".to_string(),
        YamlValue::String("My title".to_string()),
    );
    data.sections.push(("# Old title".to_string(), "body".to_string()));
    align_h1_to_title(&mut data);
    assert_eq!(data.sections[0].0, "# My title");
}

#[test]
fn test_fix_lists_bullets() {
    let mut data = ZettelData::new();
    data.sections.push(("# T".to_string(), "* item1\n* item2\n- item3".to_string()));
    fix_lists_bullets(&mut data);
    assert!(data.sections[0].1.contains("- item1"));
    assert!(data.sections[0].1.contains("- item2"));
    assert!(data.sections[0].1.contains("- item3"));
}
