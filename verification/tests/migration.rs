use zettel::migration::{move_tag_to_tags, move_zkn_id, normalize_type};
use zettel::types::{YamlValue, ZettelData};

#[test]
fn test_moves_single_tag() {
    let mut data = ZettelData::new();
    data.metadata.insert("tag".to_string(), YamlValue::String("foo".to_string()));

    move_tag_to_tags::migrate(&mut data);

    assert!(!data.metadata.contains_key("tag"));
    let tags = data.metadata.get("tags").unwrap().as_list().unwrap();
    assert_eq!(tags.len(), 1);
}

#[test]
fn test_appends_to_existing_tags() {
    let mut data = ZettelData::new();
    data.metadata.insert(
        "tags".to_string(),
        YamlValue::List(vec![YamlValue::String("existing".to_string())]),
    );
    data.metadata.insert("tag".to_string(), YamlValue::String("new".to_string()));

    move_tag_to_tags::migrate(&mut data);

    let tags = data.metadata.get("tags").unwrap().as_list().unwrap();
    assert_eq!(tags.len(), 2);
}

#[test]
fn test_no_tag_noop() {
    let mut data = ZettelData::new();
    move_tag_to_tags::migrate(&mut data);
    assert!(!data.metadata.contains_key("tag"));
}

#[test]
fn test_moves_zkn_id_to_id() {
    let mut data = ZettelData::new();
    data.metadata.insert("zkn-id".to_string(), YamlValue::Int(123));

    move_zkn_id::migrate(&mut data);

    assert!(data.metadata.contains_key("id"));
    assert!(!data.metadata.contains_key("zkn-id"));
}

#[test]
fn test_keeps_existing_id() {
    let mut data = ZettelData::new();
    data.metadata.insert("id".to_string(), YamlValue::Int(456));
    data.metadata.insert("zkn-id".to_string(), YamlValue::Int(123));

    move_zkn_id::migrate(&mut data);

    assert_eq!(data.metadata.get("id").unwrap().as_int(), Some(456));
    assert!(!data.metadata.contains_key("zkn-id"));
}

#[test]
fn test_loop_to_project() {
    let mut data = ZettelData::new();
    data.metadata.insert("type".to_string(), YamlValue::String("loop".to_string()));
    normalize_type::migrate(&mut data);
    assert_eq!(data.metadata.get("type").unwrap().as_str(), Some("project"));
}

#[test]
fn test_wiki_article_to_note() {
    let mut data = ZettelData::new();
    data.metadata.insert("type".to_string(), YamlValue::String("wiki-article".to_string()));
    normalize_type::migrate(&mut data);
    assert_eq!(data.metadata.get("type").unwrap().as_str(), Some("note"));
}

#[test]
fn test_unknown_type_unchanged() {
    let mut data = ZettelData::new();
    data.metadata.insert("type".to_string(), YamlValue::String("custom".to_string()));
    normalize_type::migrate(&mut data);
    assert_eq!(data.metadata.get("type").unwrap().as_str(), Some("custom"));
}
