use zettel::parser::enrichment::{date_from_filename, title_from_filename};
use zettel::parser::front_matter::extract_metadata;
use zettel::parser::key_normalizer::as_note_field_name;
use zettel::parser::sections::split_into_sections;

fn written(timestamp: i64, fmt: &str) -> String {
    chrono::DateTime::from_timestamp(timestamp, 0).unwrap().format(fmt).to_string()
}

#[test]
fn test_date_from_14digit_filename() {
    let dt = date_from_filename("20240115143022").unwrap();
    assert_eq!(written(dt.timestamp, "%Y%m%d%H%M%S"), "20240115143022");
    assert_eq!(dt.offset, 0);
}

#[test]
fn test_date_from_12digit_filename() {
    let dt = date_from_filename("202401151430").unwrap();
    assert_eq!(written(dt.timestamp, "%Y%m%d%H%M"), "202401151430");
}

#[test]
fn test_no_date_in_filename() {
    assert!(date_from_filename("my-note").is_none());
}

#[test]
fn test_title_from_filename_with_date() {
    let title = title_from_filename("20240115143022-my-note").unwrap();
    assert_eq!(title, "My note");
}

#[test]
fn test_title_from_filename_date_only() {
    assert!(title_from_filename("20240115143022").is_none());
}

#[test]
fn test_title_from_filename_no_date() {
    let title = title_from_filename("my-note").unwrap();
    assert_eq!(title, "My note");
}

#[test]
fn test_extract_simple_front_matter() {
    let content = "---\nid: 42\ntitle: Simple test note\ndate: 2024-01-15 10:30:00 +00:00\ntype: note\ntags:\n  - testing\n  - parity\npublish: true\nprocessed: false\n---\n\n## Content\n\nThis is a simple test note.\n";
    let (meta, remaining) = extract_metadata(content);
    assert!(meta.is_some(), "Front matter should be parsed");
    let meta = meta.unwrap();
    assert_eq!(meta.get("id").and_then(|v| v.as_int()), Some(42));
    assert_eq!(meta.get("title").and_then(|v| v.as_str()), Some("Simple test note"));
    assert!(remaining.contains("## Content"));
}

#[test]
fn test_normalize_inline_tags() {
    let content = "---\nid: 1\ntag: [foo, bar, #baz]\n---\n";
    let (meta, _) = extract_metadata(content);
    assert!(meta.is_some());
    // tag should be normalized to a YAML list
    let tags = meta.unwrap();
    assert!(tags.contains_key("tag"));
}

#[test]
fn test_simple_lowercase() {
    assert_eq!(as_note_field_name("title"), "title");
}

#[test]
fn test_camel_case() {
    assert_eq!(as_note_field_name("SomeValue"), "some-value");
}

#[test]
fn test_space_separated() {
    assert_eq!(as_note_field_name("Note Title"), "note-title");
}

#[test]
fn test_already_kebab() {
    assert_eq!(as_note_field_name("some-value"), "some-value");
}

#[test]
fn test_mixed() {
    assert_eq!(as_note_field_name("zkn-id"), "zkn-id");
}

#[test]
fn test_split_no_headings() {
    let result = split_into_sections("just some text\n");
    assert_eq!(result, vec![("".to_string(), "just some text\n".to_string())]);
}

#[test]
fn test_split_single_heading() {
    let result = split_into_sections("# Title\nsome body\n");
    assert_eq!(result.len(), 1);
    assert_eq!(result[0].0, "# Title");
    assert_eq!(result[0].1, "some body\n");
}

#[test]
fn test_split_multiple_headings() {
    let input = "# Title\nbody1\n## Sub\nbody2\n";
    let result = split_into_sections(input);
    assert_eq!(result.len(), 2);
    assert_eq!(result[0].0, "# Title");
    assert_eq!(result[1].0, "## Sub");
}
