use zettel::cache::{
    apply_refresh, cache_bytes, cache_payload, decimal, fresh_entry, has_distinct_files,
    has_distinct_paths, is_stale, load_cached_cold, refresh_cache, refresh_summary, Cache,
    CacheEntry, FileStamp, StampedFile,
};
use zettel::migration::project::{
    create_dates_section, determine_gtd_list, extract_log_entries, find_wiki_link,
    parse_date_string,
};
use zettel::parser::back_matter::{
    fix_dataview_keys, quote_unsafe_strings, remove_back_matter,
};
use zettel::parser::enrichment::{date_from_filename, title_from_filename};
use zettel::parser::front_matter::normalize_tags;
use zettel::parser::key_normalizer::{normalize_keys, underscore};
use zettel::parser::sections::split_into_sections;
use zettel::parser::{parse_file, parse_file_with_fallback};
use zettel::scanner::{
    load_all_at, load_filtered_at, matches_query, metadata_matches, search_at, yaml_eq_filter,
    MetaFilterValue, NoteFile,
};
use zettel::text::{split_lines, split_words, to_chars, to_string, trim};
use zettel::types::{DateTime, YamlValue, ZettelData};
use zettel::yaml::parse_datetime;

fn text(s: &str) -> YamlValue {
    YamlValue::String(s.to_string())
}

fn lines(s: &str) -> Vec<String> {
    split_lines(&to_chars(s)).iter().map(to_string).collect()
}

#[test]
fn lines_are_cut_as_the_standard_library_cuts_them() {
    for s in ["", "a", "a\n", "a\r\nb\n\nc\r", "\n", "\r\n\r", "a\rb\n"] {
        let expected: Vec<String> = s.lines().map(|l| l.to_string()).collect();
        assert_eq!(lines(s), expected);
    }
}

#[test]
fn words_and_trimming_follow_white_space() {
    let s = " \u{a0}a\tb  c\u{2003}\n";
    let words: Vec<String> = split_words(&to_chars(s)).iter().map(to_string).collect();
    let expected: Vec<String> = s.split_whitespace().map(|w| w.to_string()).collect();
    assert_eq!(words, expected);
    assert_eq!(to_string(&trim(&to_chars(s))), s.trim());
    assert_eq!(to_string(&trim(&to_chars(" \n "))), "");
}

#[test]
fn headings_need_a_space_a_text_and_a_line_feed() {
    let sections = split_into_sections("intro\n####### seven\n#nospace\n# \n## ok\nbody\ntail # inline\nrest\n### last");
    assert_eq!(
        sections,
        vec![
            ("###### seven".to_string(), "#nospace\n# \n".to_string()),
            ("## ok".to_string(), "body\ntail ".to_string()),
            ("# inline".to_string(), "rest\n### last".to_string()),
        ]
    );
    assert_eq!(split_into_sections(""), vec![(String::new(), String::new())]);
    assert_eq!(
        split_into_sections("# a\r\n# b\n"),
        vec![("# a\r".to_string(), String::new()), ("# b".to_string(), String::new())]
    );
}

#[test]
fn tag_lines_are_rewritten_only_when_inline() {
    assert_eq!(normalize_tags("tags: #a, b,c"), "tags: [a, b, c]");
    assert_eq!(normalize_tags("tag:\t [x] ##y #"), "tag: [x, y, ]");
    assert_eq!(normalize_tags("tags:\n  - a\n  - b"), "tags:\n  - a\n  - b");
    assert_eq!(normalize_tags("tags:   \nother: [1]\n"), "tags:   \nother: [1]\n");
    assert_eq!(normalize_tags(" tags: a"), " tags: a");
    assert_eq!(normalize_tags("tagged: a"), "tagged: a");
}

#[test]
fn dataview_keys_lose_one_colon() {
    assert_eq!(fix_dataview_keys("parent:: [[a]]\nplain: b\nk::v::w x:: y\n"), "parent: [[a]]\nplain: b\nk::v:w x:: y");
    assert_eq!(fix_dataview_keys(":: a\n a:: b"), ":: a\n a:: b");
}

#[test]
fn values_yaml_would_misread_are_quoted() {
    assert_eq!(
        quote_unsafe_strings("a: [[x]]\nb: \"q: r\"\nc: plain\nno colon\nd:\ne: x: y\nf: [1]\"\ng:h"),
        "a: \"[[x]]\"\nb: \"q: r\"\nc: plain\nno colon\nd: \ne: \"x: y\"\nf: [1]\"\ng: "
    );
}

#[test]
fn back_matter_is_cut_at_the_last_fence() {
    assert_eq!(remove_back_matter("a\n---\nb\n---\nc: d\n"), "a\n---\nb");
    assert_eq!(remove_back_matter("text  \n\n"), "text");
    assert_eq!(remove_back_matter("---\nk: v"), "");
    assert_eq!(remove_back_matter("a\n----\nb ---\n"), "a\n----\nb ---");
}

#[test]
fn file_names_give_date_and_title() {
    assert_eq!(
        date_from_filename("20240115143022-my-note"),
        Some(DateTime { timestamp: 1705329022, offset: 0 })
    );
    assert_eq!(
        date_from_filename("2024011514309"),
        Some(DateTime { timestamp: 1705329000, offset: 0 })
    );
    assert_eq!(date_from_filename("20241315143022"), None);
    assert_eq!(date_from_filename("2024011514"), None);
    assert_eq!(title_from_filename("202401151430--two-words-"), Some("Two words".to_string()));
    assert_eq!(title_from_filename("ßeta"), Some("SSeta".to_string()));
    assert_eq!(title_from_filename("---"), None);
}

#[test]
fn texts_that_name_a_time_are_read_in_every_form() {
    let utc = |timestamp| Some(DateTime { timestamp, offset: 0 });
    assert_eq!(
        parse_datetime("2024-01-15T10:30:00+02:00"),
        Some(DateTime { timestamp: 1705307400, offset: 7200 })
    );
    assert_eq!(
        parse_datetime("2024-01-15 10:30:00 +0100"),
        Some(DateTime { timestamp: 1705311000, offset: 3600 })
    );
    assert_eq!(
        parse_datetime("2024-01-15 10:30:00-05:00"),
        Some(DateTime { timestamp: 1705332600, offset: -18000 })
    );
    assert_eq!(parse_datetime("2024-01-15 10:30:00"), utc(1705314600));
    assert_eq!(parse_datetime("2024-01-15"), utc(1705276800));
    assert_eq!(parse_datetime("2024-01-15TT"), utc(1705276800));
    assert_eq!(parse_datetime("2024-02-30"), None);
    assert_eq!(parse_datetime("soon"), None);
}

#[test]
fn target_dates_give_day_modifier_list_and_signs() {
    let read = parse_date_string("  later 2024-02-01 at noon ");
    assert_eq!(read.date, Some(1706745600));
    assert_eq!(read.before, "later");
    let none = parse_date_string(" x2024-02-01 ");
    assert_eq!(none.date, None);
    assert_eq!(none.before, "x2024-02-01");
    let wrong = parse_date_string("on 2024-13-01 2024-01-01");
    assert_eq!(wrong.date, None);
    assert_eq!(wrong.before, "on 2024-13-01 2024-01-01");
    assert_eq!(determine_gtd_list("someday 2024-02-01"), "someday");
    assert_eq!(determine_gtd_list("next"), "next");
    assert_eq!(determine_gtd_list("soon 2024-02-01"), "now");
    assert_eq!(create_dates_section(Some(1706745600), ""), "\u{1F4C5} 2024-02-01");
    assert_eq!(create_dates_section(Some(1706745600), "before"), "\u{1F4C5} 2024-02-01");
    assert_eq!(create_dates_section(Some(1706745600), "start"), "\u{1F6EB} 2024-02-01");
    assert_eq!(create_dates_section(Some(1706745600), "after"), "\u{1F6EB} 2024-02-01");
    assert_eq!(create_dates_section(Some(1706745600), "on"), "\u{23F3} 2024-02-01");
    assert_eq!(create_dates_section(Some(1706745600), "later"), "");
    assert_eq!(create_dates_section(None, ""), "");
}

#[test]
fn log_lines_are_told_from_other_lines() {
    let (entries, kept) = extract_log_entries(
        " 15.01.2024 09:00 - a  \n15.01.2024 09:00 -b\n1\u{0665}.01.2024 09:00 - digits\n\n15.01.2024 25:00 - hour\nx",
    );
    let shown: Vec<(String, String, String)> =
        entries.iter().map(|e| (e.date.clone(), e.before.clone(), e.after.clone())).collect();
    assert_eq!(shown, vec![("2024-01-15 09:00".to_string(), "a".to_string(), String::new())]);
    let kept: Vec<String> = kept.iter().map(to_string).collect();
    assert_eq!(kept, vec!["15.01.2024 09:00 -b".to_string(), "x".to_string()]);
}

#[test]
fn wiki_links_close_at_the_first_brackets() {
    let link = |s: &str| find_wiki_link(&to_chars(s)).map(|l| to_string(&l));
    assert_eq!(link("[[a]] [[b]]"), Some("a".to_string()));
    assert_eq!(link("[[[a]]]"), Some("[a".to_string()));
    assert_eq!(link("[[]]"), Some(String::new()));
    assert_eq!(link("[[a\n]] [[b]]"), Some("b".to_string()));
    assert_eq!(link("[[a] ]"), None);
}

#[test]
fn keys_in_any_case_become_kebab_case() {
    assert_eq!(underscore("SomeHTTPValue-x y"), "some_http_value_x_y");
    let mut map = indexmap::IndexMap::new();
    map.insert("FirstKey".to_string(), YamlValue::Int(1));
    map.insert("second key".to_string(), YamlValue::Int(2));
    map.insert("first-key".to_string(), YamlValue::Int(3));
    let normalized = normalize_keys(map);
    let shown: Vec<(&str, Option<i64>)> =
        normalized.iter().map(|(k, v)| (k.as_str(), v.as_int())).collect();
    assert_eq!(shown, vec![("first-key", Some(3)), ("second-key", Some(2))]);
}

fn file(path: &str, stem: &str, content: &str) -> NoteFile {
    NoteFile { path: path.to_string(), stem: Some(stem.to_string()), content: content.to_string() }
}

#[test]
fn files_are_enriched_from_their_names() {
    let data = parse_file("dir/20240115143022-my-note.md", Some("20240115143022-my-note"), "text\n");
    assert_eq!(data.file_path.as_deref(), Some("dir/20240115143022-my-note.md"));
    assert_eq!(data.metadata.get("title").unwrap().as_str(), Some("My note"));
    assert!(matches!(
        data.metadata.get("date"),
        Some(YamlValue::DateTime(DateTime { timestamp: 1705329022, offset: 0 }))
    ));
    let own = parse_file("a.md", Some("20240115143022-other"), "---\ntitle: mine\ndate: x\n---\n");
    assert_eq!(own.metadata.get("title").unwrap().as_str(), Some("mine"));
    assert_eq!(own.metadata.get("date").unwrap().as_str(), Some("x"));
    let fallback = parse_file_with_fallback("a.md", Some("a"), "t", Some(77));
    assert!(matches!(
        fallback.metadata.get("date"),
        Some(YamlValue::DateTime(DateTime { timestamp: 77, offset: 0 }))
    ));
    let bare = parse_file_with_fallback("a.md", None, "t", None);
    assert!(bare.metadata.is_empty());
}

#[test]
fn filters_compare_values_of_the_same_kind() {
    assert!(yaml_eq_filter(&text("a"), &MetaFilterValue::Str("a".to_string())));
    assert!(!yaml_eq_filter(&text("1"), &MetaFilterValue::Int(1)));
    assert!(yaml_eq_filter(&YamlValue::Int(1), &MetaFilterValue::Int(1)));
    assert!(!yaml_eq_filter(&YamlValue::Bool(true), &MetaFilterValue::Bool(false)));
    let mut meta = indexmap::IndexMap::new();
    meta.insert("publish".to_string(), YamlValue::Bool(true));
    meta.insert("type".to_string(), text("note"));
    let both = vec![
        ("publish".to_string(), MetaFilterValue::Bool(true)),
        ("type".to_string(), MetaFilterValue::Str("note".to_string())),
    ];
    assert!(metadata_matches(&meta, &both));
    assert!(metadata_matches(&meta, &Vec::new()));
    let missing = vec![("absent".to_string(), MetaFilterValue::Bool(true))];
    assert!(!metadata_matches(&meta, &missing));
}

#[test]
fn search_looks_at_sections_title_and_tags_without_case() {
    let mut data = ZettelData::new();
    data.sections.push(("# Heading".to_string(), "Some BODY".to_string()));
    data.metadata.insert("title".to_string(), text("The Title"));
    data.metadata.insert("tags".to_string(), YamlValue::List(vec![YamlValue::Int(1), text("TagOne")]));
    data.metadata.insert("other".to_string(), text("hidden"));
    for query in ["heading", "body", "e tit", "tagone", ""] {
        assert!(matches_query(&data, query), "{}", query);
    }
    for query in ["hidden", "Body", "1"] {
        assert!(!matches_query(&data, query), "{}", query);
    }
}

#[test]
fn loading_keeps_the_order_and_filters_after_the_pipeline() {
    let files = vec![
        file("a.md", "a", "---\npublish: true\n---\n# A\nalpha\n"),
        file("b.md", "b", "# B\nbeta\n"),
        file("c.md", "c", "---\npublish: true\ntype: loop\n---\nGamma\n"),
    ];
    let all = load_all_at(&files, 0);
    let titles: Vec<&str> =
        all.iter().map(|d| d.metadata.get("title").unwrap().as_str().unwrap()).collect();
    assert_eq!(titles, vec!["A", "B", "C"]);
    assert_eq!(all[2].metadata.get("type").unwrap().as_str(), Some("project"));
    let conditions = vec![("publish".to_string(), MetaFilterValue::Bool(true))];
    let published = load_filtered_at(&files, &conditions, 0);
    let paths: Vec<&str> = published.iter().map(|d| d.file_path.as_deref().unwrap()).collect();
    assert_eq!(paths, vec!["a.md", "c.md"]);
    let hits = search_at(&files, "GAMMA", 0);
    assert_eq!(hits.len(), 1);
    assert_eq!(hits[0].sections[0], ("# C".to_string(), "Gamma".to_string()));
}

fn entry(secs: i64, nanos: u32) -> CacheEntry {
    CacheEntry {
        mtime_secs: secs,
        mtime_nanos: nanos,
        metadata: indexmap::IndexMap::new(),
        reference: indexmap::IndexMap::new(),
    }
}

fn stamp(path: &str, mtime: Option<(i64, u32)>) -> FileStamp {
    FileStamp { path: path.to_string(), mtime }
}

#[test]
fn cache_file_is_framed_by_its_version() {
    assert_eq!(cache_bytes(&vec![7, 8]), vec![1, 7, 8]);
    assert_eq!(cache_payload(&vec![1, 7, 8]), Some(vec![7, 8]));
    assert_eq!(cache_payload(&vec![1]), Some(vec![]));
    assert_eq!(cache_payload(&vec![2, 7, 8]), None);
    assert_eq!(cache_payload(&vec![]), None);
}

#[test]
fn refresh_counts_new_modified_and_deleted() {
    let cache: Cache = vec![
        ("same.md".to_string(), entry(10, 5)),
        ("touched.md".to_string(), entry(10, 5)),
        ("gone.md".to_string(), entry(10, 5)),
        ("unreadable.md".to_string(), entry(10, 5)),
    ];
    let files = vec![
        stamp("new.md", Some((1, 1))),
        stamp("same.md", Some((10, 5))),
        stamp("touched.md", Some((10, 6))),
        stamp("unreadable.md", None),
    ];
    assert!(!is_stale(&cache, &files[1]));
    assert!(is_stale(&cache, &stamp("touched.md", Some((11, 5)))));
    let plan = refresh_cache(&cache, &files);
    assert_eq!(plan.stale, vec![0, 2, 3]);
    assert_eq!((plan.n_new, plan.n_modified, plan.n_deleted), (1, 2, 1));
    assert_eq!(refresh_summary(plan.n_new, plan.n_modified, plan.n_deleted), "1 new, 2 modified, 1 deleted");
    assert_eq!(refresh_summary(3, 2, 0), "3 new, 2 modified");
    assert_eq!(refresh_summary(0, 0, 120), "120 deleted");
    assert_eq!(refresh_summary(0, 0, 0), "");
    assert_eq!(to_string(&decimal(0)), "0");
    assert_eq!(to_string(&decimal(9081726354)), "9081726354");

    let fresh = vec![("touched.md".to_string(), entry(10, 6)), ("new.md".to_string(), entry(1, 1))];
    let updated = apply_refresh(cache, &fresh, &files);
    let shown: Vec<(&str, i64, u32)> =
        updated.iter().map(|(p, e)| (p.as_str(), e.mtime_secs, e.mtime_nanos)).collect();
    assert_eq!(
        shown,
        vec![("same.md", 10, 5), ("touched.md", 10, 6), ("unreadable.md", 10, 5), ("new.md", 1, 1)]
    );
    let settled = vec![
        stamp("same.md", Some((10, 5))),
        stamp("touched.md", Some((10, 6))),
        stamp("unreadable.md", Some((10, 5))),
        stamp("new.md", Some((1, 1))),
    ];
    let unchanged = refresh_cache(&updated, &settled);
    assert!(unchanged.stale.is_empty());
    assert_eq!((unchanged.n_new, unchanged.n_modified, unchanged.n_deleted), (0, 0, 0));
}

#[test]
fn list_items_can_be_changed_in_place() {
    let mut list = YamlValue::List(vec![text("a")]);
    list.as_list_mut().unwrap().push(YamlValue::Bool(true));
    assert_eq!(list.as_list().unwrap().len(), 2);
    assert!(text("a").as_list_mut().is_none());
    assert!(YamlValue::Null.as_str().is_none());
    assert_eq!(list.clone().as_list().unwrap()[1].as_bool(), Some(true));
}

#[test]
fn a_path_that_comes_twice_is_told() {
    let cache: Cache = vec![("a".to_string(), entry(1, 1)), ("b".to_string(), entry(1, 1))];
    assert!(has_distinct_paths(&cache));
    let twice: Cache = vec![
        ("a".to_string(), entry(1, 1)),
        ("b".to_string(), entry(1, 1)),
        ("a".to_string(), entry(2, 2)),
    ];
    assert!(!has_distinct_paths(&twice));
    assert!(has_distinct_paths(&Vec::new()));
    assert!(has_distinct_files(&vec![stamp("a", None), stamp("b", None)]));
    assert!(!has_distinct_files(&vec![stamp("a", None), stamp("a", Some((1, 1)))]));
    let files = vec![
        StampedFile { file: file("a.md", "a", "one\n"), mtime: Some((1, 0)) },
        StampedFile { file: file("a.md", "a", "two\n"), mtime: Some((2, 0)) },
    ];
    let (cold, notes) = load_cached_cold(&files, &Vec::new(), 0);
    assert_eq!(notes.len(), 2);
    assert_eq!(cold.len(), 1);
    assert_eq!(cold[0].1.mtime_secs, 2);
    let merged = apply_refresh(cache, &twice, &vec![stamp("a", None)]);
    assert_eq!(merged.len(), 1);
    assert_eq!(merged[0].1.mtime_secs, 2);
}

#[test]
fn white_space_and_digits_are_what_the_standard_library_says() {
    let spaces = [
        0x9u32, 0xa, 0xb, 0xc, 0xd, 0x20, 0x85, 0xa0, 0x1680, 0x2000, 0x2001, 0x2002, 0x2003,
        0x2004, 0x2005, 0x2006, 0x2007, 0x2008, 0x2009, 0x200a, 0x2028, 0x2029, 0x202f, 0x205f,
        0x3000,
    ];
    for code in 0..=0x10FFFFu32 {
        if let Some(c) = char::from_u32(code) {
            assert_eq!(c.is_whitespace(), spaces.contains(&code), "{:x}", code);
        }
    }
    for (number, written) in [
        (0i64, "0"),
        (7, "7"),
        (-7, "-7"),
        (1234567890, "1234567890"),
        (i64::MAX, "9223372036854775807"),
        (i64::MIN, "-9223372036854775808"),
    ] {
        let mut data = ZettelData::new();
        data.reference.insert("parent".to_string(), text(&format!("[[{}]]", written)));
        data.metadata.insert("id".to_string(), YamlValue::Int(number));
        zettel::migration::project::migrate_parent_reference(&mut data);
        assert_eq!(
            data.reference.get("parent").unwrap().as_str().unwrap(),
            format!("[[zettelkasten/{}|]]", written)
        );
    }
}

#[test]
fn cold_load_fills_the_cache_and_filters() {
    let files = vec![
        StampedFile { file: file("a.md", "a", "---\npublish: true\n---\nx\n---\n- parent:: [[p]]\n"), mtime: Some((3, 4)) },
        StampedFile { file: file("b.md", "b", "y\n"), mtime: None },
    ];
    let conditions = vec![("publish".to_string(), MetaFilterValue::Bool(true))];
    let (cache, notes) = load_cached_cold(&files, &conditions, 0);
    assert_eq!(notes.len(), 1);
    assert_eq!(notes[0].file_path.as_deref(), Some("a.md"));
    assert_eq!(cache.len(), 2);
    assert_eq!((cache[0].0.as_str(), cache[0].1.mtime_secs, cache[0].1.mtime_nanos), ("a.md", 3, 4));
    assert_eq!((cache[1].0.as_str(), cache[1].1.mtime_secs, cache[1].1.mtime_nanos), ("b.md", 0, 0));
    assert_eq!(cache[0].1.metadata.get("publish").unwrap().as_bool(), Some(true));
    assert_eq!(cache[0].1.reference.get("parent").unwrap().as_str(), Some("[[p]]"));
    assert_eq!(cache[1].1.metadata.get("title").unwrap().as_str(), Some("B"));
    let (path, fresh) = fresh_entry(&files[1], 0);
    assert_eq!(path, "b.md");
    assert_eq!(fresh.metadata.get("publish").unwrap().as_bool(), Some(false));
}
