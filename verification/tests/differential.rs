use regex::Regex;
use zettel::consistency::fixers::{fix_lists_bullets, remove_duplicate_tags, sort_tags};
use zettel::migration::project::{extract_log_entries, find_wiki_link, parse_date_string};
use zettel::parser::back_matter::{
    extract_reference, fix_dataview_keys, quote_unsafe_strings, remove_back_matter,
};
use zettel::parser::enrichment::title_from_filename;
use zettel::parser::front_matter::{extract_metadata, normalize_tags};
use zettel::parser::key_normalizer::{as_note_field_name, underscore};
use zettel::parser::sections::split_into_sections;
use zettel::text::{to_chars, to_string};
use zettel::types::{YamlValue, ZettelData};

/// Texts over `alphabet`, of every length up to `max`, picked by a fixed
/// sequence of numbers.
fn texts(alphabet: &[&str], max: usize, count: usize) -> Vec<String> {
    let mut state: u64 = 0x2545F4914F6CDD1D;
    let mut out = Vec::new();
    for n in 0..count {
        let len = n % (max + 1);
        let mut s = String::new();
        for _ in 0..len {
            state ^= state << 13;
            state ^= state >> 7;
            state ^= state << 17;
            s.push_str(alphabet[(state % alphabet.len() as u64) as usize]);
        }
        out.push(s);
    }
    out
}

#[test]
fn sections_are_those_of_the_heading_pattern() {
    let re = Regex::new(r"(#{1,6} .+?)\n").unwrap();
    for t in texts(&["#", "#", " ", "a", "\n", "\r", "##### "], 14, 3000) {
        let parts: Vec<&str> = re.split(&t).collect();
        let headings: Vec<&str> = re.captures_iter(&t).map(|c| c.get(1).unwrap().as_str()).collect();
        let expected: Vec<(String, String)> = if headings.is_empty() {
            vec![(String::new(), t.clone())]
        } else {
            headings
                .iter()
                .enumerate()
                .map(|(i, h)| (h.to_string(), parts.get(i + 1).unwrap_or(&"").to_string()))
                .collect()
        };
        assert_eq!(split_into_sections(&t), expected, "{:?}", t);
    }
}

#[test]
fn keys_are_those_of_the_inflection_patterns() {
    let first = Regex::new(r"([A-Z]+)([A-Z][a-z])").unwrap();
    let second = Regex::new(r"([a-z\d])([A-Z])").unwrap();
    for t in texts(&["A", "B", "Z", "a", "z", "1", "_", "-", " ", "\u{c9}", "\u{663}", "\u{df}"], 9, 1500) {
        let s = t.replace('-', "_").replace(' ', "_");
        let s = first.replace_all(&s, "${1}_${2}");
        let s = second.replace_all(&s, "${1}_${2}");
        let expected = s.to_lowercase();
        assert_eq!(underscore(&t), expected, "{:?}", t);
        assert_eq!(as_note_field_name(&t), expected.replace('_', "-").to_lowercase(), "{:?}", t);
    }
}

#[test]
fn titles_are_those_of_the_stamp_pattern() {
    let re = Regex::new(r"^(\d{14}|\d{12})").unwrap();
    let mut stems = texts(&["1", "2", "0", "-", "a", " ", "\u{663}"], 17, 600);
    stems.push("20240115143022-a".to_string());
    stems.push("\u{663}0240115143022-a".to_string());
    stems.push("2024011514302".to_string());
    for stem in stems {
        let stripped = re.replace(&stem, "");
        let title = stripped.replace('-', " ").trim().to_string();
        let expected = if title.is_empty() {
            None
        } else {
            let mut chars = title.chars();
            let c = chars.next().unwrap();
            Some(c.to_uppercase().to_string() + chars.as_str())
        };
        assert_eq!(title_from_filename(&stem), expected, "{:?}", stem);
    }
}

#[test]
fn tag_lines_are_those_of_the_tag_pattern() {
    let re = Regex::new(r"(?m)^(?:tag|tags):[ \t]*(\S.*)$").unwrap();
    let mut blocks = texts(&["tag", "tags", ":", " ", "\t", "a", "#", ",", "[", "]", "\n", "\r", "\u{a0}"], 10, 3000);
    blocks.push("tags: [a, #b,c]\ntag:x\ntags:\n  - y".to_string());
    for block in blocks {
        let expected = re
            .replace_all(&block, |caps: &regex::Captures| {
                let key = caps.get(0).unwrap().as_str().split(':').next().unwrap();
                let cleaned = caps
                    .get(1)
                    .unwrap()
                    .as_str()
                    .replace('[', "")
                    .replace(']', "")
                    .replace(", ", " ")
                    .replace(',', " ");
                let tags: Vec<&str> =
                    cleaned.split_whitespace().map(|t| t.trim_start_matches('#')).collect();
                format!("{}: [{}]", key, tags.join(", "))
            })
            .to_string();
        assert_eq!(normalize_tags(&block), expected, "{:?}", block);
    }
}

#[test]
fn front_matter_block_is_that_of_the_fence_pattern() {
    let re = Regex::new(r"(?s)---\n(.*?)\n---").unwrap();
    for t in texts(&["-", "---", "\n", "a: 1", "b", " "], 9, 2500) {
        let (metadata, rest) = extract_metadata(&t);
        match re.captures(&t) {
            None => {
                assert!(metadata.is_none(), "{:?}", t);
                assert_eq!(rest, t);
            },
            Some(caps) => {
                let block = normalize_tags(caps.get(1).unwrap().as_str());
                match serde_yaml::from_str::<serde_yaml::Value>(&block) {
                    Ok(_) => {
                        assert!(metadata.is_some(), "{:?}", t);
                        assert_eq!(rest, t.replacen(caps.get(0).unwrap().as_str(), "", 1), "{:?}", t);
                    },
                    Err(_) => {
                        assert!(metadata.is_none(), "{:?}", t);
                        assert_eq!(rest, t);
                    },
                }
            },
        }
    }
}

#[test]
fn dataview_keys_are_those_of_the_key_pattern() {
    let re = Regex::new(r"^(\S+)::").unwrap();
    for t in texts(&[":", "::", "a", " ", "\n", "\u{a0}", "b"], 10, 3000) {
        let expected = t
            .lines()
            .map(|line| {
                re.replace(line, |caps: &regex::Captures| format!("{}:", caps.get(1).unwrap().as_str()))
                    .to_string()
            })
            .collect::<Vec<_>>()
            .join("\n");
        assert_eq!(fix_dataview_keys(&t), expected, "{:?}", t);
    }
}

#[test]
fn back_matter_with_one_fence_is_cut_as_the_fence_pattern_cuts_it() {
    let region = Regex::new(r"(?s)\n---\n(.*)$").unwrap();
    let cut = Regex::new(r"(?m)(^---$)[\s\S]*").unwrap();
    for head in texts(&["a", "\n", "-", " ", "--"], 6, 300) {
        for tail in ["", "\n", "- k:: v\n", "x"] {
            let t = format!("{}\n---\n{}", head, tail);
            if t.matches("---").count() != 1 || t.contains("----") {
                continue;
            }
            assert_eq!(remove_back_matter(&t), cut.replace(&t, "").trim_end(), "{:?}", t);
            let (reference, _) = extract_reference(&t);
            assert!(region.is_match(&t));
            assert!(reference.is_some(), "{:?}", t);
        }
    }
}

#[test]
fn wiki_links_are_those_of_the_link_pattern() {
    let re = Regex::new(r"\[\[(.*?)\]\]").unwrap();
    for t in texts(&["[", "]", "[[", "]]", "a", "\n", " "], 9, 3000) {
        let expected = re.captures(&t).map(|c| c.get(1).unwrap().as_str().to_string());
        assert_eq!(find_wiki_link(&to_chars(&t)).map(|l| to_string(&l)), expected, "{:?}", t);
    }
}

#[test]
fn target_dates_are_those_of_the_date_pattern() {
    let re = Regex::new(r"\b(\d{4}-\d{2}-\d{2})\b").unwrap();
    let mut inputs = texts(&["2024-01-05", "2024-1", "-", "1", "a", " ", "\u{663}", "_", "."], 6, 1200);
    inputs.push("before 2024-13-01 then 2024-01-01".to_string());
    for t in inputs {
        let input = t.trim();
        let mut expected = (None, input.to_string());
        if let Some(caps) = re.captures(input) {
            let m = caps.get(1).unwrap();
            if let Ok(date) = chrono::NaiveDateTime::parse_from_str(
                &format!("{} 00:00:00", m.as_str()),
                "%Y-%m-%d %H:%M:%S",
            ) {
                expected = (Some(date.and_utc().timestamp()), input[..m.start()].trim().to_string());
            }
        }
        let read = parse_date_string(&t);
        assert_eq!((read.date, read.before), expected, "{:?}", t);
    }
}

#[test]
fn log_entries_are_those_of_the_entry_pattern() {
    let re = Regex::new(r"^(\d{2}\.\d{2}\.\d{4} \d{2}:\d{2}) - (.*?)(?:\s*=>\s*(.*))?$").unwrap();
    let stamps = ["15.01.2024 09:00 - ", "31.02.2024 09:00 - ", "15.01.2024 09:00 -", "1\u{665}.01.2024 09:00 - "];
    let rests = texts(&["a", " ", "=>", "=", ">", "\t", "\u{a0}", "b =>"], 7, 400);
    for stamp in stamps {
        for rest in &rests {
            let line = format!("{}{}", stamp, rest);
            let trimmed = line.trim();
            let mut entries = Vec::new();
            let mut kept = Vec::new();
            if let Some(caps) = re.captures(trimmed) {
                let before = caps.get(2).unwrap().as_str().trim().to_string();
                let after = caps.get(3).map(|m| m.as_str().trim().to_string()).unwrap_or_default();
                if let Ok(at) =
                    chrono::NaiveDateTime::parse_from_str(caps.get(1).unwrap().as_str(), "%d.%m.%Y %H:%M")
                {
                    entries.push((at.format("%Y-%m-%d %H:%M").to_string(), before, after));
                }
            } else if !trimmed.is_empty() {
                kept.push(trimmed.to_string());
            }
            let (found, stay) = extract_log_entries(&line);
            let found: Vec<(String, String, String)> =
                found.into_iter().map(|e| (e.date, e.before, e.after)).collect();
            let stay: Vec<String> = stay.iter().map(to_string).collect();
            assert_eq!((found, stay), (entries, kept), "{:?}", line);
        }
    }
}

#[test]
fn values_are_quoted_as_the_line_rules_say() {
    for t in texts(&[":", ": ", "[", "]", "\"", "a", "\n", " "], 9, 3000) {
        let expected = t
            .lines()
            .map(|line| {
                if !line.contains(':') {
                    return line.to_string();
                }
                let (key, value) = if let Some((k, v)) = line.split_once(": ") {
                    (k, v.to_string())
                } else {
                    (line.split(':').next().unwrap(), String::new())
                };
                let needs_quoting = (value.contains(':') || value.contains('[') || value.contains(']'))
                    && !value.starts_with('"')
                    && !value.ends_with('"');
                if needs_quoting {
                    format!("{}: \"{}\"", key, value)
                } else {
                    format!("{}: {}", key, value)
                }
            })
            .collect::<Vec<_>>()
            .join("\n");
        assert_eq!(quote_unsafe_strings(&t), expected, "{:?}", t);
    }
}

#[test]
fn bullets_and_tags_are_fixed_as_the_standard_library_would() {
    for t in texts(&["* ", "*", " ", "a", "\n", "\r", "- ", "\t"], 9, 2000) {
        let mut data = ZettelData::new();
        data.sections.push(("# T".to_string(), t.clone()));
        fix_lists_bullets(&mut data);
        let expected = t
            .lines()
            .map(|line| {
                if line.starts_with("* ") {
                    format!("- {}", line[2..].trim())
                } else {
                    line.trim().to_string()
                }
            })
            .collect::<Vec<_>>()
            .join("\n");
        assert_eq!(data.sections[0].1, expected, "{:?}", t);
    }
    let words = texts(&["a", "b", "B", "\u{e9}", "z"], 2, 40);
    for round in 0..200 {
        let items: Vec<YamlValue> = (0..(round % 9))
            .map(|i| {
                let w = &words[(round * 7 + i * 13) % words.len()];
                if (round + i) % 5 == 0 {
                    YamlValue::Int(i as i64)
                } else {
                    YamlValue::String(w.clone())
                }
            })
            .collect();
        let key = |v: &YamlValue| v.as_str().unwrap_or("").to_string();
        let mut seen = std::collections::HashSet::new();
        let mut expected: Vec<String> = items
            .iter()
            .filter(|v| match v {
                YamlValue::String(s) => seen.insert(s.clone()),
                _ => true,
            })
            .map(|v| format!("{:?}", v))
            .collect();
        let mut data = ZettelData::new();
        data.metadata.insert("tags".to_string(), YamlValue::List(items.clone()));
        remove_duplicate_tags(&mut data);
        let shown = |d: &ZettelData| -> Vec<String> {
            d.metadata.get("tags").unwrap().as_list().unwrap().iter().map(|v| format!("{:?}", v)).collect()
        };
        assert_eq!(shown(&data), expected);
        let mut sorted: Vec<YamlValue> = data.metadata.get("tags").unwrap().as_list().unwrap().clone();
        sorted.sort_by(|a, b| key(a).cmp(&key(b)));
        expected = sorted.iter().map(|v| format!("{:?}", v)).collect();
        sort_tags(&mut data);
        assert_eq!(shown(&data), expected);
    }
}
