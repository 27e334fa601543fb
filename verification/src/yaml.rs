//! YAML documents as plain values, and the values of a note that they give.
//! Parsing is the work of the YAML crates; what they return is named here.

use serde_yaml::Value as FrontValue;
use serde_yml::Value as BackValue;
use vstd::prelude::*;

use crate::datetime::{
    date_value, naive_value, parse_date, parse_naive, parse_rfc3339, parse_zoned, rfc3339_value,
    zoned_value,
};
use crate::text::{strip_trailing, to_chars, to_string, without_trailing};
use crate::types::{list_view, DateTime, ValueView, YamlValue};

verus! {

/// `serde_yaml::Value`, which only `raw_of_front` looks into.
#[verifier::external_type_specification]
#[verifier::external_body]
pub struct ExFrontValue(FrontValue);

/// `serde_yml::Value`, which only `raw_of_back` looks into.
#[verifier::external_type_specification]
#[verifier::external_body]
pub struct ExBackValue(BackValue);

/// A YAML document as the parser hands it over. A number holds what the
/// parser's `as_i64` and `as_f64` give for it, the second as the bit pattern
/// of the double. A mapping holds its entries in document order and the text
/// that the parser's `Debug` writes for it.
#[derive(Debug)]
pub enum RawYaml {
    Null,
    Bool(bool),
    Number(Option<i64>, Option<u64>),
    Text(String),
    Sequence(Vec<RawYaml>),
    Mapping(Vec<(RawYaml, RawYaml)>, String),
    Tagged(Box<RawYaml>),
}

/// What a `RawYaml` holds.
pub enum RawView {
    Null,
    Bool(bool),
    Number(Option<i64>, Option<u64>),
    Text(Seq<char>),
    Sequence(Seq<RawView>),
    Mapping(Seq<(RawView, RawView)>, Seq<char>),
    Tagged(Box<RawView>),
}

/// What the documents of a sequence hold, item by item.
pub open spec fn raw_items(items: Seq<RawYaml>) -> Seq<RawView>
    decreases items, 1nat,
{
    Seq::new(
        items.len(),
        |i: int|
            if 0 <= i < items.len() {
                items[i]@
            } else {
                RawView::Null
            },
    )
}

/// What the document under a tag holds.
pub open spec fn raw_inner(inner: RawYaml) -> RawView
    decreases inner, 1nat,
{
    inner@
}

/// What the entries of a mapping hold, entry by entry.
pub open spec fn raw_entries(entries: Seq<(RawYaml, RawYaml)>) -> Seq<(RawView, RawView)>
    decreases entries, 1nat,
{
    Seq::new(
        entries.len(),
        |i: int|
            if 0 <= i < entries.len() {
                (entries[i].0@, entries[i].1@)
            } else {
                (RawView::Null, RawView::Null)
            },
    )
}

impl View for RawYaml {
    type V = RawView;

    open spec fn view(&self) -> RawView
        decreases self, 0nat,
    {
        match self {
            RawYaml::Null => RawView::Null,
            RawYaml::Bool(b) => RawView::Bool(*b),
            RawYaml::Number(i, f) => RawView::Number(*i, *f),
            RawYaml::Text(s) => RawView::Text(s@),
            RawYaml::Sequence(items) => RawView::Sequence(raw_items(items@)),
            RawYaml::Mapping(entries, debug) => RawView::Mapping(raw_entries(entries@), debug@),
            RawYaml::Tagged(inner) => RawView::Tagged(Box::new(raw_inner(**inner))),
        }
    }
}

/// The document that `serde_yaml::from_str` reads from a text, where it
/// reads one.
pub uninterp spec fn front_document(text: Seq<char>) -> Option<RawView>;

/// The document that `serde_yml::from_str` reads from a text, where it reads
/// one.
pub uninterp spec fn back_document(text: Seq<char>) -> Option<RawView>;

/// Takes a `serde_yaml::Value` apart, variant by variant, into a `RawYaml`.
#[verifier::external_body]
fn raw_of_front(v: &FrontValue) -> RawYaml {
    match v {
        FrontValue::Null => RawYaml::Null,
        FrontValue::Bool(b) => RawYaml::Bool(*b),
        FrontValue::Number(n) => RawYaml::Number(n.as_i64(), n.as_f64().map(|f| f.to_bits())),
        FrontValue::String(s) => RawYaml::Text(s.clone()),
        FrontValue::Sequence(items) => RawYaml::Sequence(items.iter().map(raw_of_front).collect()),
        FrontValue::Mapping(m) => RawYaml::Mapping(
            m.iter().map(|(k, x)| (raw_of_front(k), raw_of_front(x))).collect(),
            format!("{:?}", v),
        ),
        FrontValue::Tagged(t) => RawYaml::Tagged(Box::new(raw_of_front(&t.value))),
    }
}

/// Takes a `serde_yml::Value` apart, variant by variant, into a `RawYaml`.
/// The keys of its mappings are strings.
#[verifier::external_body]
fn raw_of_back(v: &BackValue) -> RawYaml {
    match v {
        BackValue::Null => RawYaml::Null,
        BackValue::Bool(b) => RawYaml::Bool(*b),
        BackValue::Number(n) => RawYaml::Number(n.as_i64(), Some(n.as_f64().to_bits())),
        BackValue::String(s) => RawYaml::Text(s.clone()),
        BackValue::Sequence(items) => RawYaml::Sequence(items.iter().map(raw_of_back).collect()),
        BackValue::Mapping(m) => RawYaml::Mapping(
            m.iter().map(|(k, x)| (RawYaml::Text(k.clone()), raw_of_back(x))).collect(),
            format!("{:?}", v),
        ),
        BackValue::Tagged(t) => RawYaml::Tagged(Box::new(raw_of_back(t.value()))),
    }
}

/// Calls `serde_yaml::from_str` for a `serde_yaml::Value`. A text that is no
/// YAML gives nothing.
#[verifier::external_body]
pub(crate) fn parse_front_yaml(text: &str) -> (r: Option<RawYaml>)
    ensures
        match r {
            Some(raw) => front_document(text@) == Some(raw@),
            None => front_document(text@) is None,
        },
{
    match serde_yaml::from_str::<FrontValue>(text) {
        Ok(v) => Some(raw_of_front(&v)),
        Err(_) => None,
    }
}

/// Calls `serde_yml::from_str` for a `serde_yml::Value`. A text that is no
/// YAML gives nothing.
#[verifier::external_body]
pub(crate) fn parse_back_yaml(text: &str) -> (r: Option<RawYaml>)
    ensures
        match r {
            Some(raw) => back_document(text@) == Some(raw@),
            None => back_document(text@) is None,
        },
{
    match serde_yml::from_str::<BackValue>(text) {
        Ok(v) => Some(raw_of_back(&v)),
        Err(_) => None,
    }
}

/// A point in time given in UTC.
pub open spec fn in_utc(timestamp: i64) -> DateTime {
    DateTime { timestamp, offset: 0 }
}

/// The point in time that a text names, where it names one. These readings
/// are tried in order: RFC 3339; date, time and offset, with and without a
/// space before the offset; date and time, taken as UTC; a date, taken as
/// the start of that day in UTC; a date followed by letters `T`.
pub open spec fn datetime_of(s: Seq<char>) -> Option<DateTime> {
    if rfc3339_value(s) is Some {
        rfc3339_value(s)
    } else if zoned_value(s, "%Y-%m-%d %H:%M:%S %z"@) is Some {
        zoned_value(s, "%Y-%m-%d %H:%M:%S %z"@)
    } else if zoned_value(s, "%Y-%m-%d %H:%M:%S%z"@) is Some {
        zoned_value(s, "%Y-%m-%d %H:%M:%S%z"@)
    } else if naive_value(s, "%Y-%m-%d %H:%M:%S"@) is Some {
        Some(in_utc(naive_value(s, "%Y-%m-%d %H:%M:%S"@)->0))
    } else if date_value(s, "%Y-%m-%d"@) is Some {
        Some(in_utc(date_value(s, "%Y-%m-%d"@)->0))
    } else if date_value(without_trailing(s, 'T'), "%Y-%m-%d"@) is Some {
        Some(in_utc(date_value(without_trailing(s, 'T'), "%Y-%m-%d"@)->0))
    } else {
        None
    }
}

/// The value of a note that a YAML document gives. A number is an integer
/// where it has one, else a float. A text that names a point in time is that
/// point in time. The items of a sequence are taken one by one. A mapping is
/// folded into the text that stands for it. A tag is dropped.
pub open spec fn value_of(raw: RawView) -> ValueView
    decreases raw,
{
    match raw {
        RawView::Null => ValueView::Null,
        RawView::Bool(b) => ValueView::Bool(b),
        RawView::Number(Some(i), _) => ValueView::Int(i),
        RawView::Number(None, Some(bits)) => ValueView::Float(bits),
        RawView::Number(None, None) => ValueView::Null,
        RawView::Text(s) => match datetime_of(s) {
            Some(dt) => ValueView::DateTime(dt),
            None => ValueView::Str(s),
        },
        RawView::Sequence(items) => ValueView::List(
            Seq::new(
                items.len(),
                |i: int|
                    if 0 <= i < items.len() {
                        value_of(items[i])
                    } else {
                        ValueView::Null
                    },
            ),
        ),
        RawView::Mapping(_, debug) => ValueView::Str(debug),
        RawView::Tagged(inner) => value_of(*inner),
    }
}

/// Reads a text as a point in time.
pub fn parse_datetime(s: &str) -> (r: Option<DateTime>)
    ensures
        r == datetime_of(s@),
{
    if let Some(dt) = parse_rfc3339(s) {
        return Some(dt);
    }
    if let Some(dt) = parse_zoned(s, "%Y-%m-%d %H:%M:%S %z") {
        return Some(dt);
    }
    if let Some(dt) = parse_zoned(s, "%Y-%m-%d %H:%M:%S%z") {
        return Some(dt);
    }
    if let Some(t) = parse_naive(s, "%Y-%m-%d %H:%M:%S") {
        return Some(DateTime { timestamp: t, offset: 0 });
    }
    if let Some(t) = parse_date(s, "%Y-%m-%d") {
        return Some(DateTime { timestamp: t, offset: 0 });
    }
    let stripped = to_string(&strip_trailing(&to_chars(s), 'T'));
    if let Some(t) = parse_date(stripped.as_str(), "%Y-%m-%d") {
        return Some(DateTime { timestamp: t, offset: 0 });
    }
    None
}

impl YamlValue {
    /// The value of a note that a YAML document gives.
    pub fn from_yaml(raw: &RawYaml) -> (r: YamlValue)
        ensures
            r@ == value_of(raw@),
        decreases raw,
    {
        match raw {
            RawYaml::Null => YamlValue::Null,
            RawYaml::Bool(b) => YamlValue::Bool(*b),
            RawYaml::Number(Some(i), _) => YamlValue::Int(*i),
            RawYaml::Number(None, Some(bits)) => YamlValue::Float(*bits),
            RawYaml::Number(None, None) => YamlValue::Null,
            RawYaml::Text(s) => match parse_datetime(s.as_str()) {
                Some(dt) => YamlValue::DateTime(dt),
                None => YamlValue::String(s.clone()),
            },
            RawYaml::Sequence(items) => {
                let mut out: Vec<YamlValue> = Vec::new();
                let mut i: usize = 0;
                while i < items.len()
                    invariant
                        i <= items.len(),
                        out.len() == i,
                        raw matches RawYaml::Sequence(v) && v == items,
                        forall|j: int| 0 <= j < i ==> out[j]@ == value_of(items[j]@),
                    decreases items.len() - i,
                {
                    out.push(YamlValue::from_yaml(&items[i]));
                    i += 1;
                }
                assert(raw@ == RawView::Sequence(raw_items(items@)));
                assert forall|j: int| 0 <= j < items.len() implies list_view(out@)[j] == value_of(
                    raw_items(items@)[j],
                ) by {
                    assert(raw_items(items@)[j] == items@[j]@);
                }
                assert(list_view(out@) =~= value_of(raw@)->List_0);
                YamlValue::List(out)
            },
            RawYaml::Mapping(_, debug) => YamlValue::String(debug.clone()),
            RawYaml::Tagged(inner) => YamlValue::from_yaml(inner),
        }
    }
}

} // verus!
