//! What the name of a file tells of a note: its date and its title.

use vstd::prelude::*;

use crate::consistency::fixers::{capitalize, capitalized};
use crate::datetime::{naive_value, parse_naive};
use crate::pattern::{digits_at, has_digits};
use crate::text::{replace_char, replaced, slice, to_chars, to_string, trim, trim_of};
use crate::types::DateTime;

verus! {

/// The length of the time stamp at the start of a file stem: 14 where it
/// begins with 14 digits, 12 where it begins with 12, else 0.
pub open spec fn stamp_len(stem: Seq<char>) -> int {
    if digits_at(stem, 0, 14) {
        14
    } else if digits_at(stem, 0, 12) {
        12
    } else {
        0
    }
}

/// The date that a file stem names: its time stamp read as
/// `%Y%m%d%H%M%S` or, failing that, as `%Y%m%d%H%M`, in UTC.
pub open spec fn filename_date(stem: Seq<char>) -> Option<DateTime> {
    let stamp = stem.subrange(0, stamp_len(stem));
    if stamp_len(stem) == 0 {
        None
    } else if naive_value(stamp, "%Y%m%d%H%M%S"@) is Some {
        Some(DateTime { timestamp: naive_value(stamp, "%Y%m%d%H%M%S"@)->0, offset: 0 })
    } else if naive_value(stamp, "%Y%m%d%H%M"@) is Some {
        Some(DateTime { timestamp: naive_value(stamp, "%Y%m%d%H%M"@)->0, offset: 0 })
    } else {
        None
    }
}

/// The title that a file stem names: what follows its time stamp, with
/// spaces for hyphens, trimmed, its first character in upper case; none
/// where nothing is left.
pub open spec fn filename_title(stem: Seq<char>) -> Option<Seq<char>> {
    let rest = trim_of(replaced(stem.subrange(stamp_len(stem), stem.len() as int), '-', ' '));
    if rest.len() == 0 {
        None
    } else {
        Some(capitalized(rest))
    }
}

fn leading_stamp(stem: &Vec<char>) -> (r: usize)
    ensures
        r == stamp_len(stem@),
        r <= stem.len(),
{
    if has_digits(stem, 0, 14) {
        14
    } else if has_digits(stem, 0, 12) {
        12
    } else {
        0
    }
}

/// The date that the time stamp at the start of a file stem names.
pub fn date_from_filename(stem: &str) -> (r: Option<DateTime>)
    ensures
        r == filename_date(stem@),
{
    let chars = to_chars(stem);
    let n = leading_stamp(&chars);
    if n == 0 {
        return None;
    }
    let stamp = to_string(&slice(&chars, 0, n));
    if let Some(t) = parse_naive(stamp.as_str(), "%Y%m%d%H%M%S") {
        return Some(DateTime { timestamp: t, offset: 0 });
    }
    if let Some(t) = parse_naive(stamp.as_str(), "%Y%m%d%H%M") {
        return Some(DateTime { timestamp: t, offset: 0 });
    }
    None
}

/// The title that a file stem names once its time stamp is taken off.
pub fn title_from_filename(stem: &str) -> (r: Option<String>)
    ensures
        match r {
            Some(title) => filename_title(stem@) == Some(title@),
            None => filename_title(stem@) is None,
        },
{
    let chars = to_chars(stem);
    let n = leading_stamp(&chars);
    let rest = trim(&replace_char(&slice(&chars, n, chars.len()), '-', ' '));
    if rest.len() == 0 {
        None
    } else {
        Some(to_string(&capitalize(&rest)))
    }
}

} // verus!
