//! Reading and writing points in time. The calendar is chrono's: what its
//! parsers and its formatter return is named here, not restated.

use vstd::prelude::*;

use crate::types::DateTime;

verus! {

/// What `chrono::DateTime::parse_from_rfc3339` makes of a text.
pub uninterp spec fn rfc3339_value(s: Seq<char>) -> Option<DateTime>;

/// What `chrono::DateTime::parse_from_str` makes of a text under a format
/// that asks for an offset.
pub uninterp spec fn zoned_value(s: Seq<char>, fmt: Seq<char>) -> Option<DateTime>;

/// What `chrono::NaiveDateTime::parse_from_str` makes of a text under a
/// format, as seconds since the Unix epoch.
pub uninterp spec fn naive_value(s: Seq<char>, fmt: Seq<char>) -> Option<i64>;

/// What `chrono::NaiveDate::parse_from_str` makes of a text under a format,
/// as the seconds since the Unix epoch at which that day begins.
pub uninterp spec fn date_value(s: Seq<char>, fmt: Seq<char>) -> Option<i64>;

/// How chrono writes a point in time, taken in UTC, under a format.
pub uninterp spec fn utc_text(timestamp: i64, fmt: Seq<char>) -> Option<Seq<char>>;

/// Calls `chrono::DateTime::parse_from_rfc3339`. A text that it accepts
/// gives the point in time, cut to the second, and the offset it was written
/// with.
#[verifier::external_body]
pub(crate) fn parse_rfc3339(s: &str) -> (r: Option<DateTime>)
    ensures
        r == rfc3339_value(s@),
{
    match chrono::DateTime::parse_from_rfc3339(s) {
        Ok(dt) => Some(DateTime { timestamp: dt.timestamp(), offset: dt.offset().local_minus_utc() }),
        Err(_) => None,
    }
}

/// Calls `chrono::DateTime::parse_from_str`. A text that it accepts gives
/// the point in time, cut to the second, and the offset it was written with.
#[verifier::external_body]
pub(crate) fn parse_zoned(s: &str, fmt: &str) -> (r: Option<DateTime>)
    ensures
        r == zoned_value(s@, fmt@),
{
    match chrono::DateTime::parse_from_str(s, fmt) {
        Ok(dt) => Some(DateTime { timestamp: dt.timestamp(), offset: dt.offset().local_minus_utc() }),
        Err(_) => None,
    }
}

/// Calls `chrono::NaiveDateTime::parse_from_str`. A text that it accepts
/// gives the date and time it names, read as UTC.
#[verifier::external_body]
pub(crate) fn parse_naive(s: &str, fmt: &str) -> (r: Option<i64>)
    ensures
        r == naive_value(s@, fmt@),
{
    match chrono::NaiveDateTime::parse_from_str(s, fmt) {
        Ok(dt) => Some(dt.and_utc().timestamp()),
        Err(_) => None,
    }
}

/// Calls `chrono::NaiveDate::parse_from_str`. A text that it accepts gives
/// the start of the day it names, read as UTC.
#[verifier::external_body]
pub(crate) fn parse_date(s: &str, fmt: &str) -> (r: Option<i64>)
    ensures
        r == date_value(s@, fmt@),
{
    match chrono::NaiveDate::parse_from_str(s, fmt) {
        Ok(d) => Some(d.and_time(chrono::NaiveTime::MIN).and_utc().timestamp()),
        Err(_) => None,
    }
}

/// Calls `chrono::DateTime::format` on the point in time, taken in UTC, and
/// writes the result out. Nothing comes back where chrono cannot hold the
/// point in time or cannot write it under the format.
#[verifier::external_body]
pub(crate) fn format_utc(timestamp: i64, fmt: &str) -> (r: Option<String>)
    ensures
        match r {
            Some(s) => utc_text(timestamp, fmt@) == Some(s@),
            None => utc_text(timestamp, fmt@) is None,
        },
{
    let dt = chrono::DateTime::from_timestamp(timestamp, 0)?;
    let mut out = String::new();
    match dt.format(fmt).write_to(&mut out) {
        Ok(()) => Some(out),
        Err(_) => None,
    }
}

/// Calls `chrono::Utc::now`: the seconds since the Unix epoch on the
/// machine's clock. Nothing is known of the number. chrono does not return
/// where the clock stands before the epoch.
#[verifier::external_body]
pub(crate) fn now_utc() -> i64 {
    chrono::Utc::now().timestamp()
}

} // verus!
