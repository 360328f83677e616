//! The recency filter: decides whether an entry's timestamp falls on a
//! given UTC calendar day, parsing it by the convention of the entry's
//! schema. Unparseable timestamps never count as "today" and never raise an
//! error.

use vstd::prelude::*;

use chrono::Datelike;

use crate::entry::Schema;

verus! {

/// A UTC calendar date as plain values: year, month (1-12) and day (1-31).
#[derive(Clone, Copy, PartialEq, Eq, Structural, Debug)]
pub struct UtcDate {
    pub year: i32,
    pub month: u32,
    pub day: u32,
}

/// The UTC calendar date `(year, month, day)` that the RFC 2822 date-time
/// convention assigns to a byte string, or `None` when the string does not
/// parse under it; a function of the bytes alone.
pub uninterp spec fn rfc2822_utc_date_of(s: Seq<u8>) -> Option<(int, int, int)>;

/// The UTC calendar date `(year, month, day)` that the RFC 3339 (ISO-style)
/// date-time convention assigns to a byte string, or `None` when the string
/// does not parse under it; a function of the bytes alone.
pub uninterp spec fn rfc3339_utc_date_of(s: Seq<u8>) -> Option<(int, int, int)>;

/// Relies on chrono's `DateTime::parse_from_rfc2822`: the parse depends on
/// the input text alone; the parsed instant is converted to UTC
/// (`naive_utc`) and reduced to its calendar date (`Datelike`).
#[verifier::external_body]
fn parse_rfc2822_utc_date(s: &[u8]) -> (r: Option<UtcDate>)
    ensures
        match r {
            Some(d) => rfc2822_utc_date_of(s@) == Some(
                (d.year as int, d.month as int, d.day as int),
            ),
            None => rfc2822_utc_date_of(s@) is None,
        },
{
    let text = match core::str::from_utf8(s) {
        Ok(t) => t,
        Err(_) => return None,
    };
    let parsed = match chrono::DateTime::parse_from_rfc2822(text) {
        Ok(d) => d,
        Err(_) => return None,
    };
    let date = parsed.naive_utc().date();
    Some(UtcDate { year: date.year(), month: date.month(), day: date.day() })
}

/// Relies on chrono's `DateTime::parse_from_rfc3339`: the parse depends on
/// the input text alone; the parsed instant is converted to UTC
/// (`naive_utc`) and reduced to its calendar date (`Datelike`).
#[verifier::external_body]
fn parse_rfc3339_utc_date(s: &[u8]) -> (r: Option<UtcDate>)
    ensures
        match r {
            Some(d) => rfc3339_utc_date_of(s@) == Some(
                (d.year as int, d.month as int, d.day as int),
            ),
            None => rfc3339_utc_date_of(s@) is None,
        },
{
    let text = match core::str::from_utf8(s) {
        Ok(t) => t,
        Err(_) => return None,
    };
    let parsed = match chrono::DateTime::parse_from_rfc3339(text) {
        Ok(d) => d,
        Err(_) => return None,
    };
    let date = parsed.naive_utc().date();
    Some(UtcDate { year: date.year(), month: date.month(), day: date.day() })
}

/// Relies on chrono's `Utc::now`: the current moment, reduced to its UTC
/// calendar date. The month and day ranges are the ones `Datelike`
/// documents; nothing else can be promised of the wall clock.
#[verifier::external_body]
pub(crate) fn today_utc() -> (r: UtcDate)
    ensures
        1 <= r.month <= 12,
        1 <= r.day <= 31,
{
    let date = chrono::Utc::now().naive_utc().date();
    UtcDate { year: date.year(), month: date.month(), day: date.day() }
}

/// The calendar date of a timestamp under the convention of its schema:
/// RFC 2822 for RSS `pubDate`, RFC 3339 for Atom `updated`.
pub open spec fn spec_date_of(schema: Schema, ts: Seq<u8>) -> Option<(int, int, int)> {
    match schema {
        Schema::Rss => rfc2822_utc_date_of(ts),
        Schema::Atom => rfc3339_utc_date_of(ts),
    }
}

/// The timestamp parses under its schema's convention and its UTC calendar
/// date is exactly `day`.
pub open spec fn spec_is_on_day(schema: Schema, ts: Seq<u8>, day: UtcDate) -> bool {
    spec_date_of(schema, ts) == Some((day.year as int, day.month as int, day.day as int))
}

/// Decides whether `timestamp`, read by `schema`'s convention, falls on the
/// UTC calendar day `today`. A timestamp that fails to parse is never
/// "today", and the failure never propagates.
pub fn is_today_on(timestamp: &[u8], schema: Schema, today: UtcDate) -> (r: bool)
    ensures
        r == spec_is_on_day(schema, timestamp@, today),
{
    let parsed = match schema {
        Schema::Rss => parse_rfc2822_utc_date(timestamp),
        Schema::Atom => parse_rfc3339_utc_date(timestamp),
    };
    match parsed {
        Some(d) => d.year == today.year && d.month == today.month && d.day == today.day,
        None => false,
    }
}

/// Decides whether `timestamp` falls on the current UTC calendar day,
/// evaluated fresh against the wall clock at call time: the answer is the
/// day comparison against whichever date the clock gave.
pub fn is_today(timestamp: &[u8], schema: Schema) -> (r: bool)
    ensures
        exists|d: UtcDate| r == spec_is_on_day(schema, timestamp@, d),
{
    let today = today_utc();
    let r = is_today_on(timestamp, schema, today);
    proof {
        assert(r == spec_is_on_day(schema, timestamp@, today));
    }
    r
}

} // verus!
