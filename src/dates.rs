//! Calendar formatting of Unix timestamps, through chrono, in UTC.

use vstd::prelude::*;

verus! {

/// The largest distance from the epoch, in seconds, that a timestamp may
/// have here: about 253,000 years, inside chrono's range of dates
/// (years -262,143 to 262,142).
pub const MAX_TIMESTAMP: i64 = 8_000_000_000_000;

/// Human date, as in `May 24, 2021`.
pub const HUMAN_DATE_FORMAT: &'static str = "%B %d, %Y";

/// RSS date, as in `Mon, 24 May 2021 00:00:00 +0000`.
pub const RSS_DATE_FORMAT: &'static str = "%a, %d %B %Y %H:%M:%S %z";

pub open spec fn timestamp_in_range(ts: i64) -> bool {
    -MAX_TIMESTAMP <= ts <= MAX_TIMESTAMP
}

/// The formats this library hands to chrono; each is valid for it.
pub open spec fn known_format(fmt: Seq<char>) -> bool {
    fmt == HUMAN_DATE_FORMAT@ || fmt == RSS_DATE_FORMAT@
}

/// What chrono's `format` writes for the UTC date-time `ts` seconds after the
/// epoch, with the strftime-style format `fmt`.
pub uninterp spec fn utc_format_of(ts: int, fmt: Seq<char>) -> Seq<char>;

/// What chrono's `to_rfc3339` writes for the UTC date-time `ts` seconds
/// after the epoch.
pub uninterp spec fn rfc3339_of(ts: int) -> Seq<char>;

/// Relies on chrono's `DateTime::from_timestamp` (some for every timestamp in
/// range) and `DateTime::format` (deterministic in the date and the format).
#[verifier::external_body]
fn format_utc(ts: i64, fmt: &str) -> (r: String)
    requires
        timestamp_in_range(ts),
        known_format(fmt@),
    ensures
        r@ == utc_format_of(ts as int, fmt@),
{
    chrono::DateTime::from_timestamp(ts, 0).unwrap().format(fmt).to_string()
}

/// Relies on chrono's `DateTime::to_rfc3339` (after `DateTime::from_timestamp`,
/// some for every timestamp in range).
#[verifier::external_body]
fn rfc3339_utc(ts: i64) -> (r: String)
    requires
        timestamp_in_range(ts),
    ensures
        r@ == rfc3339_of(ts as int),
{
    chrono::DateTime::from_timestamp(ts, 0).unwrap().to_rfc3339()
}

/// The human date (`Month DD, YYYY`) and the ISO-8601 form of a timestamp.
pub fn get_date_string_from_timestamp(timestamp: i64) -> (r: (String, String))
    requires
        timestamp_in_range(timestamp),
    ensures
        r.0@ == utc_format_of(timestamp as int, HUMAN_DATE_FORMAT@),
        r.1@ == rfc3339_of(timestamp as int),
{
    let human = format_utc(timestamp, HUMAN_DATE_FORMAT);
    let iso = rfc3339_utc(timestamp);
    (human, iso)
}

/// The RSS form of a timestamp (`Day, DD Month YYYY HH:MM:SS +0000`).
pub fn rss_date(timestamp: i64) -> (r: String)
    requires
        timestamp_in_range(timestamp),
    ensures
        r@ == utc_format_of(timestamp as int, RSS_DATE_FORMAT@),
{
    format_utc(timestamp, RSS_DATE_FORMAT)
}

} // verus!
