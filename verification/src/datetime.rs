//! Points in time, held as microseconds since the Unix epoch (UTC), within
//! the range of dates that the calendar library represents.

use vstd::prelude::*;

use chrono::{DateTime, Utc};

verus! {

/// Microseconds of `-262143-01-01T00:00:00Z`, the earliest representable time.
pub const MIN_MICROS: i64 = -8334601228800000000i64;

/// Microseconds of `+262142-12-31T23:59:59.999999Z`, the latest representable
/// time at microsecond precision.
pub const MAX_MICROS: i64 = 8210266876799999999i64;

/// Whether `m` microseconds since the epoch is a representable time.
pub open spec fn micros_in_range(m: int) -> bool {
    MIN_MICROS <= m <= MAX_MICROS
}

/// `DateTime::<Utc>::from_timestamp_micros(m).is_some()`: whether the
/// calendar library accepts the timestamp. By the crate's source it accepts
/// exactly the dates from `NaiveDate::MIN` (-262143-01-01) to
/// `NaiveDate::MAX` (+262142-12-31).
#[verifier::external_body]
pub(crate) fn timestamp_is_valid(m: i64) -> (b: bool)
    ensures
        b == micros_in_range(m as int),
{
    DateTime::<Utc>::from_timestamp_micros(m).is_some()
}

/// `Utc::now().timestamp_micros()`: the current time. Which time comes back
/// is left open; it is a representable time.
#[verifier::external_body]
pub(crate) fn now_micros() -> (m: i64)
    ensures
        micros_in_range(m as int),
{
    Utc::now().timestamp_micros()
}

/// The text that `format("%Y-%m-%dT%H:%M:%S")` writes for the time `m`.
pub uninterp spec fn iso_seconds(m: int) -> Seq<char>;

/// `DateTime::<Utc>::from_timestamp_micros(m).format("%Y-%m-%dT%H:%M:%S")`:
/// the calendar date and time of day (to the second) of `m`. The text itself
/// is named, not stated.
#[verifier::external_body]
pub(crate) fn format_iso_seconds(m: i64) -> (s: String)
    requires
        micros_in_range(m as int),
    ensures
        s@ == iso_seconds(m as int),
{
    match DateTime::<Utc>::from_timestamp_micros(m) {
        Some(t) => t.format("%Y-%m-%dT%H:%M:%S").to_string(),
        None => String::new(),
    }
}

/// The time, in microseconds, that `DateTime::parse_from_rfc3339` reads from
/// a text, converted to UTC; `None` when it refuses the text.
pub uninterp spec fn rfc3339_micros(s: Seq<char>) -> Option<i64>;

/// `DateTime::parse_from_rfc3339(s)` converted to UTC and read as
/// microseconds. The result is named `rfc3339_micros`; the parser only takes
/// four-digit years, so what it reads is a representable time.
#[verifier::external_body]
pub(crate) fn parse_rfc3339(s: &str) -> (r: Option<i64>)
    ensures
        r == rfc3339_micros(s@),
        r is Some ==> micros_in_range(r->Some_0 as int),
{
    match DateTime::parse_from_rfc3339(s) {
        Ok(t) => Some(t.with_timezone(&Utc).timestamp_micros()),
        Err(_) => None,
    }
}


/// The nanoseconds past the whole microsecond of the time that
/// `DateTime::parse_from_rfc3339` reads from a text; `None` when it refuses
/// the text.
pub uninterp spec fn rfc3339_sub_micro_nanos(s: Seq<char>) -> Option<u32>;

/// `DateTime::parse_from_rfc3339(s)` converted to UTC, read as whole
/// microseconds (`timestamp_micros`, rounded down) and the nanoseconds past
/// them (`timestamp_subsec_nanos() % 1000`). The microseconds are those of
/// `parse_rfc3339`; the nanoseconds are named `rfc3339_sub_micro_nanos` and
/// are under 1000.
#[verifier::external_body]
pub(crate) fn parse_rfc3339_nanos(s: &str) -> (r: Option<(i64, u32)>)
    ensures
        r is Some <==> rfc3339_micros(s@) is Some,
        r is Some ==> r->Some_0.0 == rfc3339_micros(s@)->Some_0,
        r is Some ==> rfc3339_sub_micro_nanos(s@) == Some(r->Some_0.1),
        r is Some ==> r->Some_0.1 < 1000,
{
    match DateTime::parse_from_rfc3339(s) {
        Ok(t) => {
            let u = t.with_timezone(&Utc);
            Some((u.timestamp_micros(), u.timestamp_subsec_nanos() % 1000))
        },
        Err(_) => None,
    }
}

/// The text that `format("%Y-%m-%d %H:%M UTC")` writes for the time that
/// `DateTime::parse_from_rfc3339` reads from a text, in the offset written
/// in that text.
pub uninterp spec fn created_minutes(s: Seq<char>) -> Seq<char>;

/// `DateTime::parse_from_rfc3339(s)` formatted as `%Y-%m-%d %H:%M UTC`;
/// `None` when the parser refuses the text, which is exactly when
/// `parse_rfc3339` does (the same parse). The text is named
/// `created_minutes`.
#[verifier::external_body]
pub(crate) fn format_created(s: &str) -> (r: Option<String>)
    ensures
        r is Some <==> rfc3339_micros(s@) is Some,
        r is Some ==> r->Some_0@ == created_minutes(s@),
{
    match DateTime::parse_from_rfc3339(s) {
        Ok(t) => Some(t.format("%Y-%m-%d %H:%M UTC").to_string()),
        Err(_) => None,
    }
}

/// The text that `format("%Y-%m-%d %H:%M:%S UTC")` writes for the time that
/// `DateTime::parse_from_rfc3339` reads from a text, in the offset written
/// in that text.
pub uninterp spec fn created_seconds(s: Seq<char>) -> Seq<char>;

/// `DateTime::parse_from_rfc3339(s)` formatted as `%Y-%m-%d %H:%M:%S UTC`;
/// `None` exactly when the parser refuses the text. The text is named
/// `created_seconds`.
#[verifier::external_body]
pub(crate) fn format_created_seconds(s: &str) -> (r: Option<String>)
    ensures
        r is Some <==> rfc3339_micros(s@) is Some,
        r is Some ==> r->Some_0@ == created_seconds(s@),
{
    match DateTime::parse_from_rfc3339(s) {
        Ok(t) => Some(t.format("%Y-%m-%d %H:%M:%S UTC").to_string()),
        Err(_) => None,
    }
}

} // verus!
