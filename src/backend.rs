//! The calls into chrono. Each function builds chrono's value from plain
//! fields, makes the chrono call and reads the answer back into plain fields.
use crate::civil::{instant_in_range, month_length, seconds_in_range, CivilDateTime, MAX_YEAR, MIN_YEAR};
use chrono::{Datelike, Timelike};
use vstd::prelude::*;

verus! {

/// What chrono's `Display` for `NaiveDateTime` writes for the date-time `dt`.
pub uninterp spec fn rendered(dt: CivilDateTime) -> Seq<char>;

/// Relies on chrono's `DateTime::from_timestamp`: the date-time `secs` whole
/// seconds and `nanos` nanoseconds after 1970-01-01 00:00:00, or `None` when its
/// year lies outside chrono's supported years.
#[verifier::external_body]
pub(crate) fn from_unix_seconds(secs: i64, nanos: u32) -> (r: Option<CivilDateTime>)
    requires
        nanos < 1_000_000_000,
    ensures
        r is Some <==> seconds_in_range(secs as int),
        r matches Some(d) ==> d.wf() && d.unix_seconds() == secs && d.nanosecond == nanos,
{
    let n = chrono::DateTime::from_timestamp(secs, nanos)?.naive_utc();
    Some(CivilDateTime {
        year: n.year(),
        month: n.month(),
        day: n.day(),
        hour: n.hour(),
        minute: n.minute(),
        second: n.second(),
        nanosecond: n.nanosecond(),
    })
}

/// Relies on chrono's `DateTime::timestamp`: the number of non-leap seconds
/// since 1970-01-01 00:00:00 of a date-time that chrono can represent.
#[verifier::external_body]
pub(crate) fn unix_seconds_of(dt: &CivilDateTime) -> (r: Option<i64>)
    requires
        dt.wf(),
    ensures
        r is Some,
        r matches Some(t) ==> t == dt.unix_seconds(),
{
    let n = chrono::NaiveDate::from_ymd_opt(dt.year, dt.month, dt.day)?
        .and_hms_nano_opt(dt.hour, dt.minute, dt.second, dt.nanosecond)?;
    Some(n.and_utc().timestamp())
}

/// Relies on chrono's `NaiveDateTime::checked_add_signed`: the date-time `ms`
/// milliseconds later, or `None` when it falls outside chrono's supported years.
#[verifier::external_body]
pub(crate) fn add_milliseconds(dt: &CivilDateTime, ms: i64) -> (r: Option<CivilDateTime>)
    requires
        dt.wf(),
        ms > i64::MIN,
    ensures
        r is Some <==> instant_in_range(dt.instant() + ms * 1_000_000),
        r matches Some(d) ==> d.wf() && d.instant() == dt.instant() + ms * 1_000_000,
{
    let n = chrono::NaiveDate::from_ymd_opt(dt.year, dt.month, dt.day)?
        .and_hms_nano_opt(dt.hour, dt.minute, dt.second, dt.nanosecond)?
        .checked_add_signed(chrono::TimeDelta::try_milliseconds(ms)?)?;
    Some(CivilDateTime {
        year: n.year(),
        month: n.month(),
        day: n.day(),
        hour: n.hour(),
        minute: n.minute(),
        second: n.second(),
        nanosecond: n.nanosecond(),
    })
}

/// Relies on chrono's `Datelike::with_year` for `NaiveDateTime`: the same
/// date-time in another year, or `None` when that date does not exist there or
/// the year is not supported.
#[verifier::external_body]
pub(crate) fn with_year(dt: &CivilDateTime, year: i32) -> (r: Option<CivilDateTime>)
    requires
        dt.wf(),
    ensures
        r == (if MIN_YEAR <= year <= MAX_YEAR && dt.day <= month_length(year as int, dt.month as int) {
            Some(CivilDateTime { year, ..*dt })
        } else {
            None
        }),
{
    let n = chrono::NaiveDate::from_ymd_opt(dt.year, dt.month, dt.day)?
        .and_hms_nano_opt(dt.hour, dt.minute, dt.second, dt.nanosecond)?
        .with_year(year)?;
    Some(CivilDateTime { year: n.year(), ..*dt })
}

/// Relies on chrono's `Display` for `NaiveDateTime`: `YYYY-MM-DD HH:MM:SS`
/// followed by the nonzero fraction of the second.
#[verifier::external_body]
pub(crate) fn render(dt: &CivilDateTime) -> (r: Option<String>)
    requires
        dt.wf(),
    ensures
        r is Some,
        r matches Some(s) ==> s@ == rendered(*dt),
{
    let n = chrono::NaiveDate::from_ymd_opt(dt.year, dt.month, dt.day)?
        .and_hms_nano_opt(dt.hour, dt.minute, dt.second, dt.nanosecond)?;
    Some(n.to_string())
}

} // verus!
