//! Google Calendar time: seconds counted from one day before the Unix epoch,
//! with the days grouped into synthetic 32-day months.
use crate::backend::add_milliseconds;
use crate::civil::{lemma_civil_at_unique, shifted, trunc_div, trunc_rem, CivilDateTime};
use crate::months::{nanos_per_day, plus_months, plus_months_spec};
use vstd::prelude::*;

verus! {

/// Midnight of 1969-12-31, where Google Calendar time starts counting.
pub open spec fn google_anchor() -> CivilDateTime {
    CivilDateTime {
        year: 1969,
        month: 12,
        day: 31,
        hour: 0,
        minute: 0,
        second: 0,
        nanosecond: 0,
    }
}

/// The date-time that `num` Google Calendar seconds stand for: the whole days
/// of `num` (rounded toward zero) split into 32-day months and remaining days;
/// the days are added to the anchor, then the months as calendar months, then
/// the remaining seconds.
pub open spec fn google_calendar_spec(num: int) -> Option<CivilDateTime> {
    let total_days = trunc_div(num, 86400);
    let seconds = trunc_rem(num, 86400);
    let months = trunc_div(total_days, 32);
    let days = trunc_rem(total_days, 32);
    match shifted(google_anchor(), days * nanos_per_day()) {
        Some(start) => match plus_months_spec(start, months) {
            Some(moved) => shifted(moved, seconds * 1_000_000_000),
            None => None,
        },
        None => None,
    }
}

/// The encoding of a date-time as Google Calendar seconds: its fields read as
/// the digits of a mixed-radix number (months of 32 days, years of 12 months,
/// years counted from 1970).
pub open spec fn google_calendar_seconds(dt: CivilDateTime) -> int {
    (((((dt.year - 1970) * 12 + (dt.month - 1)) * 32 + dt.day) * 24 + dt.hour) * 60 + dt.minute) * 60
        + dt.second
}

/// Converts Google Calendar seconds into a civil date-time.
pub fn google_calendar(num: i64) -> (r: Option<CivilDateTime>)
    ensures
        r == google_calendar_spec(num as int),
{
    let seconds_per_day: i64 = 86_400;
    let total_days = num / seconds_per_day;
    let seconds = num % seconds_per_day;
    let months = total_days / 32;
    let days = total_days % 32;
    let anchor = CivilDateTime {
        year: 1969,
        month: 12,
        day: 31,
        hour: 0,
        minute: 0,
        second: 0,
        nanosecond: 0,
    };
    let start = match add_milliseconds(&anchor, days * 86_400_000) {
        Some(a) => a,
        None => return None,
    };
    proof {
        lemma_civil_at_unique(start);
    }
    let moved = match plus_months(start, months) {
        Some(b) => b,
        None => return None,
    };
    let r = add_milliseconds(&moved, seconds * 1000);
    proof {
        if let Some(d) = r {
            lemma_civil_at_unique(d);
        }
    }
    r
}

/// Converts a civil date-time into Google Calendar seconds.
pub fn to_google_calendar(ndt: CivilDateTime) -> (r: i64)
    requires
        ndt.wf(),
    ensures
        r == google_calendar_seconds(ndt),
{
    ((((((ndt.year as i64 - 1970) * 12 + (ndt.month as i64 - 1)) * 32 + ndt.day as i64) * 24
        + ndt.hour as i64) * 60 + ndt.minute as i64) * 60) + ndt.second as i64
}

} // verus!
