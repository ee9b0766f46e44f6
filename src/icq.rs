//! ICQ time: days, with a fraction, since 1899-12-30. The library takes the
//! day count already split into whole days and whole milliseconds, and gives
//! back whole milliseconds.
use crate::backend::{add_milliseconds, unix_seconds_of};
use crate::civil::{lemma_civil_at_unique, lemma_wf_in_range, shifted, trunc_div, CivilDateTime};
use crate::months::nanos_per_day;
use vstd::prelude::*;

verus! {

/// The largest whole-day count whose length in milliseconds fits an `i64`
/// (`i64::MAX / MILLIS_PER_DAY`).
pub const MAX_DAYS: i64 = 106_751_991_167;

/// Milliseconds in one day.
pub const MILLIS_PER_DAY: i64 = 24 * 60 * 60 * 1000;

/// Midnight of 1899-12-30, where ICQ time starts counting.
pub open spec fn icq_anchor() -> CivilDateTime {
    CivilDateTime {
        year: 1899,
        month: 12,
        day: 30,
        hour: 0,
        minute: 0,
        second: 0,
        nanosecond: 0,
    }
}

/// The date-time `whole_days` days and then `millis` milliseconds after the
/// anchor; `None` when the day count exceeds `MAX_DAYS` in magnitude or either
/// step leaves the supported years.
pub open spec fn icq_spec(whole_days: int, millis: int) -> Option<CivilDateTime> {
    if whole_days > MAX_DAYS || whole_days < -MAX_DAYS {
        None
    } else {
        match shifted(icq_anchor(), whole_days * nanos_per_day()) {
            Some(day) => shifted(day, millis * 1_000_000),
            None => None,
        }
    }
}

/// Whole milliseconds from the anchor to `dt`, rounded toward zero.
pub open spec fn icq_millis_spec(dt: CivilDateTime) -> int {
    trunc_div(dt.instant() - icq_anchor().instant(), 1_000_000)
}

/// The date-time `whole_days` days and `millis` milliseconds after 1899-12-30.
/// A day count beyond `MAX_DAYS` either way is refused before any arithmetic.
pub fn icq_from_parts(whole_days: i64, millis: i64) -> (r: Option<CivilDateTime>)
    ensures
        r == icq_spec(whole_days as int, millis as int),
{
    if whole_days > MAX_DAYS || whole_days < -MAX_DAYS {
        return None;
    }
    let anchor = CivilDateTime {
        year: 1899,
        month: 12,
        day: 30,
        hour: 0,
        minute: 0,
        second: 0,
        nanosecond: 0,
    };
    assert(-i64::MAX <= whole_days * MILLIS_PER_DAY <= i64::MAX) by (nonlinear_arith)
        requires
            -MAX_DAYS <= whole_days <= MAX_DAYS,
            MAX_DAYS == 106_751_991_167i64,
            MILLIS_PER_DAY == 86_400_000i64,
    ;
    let day = match add_milliseconds(&anchor, whole_days * MILLIS_PER_DAY) {
        Some(d) => d,
        None => return None,
    };
    proof {
        lemma_civil_at_unique(day);
        lemma_wf_in_range(day);
    }
    if millis == i64::MIN {
        assert((day.instant() + millis * 1_000_000) / 1_000_000_000 < day.instant() / 1_000_000_000
            - 9_000_000_000_000_000);
        return None;
    }
    let r = add_milliseconds(&day, millis);
    proof {
        if let Some(d) = r {
            lemma_civil_at_unique(d);
        }
    }
    r
}

/// Whole milliseconds from 1899-12-30 to `ndt`, rounded toward zero.
pub fn icq_milliseconds(ndt: CivilDateTime) -> (r: i64)
    requires
        ndt.wf(),
    ensures
        r == icq_millis_spec(ndt),
{
    let anchor = CivilDateTime {
        year: 1899,
        month: 12,
        day: 30,
        hour: 0,
        minute: 0,
        second: 0,
        nanosecond: 0,
    };
    let (t, t0) = match (unix_seconds_of(&ndt), unix_seconds_of(&anchor)) {
        (Some(t), Some(t0)) => (t, t0),
        _ => return 0,
    };
    proof {
        lemma_wf_in_range(ndt);
    }
    let nanos: i128 = (t as i128 - t0 as i128) * 1_000_000_000 + ndt.nanosecond as i128;
    (nanos / 1_000_000) as i64
}

} // verus!
