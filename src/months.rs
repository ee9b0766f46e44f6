//! Calendar arithmetic: the length of a month, and moving a date-time
//! forward or back by whole calendar months.
use crate::backend::{add_milliseconds, with_year};
use crate::civil::{
    lemma_civil_at_unique, lemma_instant_injective, lemma_next_month,
    lemma_wf_in_range, month_length, shifted, trunc_div, trunc_rem, CivilDateTime,
    MAX_YEAR, MIN_YEAR,
};
use vstd::prelude::*;

verus! {

/// Nanoseconds in one day.
pub open spec fn nanos_per_day() -> int {
    86_400_000_000_000
}

/// Whether the first day of the month after `month` of `year` lies in a
/// supported year.
pub open spec fn next_month_supported(year: int, month: int) -> bool {
    if month == 12 {
        MIN_YEAR <= year + 1 <= MAX_YEAR
    } else {
        MIN_YEAR <= year <= MAX_YEAR
    }
}

/// The length of month `month` of `year`, where the first day of the month
/// that follows it lies in a supported year.
pub open spec fn days_in_month_spec(year: int, month: int) -> Option<i64> {
    if 1 <= month <= 12 && next_month_supported(year, month) {
        Some(month_length(year, month) as i64)
    } else {
        None
    }
}

/// The length of the month before month `m` of year `y`.
pub open spec fn previous_month_length(y: int, m: int) -> int {
    if m == 1 {
        31
    } else {
        month_length(y, m - 1)
    }
}

/// One calendar-month step: forward, `dt` moved on by as many days as its month
/// has; back, `dt` moved back by as many days as the month before it has.
pub open spec fn month_step(dt: CivilDateTime, forward: bool) -> Option<CivilDateTime> {
    if forward {
        shifted(dt, month_length(dt.year as int, dt.month as int) * nanos_per_day())
    } else {
        shifted(dt, -previous_month_length(dt.year as int, dt.month as int) * nanos_per_day())
    }
}

/// `k` calendar-month steps in a row in one direction, failing as soon as one
/// leaves the supported range.
#[verifier::opaque]
pub open spec fn months_stepped(dt: CivilDateTime, k: nat, forward: bool) -> Option<CivilDateTime>
    decreases k,
{
    if k == 0 {
        Some(dt)
    } else {
        match month_step(dt, forward) {
            Some(next) => months_stepped(next, (k - 1) as nat, forward),
            None => None,
        }
    }
}

/// `dt` moved by `n` months: the whole years of `n` (rounded toward zero)
/// change the year field, then each remaining month is one calendar-month
/// step, forward when `n` is positive and back when it is negative.
pub open spec fn plus_months_spec(dt: CivilDateTime, n: int) -> Option<CivilDateTime> {
    let year = dt.year + trunc_div(n, 12);
    let rest = trunc_rem(n, 12);
    if MIN_YEAR <= year <= MAX_YEAR && dt.day <= month_length(year, dt.month as int) {
        months_stepped(
            CivilDateTime { year: year as i32, ..dt },
            if rest >= 0 { rest as nat } else { (-rest) as nat },
            rest >= 0,
        )
    } else {
        None
    }
}

/// The number of days in `month` of `year`, found as the day of the month of
/// the day before the first of the following month. `None` for a month outside
/// 1 to 12, or where that following month lies outside the supported years.
pub fn ndays_in_month(year: i32, month: u32) -> (r: Option<i64>)
    ensures
        r == days_in_month_spec(year as int, month as int),
{
    if month < 1 || month > 12 {
        return None;
    }
    let (next_year, next_month): (i32, u32) = if month == 12 {
        if year < MIN_YEAR - 1 || year > MAX_YEAR - 1 {
            return None;
        }
        (year + 1, 1)
    } else {
        if year < MIN_YEAR || year > MAX_YEAR {
            return None;
        }
        (year, month + 1)
    };
    if year < MIN_YEAR {
        // The following month starts on the first supported day, so the day
        // before it cannot be represented; it is the 31st of December.
        return Some(31);
    }
    let first = CivilDateTime {
        year: next_year,
        month: next_month,
        day: 1,
        hour: 0,
        minute: 0,
        second: 0,
        nanosecond: 0,
    };
    let before = add_milliseconds(&first, -86_400_000);
    proof {
        let last = CivilDateTime {
            year,
            month,
            day: month_length(year as int, month as int) as u32,
            hour: 0,
            minute: 0,
            second: 0,
            nanosecond: 0,
        };
        lemma_next_month(year as int, month as int);
        assert(last.instant() == first.instant() - nanos_per_day());
        lemma_wf_in_range(last);
        let d = before->0;
        lemma_instant_injective(d, last);
    }
    match before {
        Some(d) => Some(d.day as i64),
        None => None,
    }
}

proof fn lemma_months_stepped_unfold(dt: CivilDateTime, k: nat, forward: bool)
    requires
        k > 0,
    ensures
        months_stepped(dt, k, forward) == match month_step(dt, forward) {
            Some(next) => months_stepped(next, (k - 1) as nat, forward),
            None => None,
        },
{
    reveal(months_stepped);
}

proof fn lemma_months_stepped_zero(dt: CivilDateTime, forward: bool)
    ensures
        months_stepped(dt, 0, forward) == Some(dt),
{
    reveal(months_stepped);
}

/// `ndt` moved forward by the number of days in its own month.
pub fn plus_month(ndt: CivilDateTime) -> (r: Option<CivilDateTime>)
    requires
        ndt.wf(),
    ensures
        r == month_step(ndt, true),
        r matches Some(d) ==> d.wf(),
{
    let days = match ndays_in_month(ndt.year, ndt.month) {
        Some(n) => n,
        None => {
            proof {
                let delta = 31 * nanos_per_day();
                assert((ndt.instant() + delta) / 1_000_000_000 == ndt.unix_seconds() + 31 * 86400);
            }
            return None;
        },
    };
    let r = add_milliseconds(&ndt, days * 86_400_000);
    proof {
        if let Some(d) = r {
            lemma_civil_at_unique(d);
        }
    }
    r
}

/// `ndt` moved back by the number of days in the month before its own.
pub fn minus_month(ndt: CivilDateTime) -> (r: Option<CivilDateTime>)
    requires
        ndt.wf(),
    ensures
        r == month_step(ndt, false),
        r matches Some(d) ==> d.wf(),
{
    let (year, month): (i32, u32) = if ndt.month == 1 {
        (ndt.year - 1, 12)
    } else {
        (ndt.year, ndt.month - 1)
    };
    let days = match ndays_in_month(year, month) {
        Some(n) => n,
        None => return None,
    };
    let r = add_milliseconds(&ndt, -(days * 86_400_000));
    proof {
        if let Some(d) = r {
            lemma_civil_at_unique(d);
        }
    }
    r
}

/// `ndt` moved by `months` calendar months: first the whole years, then the
/// remaining months one at a time. A step forward adds the length of the month
/// it starts in; a step back, for a negative count, subtracts the length of the
/// month before.
pub fn plus_months(ndt: CivilDateTime, months: i64) -> (r: Option<CivilDateTime>)
    requires
        ndt.wf(),
    ensures
        r == plus_months_spec(ndt, months as int),
        r matches Some(d) ==> d.wf(),
{
    let years = months / 12;
    let rest = months % 12;
    let year = ndt.year as i64 + years;
    if year < MIN_YEAR as i64 || year > MAX_YEAR as i64 {
        return None;
    }
    let start = match with_year(&ndt, year as i32) {
        Some(s) => s,
        None => return None,
    };
    let forward = rest >= 0;
    let count: i64 = if forward { rest } else { -rest };
    assert(years == trunc_div(months as int, 12));
    assert(rest == trunc_rem(months as int, 12));
    assert(plus_months_spec(ndt, months as int) == months_stepped(start, count as nat, forward));
    let mut cur = start;
    let mut i: i64 = 0;
    while i < count
        invariant
            0 <= i <= count,
            cur.wf(),
            months_stepped(cur, (count - i) as nat, forward) == months_stepped(
                start,
                count as nat,
                forward,
            ),
            plus_months_spec(ndt, months as int) == months_stepped(start, count as nat, forward),
        decreases count - i,
    {
        proof {
            lemma_months_stepped_unfold(cur, (count - i) as nat, forward);
        }
        let next = if forward {
            plus_month(cur)
        } else {
            minus_month(cur)
        };
        match next {
            Some(n) => cur = n,
            None => return None,
        }
        i = i + 1;
    }
    proof {
        lemma_months_stepped_zero(cur, forward);
    }
    Some(cur)
}

/// February has 29 days exactly in the years divisible by 4 but not by 100,
/// and in those divisible by 400; in every other supported year it has 28.
pub proof fn lemma_february_length(y: int)
    requires
        MIN_YEAR <= y <= MAX_YEAR,
    ensures
        days_in_month_spec(y, 2) == Some(
            if y % 4 == 0 && (y % 100 != 0 || y % 400 == 0) { 29i64 } else { 28i64 },
        ),
{
}

/// Adding twelve months gives what adding none gives, one year later: same
/// month, day and time of day, provided that day exists in the later year.
pub proof fn lemma_twelve_months_is_one_year(dt: CivilDateTime)
    requires
        dt.wf(),
        dt.year + 1 <= MAX_YEAR,
        dt.day <= month_length(dt.year + 1, dt.month as int),
    ensures
        plus_months_spec(dt, 0) == Some(dt),
        plus_months_spec(dt, 12) == Some(CivilDateTime { year: (dt.year + 1) as i32, ..dt }),
{
    assert(CivilDateTime { year: dt.year, ..dt } == dt);
    lemma_months_stepped_zero(dt, true);
    lemma_months_stepped_zero(CivilDateTime { year: (dt.year + 1) as i32, ..dt }, true);
}

} // verus!
