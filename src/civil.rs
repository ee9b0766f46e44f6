//! The civil date-time model: a proleptic-Gregorian calendar date and a
//! time of day with nanosecond resolution, no time zone.
use crate::backend::{render, rendered};
use crate::months::ndays_in_month;
use vstd::arithmetic::div_mod::{lemma_fundamental_div_mod, lemma_fundamental_div_mod_converse};
use vstd::prelude::*;

verus! {

/// The earliest year a civil date-time may hold (chrono's lower bound).
pub const MIN_YEAR: i32 = -262143;

/// The latest year a civil date-time may hold (chrono's upper bound).
pub const MAX_YEAR: i32 = 262142;

/// Nanoseconds in one second.
pub const NANOS_PER_SECOND: u32 = 1_000_000_000;

/// A naive civil date-time: no time zone, no leap seconds.
#[derive(Clone, Copy, Debug, PartialEq, Eq, Structural)]
pub struct CivilDateTime {
    pub year: i32,
    pub month: u32,
    pub day: u32,
    pub hour: u32,
    pub minute: u32,
    pub second: u32,
    pub nanosecond: u32,
}

/// The Gregorian leap-year rule.
pub open spec fn is_leap_year(y: int) -> bool {
    y % 4 == 0 && (y % 100 != 0 || y % 400 == 0)
}

/// Number of days in month `m` (1 to 12) of year `y`.
pub open spec fn month_length(y: int, m: int) -> int {
    if m == 2 {
        if is_leap_year(y) { 29 } else { 28 }
    } else if m == 4 || m == 6 || m == 9 || m == 11 {
        30
    } else {
        31
    }
}

/// Leap years among the years `1 ..= y - 1` (a signed count for `y < 1`).
pub open spec fn leap_years_before(y: int) -> int {
    (y - 1) / 4 - (y - 1) / 100 + (y - 1) / 400
}

/// Days from 1970-01-01 to the first of January of year `y`.
pub open spec fn days_before_year(y: int) -> int {
    365 * (y - 1970) + leap_years_before(y) - leap_years_before(1970)
}

/// Days from the first of January to the first of month `m` (1 to 12) of year `y`.
pub open spec fn days_before_month(y: int, m: int) -> int {
    let common: int = if m == 1 {
        0
    } else if m == 2 {
        31
    } else if m == 3 {
        59
    } else if m == 4 {
        90
    } else if m == 5 {
        120
    } else if m == 6 {
        151
    } else if m == 7 {
        181
    } else if m == 8 {
        212
    } else if m == 9 {
        243
    } else if m == 10 {
        273
    } else if m == 11 {
        304
    } else {
        334
    };
    if m > 2 && is_leap_year(y) {
        common + 1
    } else {
        common
    }
}

/// Days from 1970-01-01 to the date `y-m-d` (negative before it).
pub open spec fn day_number(y: int, m: int, d: int) -> int {
    days_before_year(y) + days_before_month(y, m) + d - 1
}

/// Whole seconds since 1970-01-01 00:00:00 of the earliest supported instant.
pub open spec fn min_unix_seconds() -> int {
    day_number(MIN_YEAR as int, 1, 1) * 86400
}

/// Whole seconds since 1970-01-01 00:00:00 of the latest supported second.
pub open spec fn max_unix_seconds() -> int {
    day_number(MAX_YEAR as int, 12, 31) * 86400 + 86399
}

/// Whether a count of seconds since the Unix epoch names a supported second.
pub open spec fn seconds_in_range(secs: int) -> bool {
    min_unix_seconds() <= secs <= max_unix_seconds()
}

/// Whether a count of nanoseconds since the Unix epoch names a supported instant.
pub open spec fn instant_in_range(i: int) -> bool {
    seconds_in_range(i / 1_000_000_000)
}

impl CivilDateTime {
    /// Every field lies in its calendar range and the year is supported.
    pub open spec fn wf(self) -> bool {
        &&& MIN_YEAR <= self.year <= MAX_YEAR
        &&& 1 <= self.month <= 12
        &&& 1 <= self.day <= month_length(self.year as int, self.month as int)
        &&& self.hour < 24
        &&& self.minute < 60
        &&& self.second < 60
        &&& self.nanosecond < 1_000_000_000
    }

    /// Seconds of the day elapsed at this time of day.
    pub open spec fn second_of_day(self) -> int {
        self.hour * 3600 + self.minute * 60 + self.second
    }

    /// Whole (non-leap) seconds since 1970-01-01 00:00:00.
    pub open spec fn unix_seconds(self) -> int {
        day_number(self.year as int, self.month as int, self.day as int) * 86400
            + self.second_of_day()
    }

    /// Nanoseconds since 1970-01-01 00:00:00.
    pub open spec fn instant(self) -> int {
        self.unix_seconds() * 1_000_000_000 + self.nanosecond
    }
}

/// Integer division rounding toward zero, as Rust's `/` does (for `b > 0`).
pub open spec fn trunc_div(a: int, b: int) -> int {
    if a >= 0 {
        a / b
    } else {
        -((-a) / b)
    }
}

/// The remainder that goes with `trunc_div`, as Rust's `%` does: it has the sign of `a`.
pub open spec fn trunc_rem(a: int, b: int) -> int {
    a - b * trunc_div(a, b)
}

/// The civil date-time at `secs` seconds and `nanos` nanoseconds past the Unix epoch.
pub open spec fn civil_at(secs: int, nanos: int) -> CivilDateTime {
    choose|d: CivilDateTime| d.wf() && d.unix_seconds() == secs && d.nanosecond == nanos
}

/// The civil date-time at `i` nanoseconds past the Unix epoch.
pub open spec fn civil_at_instant(i: int) -> CivilDateTime {
    civil_at(i / 1_000_000_000, i % 1_000_000_000)
}

/// The civil date-time `delta` nanoseconds after `dt`, if that is supported.
pub open spec fn shifted(dt: CivilDateTime, delta: int) -> Option<CivilDateTime> {
    if instant_in_range(dt.instant() + delta) {
        Some(civil_at_instant(dt.instant() + delta))
    } else {
        None
    }
}

proof fn lemma_floor_step(y: int, k: int)
    requires
        k > 0,
    ensures
        y / k - (y - 1) / k == if y % k == 0 { 1int } else { 0 },
{
    lemma_fundamental_div_mod(y, k);
    lemma_mod_pos_bound_int(y, k);
    let q = y / k;
    assert((q - 1) * k == k * q - k && q * k == k * q) by (nonlinear_arith);
    if y % k == 0 {
        lemma_fundamental_div_mod_converse(y - 1, k, y / k - 1, k - 1);
    } else {
        lemma_fundamental_div_mod_converse(y - 1, k, y / k, y % k - 1);
    }
}

proof fn lemma_mod_pos_bound_int(y: int, k: int)
    requires
        k > 0,
    ensures
        0 <= y % k < k,
{
}

/// Each year is 365 days long, or 366 in a leap year.
pub proof fn lemma_year_length(y: int)
    ensures
        days_before_year(y + 1) == days_before_year(y) + 365 + if is_leap_year(y) { 1int } else { 0 },
{
    lemma_floor_step(y, 4);
    lemma_floor_step(y, 100);
    lemma_floor_step(y, 400);
    lemma_fundamental_div_mod(y, 400);
    if y % 400 == 0 {
        lemma_fundamental_div_mod_converse(y, 100, 4 * (y / 400), 0);
        lemma_fundamental_div_mod_converse(y, 4, 100 * (y / 400), 0);
    }
    if y % 100 == 0 {
        lemma_fundamental_div_mod(y, 100);
        lemma_fundamental_div_mod_converse(y, 4, 25 * (y / 100), 0);
    }
}

/// Consecutive months follow each other without gaps.
pub proof fn lemma_next_month(y: int, m: int)
    requires
        1 <= m <= 12,
    ensures
        m < 12 ==> day_number(y, m + 1, 1) == day_number(y, m, month_length(y, m)) + 1,
        m == 12 ==> day_number(y + 1, 1, 1) == day_number(y, m, month_length(y, m)) + 1,
{
    lemma_year_length(y);
}

proof fn lemma_years_ordered(a: int, b: int)
    requires
        a <= b,
    ensures
        days_before_year(a) + (b - a) * 365 <= days_before_year(b),
    decreases b - a,
{
    if a < b {
        lemma_years_ordered(a, b - 1);
        lemma_year_length(b - 1);
    }
}

/// Each valid date has its own day number.
pub proof fn lemma_day_number_injective(y1: int, m1: int, d1: int, y2: int, m2: int, d2: int)
    requires
        1 <= m1 <= 12,
        1 <= d1 <= month_length(y1, m1),
        1 <= m2 <= 12,
        1 <= d2 <= month_length(y2, m2),
        day_number(y1, m1, d1) == day_number(y2, m2, d2),
    ensures
        y1 == y2,
        m1 == m2,
        d1 == d2,
{
    lemma_year_length(y1);
    lemma_year_length(y2);
    if y1 < y2 {
        lemma_years_ordered(y1 + 1, y2);
    } else if y2 < y1 {
        lemma_years_ordered(y2 + 1, y1);
    }
}

/// Each valid civil date-time has its own instant.
pub proof fn lemma_instant_injective(a: CivilDateTime, b: CivilDateTime)
    requires
        a.wf(),
        b.wf(),
        a.instant() == b.instant(),
    ensures
        a == b,
{
    let da = day_number(a.year as int, a.month as int, a.day as int);
    let db = day_number(b.year as int, b.month as int, b.day as int);
    assert(a.unix_seconds() == b.unix_seconds());
    assert(da == db);
    lemma_day_number_injective(
        a.year as int,
        a.month as int,
        a.day as int,
        b.year as int,
        b.month as int,
        b.day as int,
    );
}

/// A valid civil date-time is the one `civil_at` names for its own instant.
pub proof fn lemma_civil_at_unique(d: CivilDateTime)
    requires
        d.wf(),
    ensures
        civil_at(d.unix_seconds(), d.nanosecond as int) == d,
        civil_at_instant(d.instant()) == d,
{
    let c = civil_at(d.unix_seconds(), d.nanosecond as int);
    assert(c.wf() && c.unix_seconds() == d.unix_seconds() && c.nanosecond == d.nanosecond);
    lemma_instant_injective(c, d);
    assert(d.instant() / 1_000_000_000 == d.unix_seconds());
    assert(d.instant() % 1_000_000_000 == d.nanosecond);
}

/// Every valid civil date-time lies within the supported range.
pub proof fn lemma_wf_in_range(d: CivilDateTime)
    requires
        d.wf(),
    ensures
        seconds_in_range(d.unix_seconds()),
        instant_in_range(d.instant()),
{
    let y = d.year as int;
    lemma_year_length(y);
    lemma_years_ordered(MIN_YEAR as int, y);
    lemma_year_length(MAX_YEAR as int);
    if y < MAX_YEAR {
        lemma_years_ordered(y + 1, MAX_YEAR as int);
    }
    assert(d.instant() / 1_000_000_000 == d.unix_seconds());
}

proof fn lemma_find_year_up(y: int, n: int) -> (r: int)
    requires
        days_before_year(y) <= n,
    ensures
        y <= r,
        days_before_year(r) <= n < days_before_year(r + 1),
    decreases n - days_before_year(y),
{
    lemma_year_length(y);
    if n < days_before_year(y + 1) {
        y
    } else {
        lemma_find_year_up(y + 1, n)
    }
}

proof fn lemma_find_year_down(y: int, n: int) -> (r: int)
    requires
        n < days_before_year(y + 1),
    ensures
        r <= y,
        days_before_year(r) <= n < days_before_year(r + 1),
    decreases days_before_year(y + 1) - n,
{
    lemma_year_length(y);
    if days_before_year(y) <= n {
        y
    } else {
        lemma_find_year_down(y - 1, n)
    }
}

/// The month in which day `k` (counted from 0) of year `y` falls.
spec fn month_of_day(y: int, k: int) -> int {
    if k < days_before_month(y, 2) {
        1
    } else if k < days_before_month(y, 3) {
        2
    } else if k < days_before_month(y, 4) {
        3
    } else if k < days_before_month(y, 5) {
        4
    } else if k < days_before_month(y, 6) {
        5
    } else if k < days_before_month(y, 7) {
        6
    } else if k < days_before_month(y, 8) {
        7
    } else if k < days_before_month(y, 9) {
        8
    } else if k < days_before_month(y, 10) {
        9
    } else if k < days_before_month(y, 11) {
        10
    } else if k < days_before_month(y, 12) {
        11
    } else {
        12
    }
}

/// Every supported second, with any nanosecond of it, has a valid civil date-time.
pub proof fn lemma_civil_at_exists(secs: int, nanos: int)
    requires
        seconds_in_range(secs),
        0 <= nanos < 1_000_000_000,
    ensures
        civil_at(secs, nanos).wf(),
        civil_at(secs, nanos).unix_seconds() == secs,
        civil_at(secs, nanos).nanosecond == nanos,
{
    let n = secs / 86400;
    let sod = secs % 86400;
    let y = if n >= 0 {
        lemma_find_year_up(1970, n)
    } else {
        lemma_find_year_down(1969, n)
    };
    lemma_year_length(y);
    if y < MIN_YEAR {
        lemma_years_ordered(y + 1, MIN_YEAR as int);
    }
    if y > MAX_YEAR {
        lemma_years_ordered(MAX_YEAR as int + 1, y);
        lemma_year_length(MAX_YEAR as int);
    }
    let k = n - days_before_year(y);
    let m = month_of_day(y, k);
    let d = k - days_before_month(y, m) + 1;
    let w = CivilDateTime {
        year: y as i32,
        month: m as u32,
        day: d as u32,
        hour: (sod / 3600) as u32,
        minute: (sod % 3600 / 60) as u32,
        second: (sod % 60) as u32,
        nanosecond: nanos as u32,
    };
    assert(w.wf());
    assert(w.unix_seconds() == secs);
}

/// Rust's remainder is the Euclidean one, negated for a negative dividend;
/// it has the sign of the dividend and a smaller magnitude than the divisor.
pub proof fn lemma_trunc_rem(a: int, b: int)
    requires
        b > 0,
    ensures
        trunc_rem(a, b) == if a >= 0 { a % b } else { -((-a) % b) },
        a >= 0 ==> 0 <= trunc_rem(a, b) < b,
        a < 0 ==> -b < trunc_rem(a, b) <= 0,
{
    lemma_fundamental_div_mod(a, b);
    lemma_fundamental_div_mod(-a, b);
    lemma_mod_pos_bound_int(a, b);
    lemma_mod_pos_bound_int(-a, b);
    assert(b * -((-a) / b) == -(b * ((-a) / b))) by (nonlinear_arith);
}

impl CivilDateTime {
    /// The civil date-time with these fields, or `None` when one of them lies
    /// outside its calendar range (the day checked against the month's length)
    /// or the year is not supported.
    pub fn new(
        year: i32,
        month: u32,
        day: u32,
        hour: u32,
        minute: u32,
        second: u32,
        nanosecond: u32,
    ) -> (r: Option<CivilDateTime>)
        ensures
            r == (if (CivilDateTime { year, month, day, hour, minute, second, nanosecond }).wf() {
                Some(CivilDateTime { year, month, day, hour, minute, second, nanosecond })
            } else {
                None
            }),
    {
        if year < MIN_YEAR || year > MAX_YEAR || month < 1 || month > 12 || day < 1 || hour >= 24
            || minute >= 60 || second >= 60 || nanosecond >= NANOS_PER_SECOND {
            return None;
        }
        // Only December of the last supported year has no following month to
        // measure against; it has 31 days like every December.
        let length = match ndays_in_month(year, month) {
            Some(n) => n,
            None => 31,
        };
        if day as i64 > length {
            return None;
        }
        Some(CivilDateTime { year, month, day, hour, minute, second, nanosecond })
    }

    /// The date-time as chrono writes it: `YYYY-MM-DD HH:MM:SS`, followed by the
    /// fraction of the second in 3, 6 or 9 digits when it is not zero.
    pub fn to_string(&self) -> (r: String)
        requires
            self.wf(),
        ensures
            r@ == rendered(*self),
    {
        match render(self) {
            Some(s) => s,
            None => String::new(),
        }
    }
}

} // verus!
