//! The uniform formats: a signed count of ticks (a fixed fraction of a second)
//! since a reference instant that lies a whole number of seconds away from
//! the Unix epoch.
use crate::backend::{from_unix_seconds, unix_seconds_of};
use crate::civil::{
    civil_at_instant, instant_in_range, lemma_civil_at_exists, lemma_civil_at_unique,
    lemma_trunc_rem, lemma_wf_in_range, trunc_div, trunc_rem, CivilDateTime,
};
use vstd::arithmetic::div_mod::{lemma_fundamental_div_mod, lemma_fundamental_div_mod_converse};
use vstd::prelude::*;

verus! {

/// A supported tick resolution: a positive divisor of one billion ticks per second.
pub open spec fn valid_divisor(d: int) -> bool {
    0 < d <= 1_000_000_000 && 1_000_000_000int % d == 0
}

/// A supported resolution divides one billion into a whole number of nanoseconds per tick.
pub proof fn lemma_divisor_unit(d: int)
    requires
        valid_divisor(d),
    ensures
        d * (1_000_000_000int / d) == 1_000_000_000,
        1 <= 1_000_000_000int / d <= 1_000_000_000,
{
    lemma_fundamental_div_mod(1_000_000_000, d);
    let u = 1_000_000_000int / d;
    assert(1 <= u <= 1_000_000_000) by (nonlinear_arith)
        requires
            d * u == 1_000_000_000,
            0 < d <= 1_000_000_000,
    ;
}

/// Nanoseconds since the Unix epoch that `x` ticks of `d` per second stand
/// for, counted from `s` seconds after the epoch: the quotient `x / d` (rounded
/// toward zero) gives whole seconds and the remainder, which has the sign of
/// `x`, gives the fraction.
pub open spec fn ticks_instant(x: int, d: int, s: int) -> int {
    (trunc_div(x, d) + s) * 1_000_000_000 + trunc_rem(x, d) * (1_000_000_000int / d)
}

/// The date-time that `x` ticks of `d` per second stand for, counted from `s`
/// seconds after the Unix epoch; `None` when it lies outside the supported years.
pub open spec fn ticks_to_datetime(x: int, d: int, s: int) -> Option<CivilDateTime> {
    if instant_in_range(ticks_instant(x, d, s)) {
        Some(civil_at_instant(ticks_instant(x, d, s)))
    } else {
        None
    }
}

/// `v`, or the nearest end of the `i64` range when it lies outside it.
pub open spec fn saturate_i64(v: int) -> i64 {
    if v > i64::MAX {
        i64::MAX
    } else if v < i64::MIN {
        i64::MIN
    } else {
        v as i64
    }
}

/// The ticks of `d` per second, with offset `s`, that stand for `dt`: rounded
/// toward zero, and saturated at the ends of the `i64` range.
pub open spec fn datetime_to_ticks(dt: CivilDateTime, d: int, s: int) -> i64 {
    let total_nanos = (dt.unix_seconds() - s) * 1_000_000_000 + dt.nanosecond;
    saturate_i64(trunc_div(total_nanos, 1_000_000_000int / d))
}

/// Converts `x` ticks of `d` per second, counted from `s` seconds after the
/// Unix epoch, into a civil date-time.
pub fn epoch2time(x: i64, d: i64, s: i64) -> (r: Option<CivilDateTime>)
    requires
        valid_divisor(d as int),
    ensures
        r == ticks_to_datetime(x as int, d as int, s as int),
{
    let q = x / d;
    let rem = x % d;
    proof {
        lemma_trunc_rem(x as int, d as int);
        lemma_divisor_unit(d as int);
    }
    assert(q == trunc_div(x as int, d as int));
    assert(rem == trunc_rem(x as int, d as int));
    let unit = 1_000_000_000 / d;
    assert(-1_000_000_000 < rem * unit < 1_000_000_000 && (rem < 0 ==> rem * unit < 0) && (rem
        >= 0 ==> rem * unit >= 0)) by (nonlinear_arith)
        requires
            -d < rem < d,
            unit == 1_000_000_000i64 / d,
            d * unit == 1_000_000_000,
            d > 0,
    ;
    let whole = match q.checked_add(s) {
        Some(t) => t,
        None => return None,
    };
    // A negative fraction borrows one second from the whole seconds.
    let (t, nanos) = if rem < 0 {
        match whole.checked_sub(1) {
            Some(t) => (t, (rem * unit + 1_000_000_000) as u32),
            None => return None,
        }
    } else {
        (whole, (rem * unit) as u32)
    };
    assert(t * 1_000_000_000 + nanos == ticks_instant(x as int, d as int, s as int));
    proof {
        lemma_fundamental_div_mod_converse(
            ticks_instant(x as int, d as int, s as int),
            1_000_000_000,
            t as int,
            nanos as int,
        );
    }
    let res = from_unix_seconds(t, nanos);
    proof {
        if let Some(dt) = res {
            lemma_civil_at_unique(dt);
        }
    }
    res
}

/// Converts a civil date-time into ticks of `m` per second counted from `s`
/// seconds after the Unix epoch. The result is rounded toward zero and
/// saturates at the ends of the `i64` range. The arithmetic is exact integer
/// arithmetic: where a computation through `f64` would truncate a rounded
/// product (tick counts beyond 2^53), this gives the exact count instead, so
/// such results differ from a floating-point conversion's.
pub fn time2epoch(ndt: CivilDateTime, m: i64, s: i64) -> (r: i64)
    requires
        ndt.wf(),
        valid_divisor(m as int),
    ensures
        r == datetime_to_ticks(ndt, m as int, s as int),
{
    let t = match unix_seconds_of(&ndt) {
        Some(t) => t,
        None => return 0,
    };
    proof {
        lemma_divisor_unit(m as int);
        lemma_wf_in_range(ndt);
    }
    let total: i128 = (t as i128 - s as i128) * 1_000_000_000 + ndt.nanosecond as i128;
    let unit: i128 = (1_000_000_000 / m) as i128;
    let ticks = total / unit;
    assert(ticks == trunc_div(total as int, unit as int));
    if ticks > i64::MAX as i128 {
        i64::MAX
    } else if ticks < i64::MIN as i128 {
        i64::MIN
    } else {
        ticks as i64
    }
}

/// A conversion that succeeds gives the valid date-time at exactly the instant
/// that the ticks stand for; where that instant lies outside the supported
/// years, the conversion fails.
pub proof fn lemma_ticks_to_datetime_exact(x: int, d: int, s: int)
    requires
        valid_divisor(d),
    ensures
        ticks_to_datetime(x, d, s) is None <==> !instant_in_range(ticks_instant(x, d, s)),
        ticks_to_datetime(x, d, s) matches Some(dt) ==> dt.wf() && dt.instant() == ticks_instant(
            x,
            d,
            s,
        ),
{
    let i = ticks_instant(x, d, s);
    if instant_in_range(i) {
        lemma_civil_at_exists(i / 1_000_000_000, i % 1_000_000_000);
    }
}

/// Converting ticks to a civil date-time and back gives the same ticks, for
/// every tick count whose conversion succeeds.
pub proof fn lemma_ticks_round_trip(x: i64, d: int, s: int)
    requires
        valid_divisor(d),
        ticks_to_datetime(x as int, d, s) is Some,
    ensures
        datetime_to_ticks(ticks_to_datetime(x as int, d, s)->0, d, s) == x,
{
    lemma_ticks_to_datetime_exact(x as int, d, s);
    lemma_divisor_unit(d);
    lemma_trunc_rem(x as int, d);
    let dt = ticks_to_datetime(x as int, d, s)->0;
    let q = trunc_div(x as int, d);
    let r = trunc_rem(x as int, d);
    let unit = 1_000_000_000int / d;
    let total = (dt.unix_seconds() - s) * 1_000_000_000 + dt.nanosecond;
    assert(total == x * unit) by (nonlinear_arith)
        requires
            total == q * 1_000_000_000 + r * unit,
            d * unit == 1_000_000_000,
            r == x - d * q,
    ;
    assert(trunc_div(x * unit, unit) == x) by (nonlinear_arith)
        requires
            unit > 0,
    {
        if x >= 0 {
            assert((x * unit) / unit == x);
        } else {
            assert((-(x * unit)) / unit == -x);
        }
    }
}

} // verus!
