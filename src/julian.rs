//! Julian Dates as event time stamps. A Julian Date is held as a whole number of
//! microseconds since the start of the Julian period (noon of JD 0), so that
//! interval arithmetic on time stamps is exact.

use vstd::prelude::*;
use chrono::{Datelike, Timelike};
use crate::event::IndraEvent;

verus! {

/// Microseconds in a day.
pub const DAY_MICROS: i64 = 86_400_000_000;

/// Microseconds in an hour.
pub const HOUR_MICROS: i64 = 3_600_000_000;

/// Microseconds in a minute.
pub const MINUTE_MICROS: i64 = 60_000_000;

/// Microseconds in a second.
pub const SECOND_MICROS: i64 = 1_000_000;

/// The earliest year of the calendar range.
pub const MIN_YEAR: i32 = -262143;

/// The latest year of the calendar range.
pub const MAX_YEAR: i32 = 262142;

/// A UTC date and time in the proleptic Gregorian calendar, to the microsecond.
#[derive(Clone, Copy, Debug, PartialEq, Eq, Structural)]
pub struct UtcDateTime {
    pub year: i32,
    pub month: u32,
    pub day: u32,
    pub hour: u32,
    pub minute: u32,
    pub second: u32,
    pub microsecond: u32,
}

/// Leap years of the Gregorian calendar.
pub open spec fn is_leap_year(y: int) -> bool {
    (y % 4 == 0 && y % 100 != 0) || y % 400 == 0
}

/// Leap years of the Gregorian calendar (`gregorian`) or of the Julian calendar.
pub open spec fn is_leap_in(gregorian: bool, y: int) -> bool {
    if gregorian {
        is_leap_year(y)
    } else {
        y % 4 == 0
    }
}

/// The number of days of month `m` (1 to 12) in year `y` of either calendar.
pub open spec fn days_in_month_of(gregorian: bool, y: int, m: int) -> int {
    if m == 2 {
        if is_leap_in(gregorian, y) {
            29
        } else {
            28
        }
    } else if m == 4 || m == 6 || m == 9 || m == 11 {
        30
    } else {
        31
    }
}

/// The number of days of month `m` (1 to 12) in year `y`.
pub open spec fn days_in_month(y: int, m: int) -> int {
    days_in_month_of(true, y, m)
}

/// The Julian Day Number of a date in the Gregorian calendar (`gregorian`) or
/// in the Julian calendar; `/` is floor division here.
pub open spec fn day_number(gregorian: bool, y: int, m: int, d: int) -> int {
    let a = (14 - m) / 12;
    let yy = y + 4800 - a;
    let mm = m + 12 * a - 3;
    if gregorian {
        d + (153 * mm + 2) / 5 + 365 * yy + yy / 4 - yy / 100 + yy / 400 - 32045
    } else {
        d + (153 * mm + 2) / 5 + 365 * yy + yy / 4 - 32083
    }
}

/// The Julian Day Number of a Gregorian date.
pub open spec fn jdn(y: int, m: int, d: int) -> int {
    day_number(true, y, m, d)
}

impl UtcDateTime {
    /// A real calendar date in the supported range and a time of day.
    pub open spec fn wf(self) -> bool {
        &&& MIN_YEAR <= self.year <= MAX_YEAR
        &&& 1 <= self.month <= 12
        &&& 1 <= self.day <= days_in_month(self.year as int, self.month as int)
        &&& self.hour < 24
        &&& self.minute < 60
        &&& self.second < 60
        &&& self.microsecond < 1_000_000
    }

    /// Microseconds since midnight.
    pub open spec fn day_time_micros(self) -> int {
        self.hour * HOUR_MICROS + self.minute * MINUTE_MICROS + self.second * SECOND_MICROS
            + self.microsecond
    }
}

/// The Julian Date of a date and time, in microseconds: the day number, less half
/// a day (a Julian day starts at noon), plus the time of day.
pub open spec fn julian_micros(dt: UtcDateTime) -> int {
    jdn(dt.year as int, dt.month as int, dt.day as int) * DAY_MICROS - 12 * HOUR_MICROS
        + dt.day_time_micros()
}

/// Floor division by a positive divisor.
pub fn floor_div(a: i64, b: i64) -> (r: i64)
    requires
        b > 0,
    ensures
        r == a / b,
{
    if a >= 0 {
        a / b
    } else {
        let q = (-(a + 1)) / b;
        proof {
            let na: int = -(a + 1);
            let bi: int = b as int;
            assert(na >= 0);
            assert(q == na / bi);
            vstd::arithmetic::div_mod::lemma_fundamental_div_mod(na, bi);
            let rr = na % bi;
            assert(0 <= rr < bi);
            assert(a == (-q - 1) * bi + (bi - 1 - rr)) by (nonlinear_arith)
                requires
                    na == -(a + 1),
                    na == bi * q + rr,
            ;
            vstd::arithmetic::div_mod::lemma_fundamental_div_mod_converse_div(
                a as int,
                bi,
                -q - 1,
                bi - 1 - rr,
            );
        }
        -q - 1
    }
}

/// The Julian Day Number of the date part of `dt`.
fn date_day_number(dt: &UtcDateTime) -> (r: i64)
    requires
        dt.wf(),
    ensures
        r == jdn(dt.year as int, dt.month as int, dt.day as int),
        -95_000_000 < r < 98_000_000,
{
    let month = dt.month as i64;
    let a: i64 = if month <= 2 {
        1
    } else {
        0
    };
    assert(a == (14 - month) / 12);
    let y: i64 = dt.year as i64 + 4800 - a;
    let m: i64 = month + 12 * a - 3;
    let q4 = floor_div(y, 4);
    let q100 = floor_div(y, 100);
    let q400 = floor_div(y, 400);
    proof {
        vstd::arithmetic::div_mod::lemma_fundamental_div_mod(y as int, 4);
        vstd::arithmetic::div_mod::lemma_fundamental_div_mod(y as int, 100);
        vstd::arithmetic::div_mod::lemma_fundamental_div_mod(y as int, 400);
        vstd::arithmetic::div_mod::lemma_fundamental_div_mod(153 * m + 2, 5);
        assert(4 * q4 <= y < 4 * q4 + 4);
        assert(100 * q100 <= y < 100 * q100 + 100);
        assert(400 * q400 <= y < 400 * q400 + 400);
    }
    dt.day as i64 + (153 * m + 2) / 5 + 365 * y + q4 - q100 + q400 - 32045
}

/// Relies on `SystemTime::elapsed` of std, called on `UNIX_EPOCH`: the time
/// since the Unix epoch as whole seconds and the nanoseconds past the last
/// whole second, or `None` when the system clock is set before the epoch.
#[verifier::external_body]
pub(crate) fn clock_since_epoch() -> (r: Option<(u64, u32)>)
    ensures
        r matches Some((_, nanos)) ==> nanos < 1_000_000_000,
{
    std::time::UNIX_EPOCH.elapsed().ok().map(|d| (d.as_secs(), d.subsec_nanos()))
}

/// The Julian Date of the Unix epoch (1970-01-01 00:00 UTC), in microseconds.
pub const UNIX_EPOCH_JULIAN_MICROS: i64 = 210_866_760_000_000_000;

/// The last whole second of the calendar range, counted from the Unix epoch.
pub const MAX_UNIX_SECONDS: u64 = 8_210_266_876_799;

/// The Julian Date, in microseconds, of a time given as seconds and
/// nanoseconds since the Unix epoch (the nanoseconds truncated to whole
/// microseconds).
pub open spec fn unix_julian_micros(secs: int, nanos: int) -> int {
    UNIX_EPOCH_JULIAN_MICROS + secs * SECOND_MICROS + nanos / 1000
}

/// Relies on chrono's `DateTime::<Utc>::from_timestamp`, which reads `secs` as
/// non-leap seconds since 1970-01-01 00:00:00 UTC in the proleptic Gregorian
/// calendar, and on the calendar fields of the date it returns. It returns
/// `None` only outside chrono's year range; with fewer than 1,000,000,000
/// nanoseconds there is no leap second.
#[verifier::external_body]
fn calendar_of_timestamp(secs: i64, nanos: u32) -> (r: Option<UtcDateTime>)
    requires
        nanos < 1_000_000_000,
    ensures
        r matches Some(dt) ==> dt.wf() && julian_micros(dt) == unix_julian_micros(
            secs as int,
            nanos as int,
        ),
        0 <= secs <= MAX_UNIX_SECONDS ==> r is Some,
{
    chrono::DateTime::<chrono::Utc>::from_timestamp(secs, nanos).map(
        |now|
            UtcDateTime {
                year: now.year(),
                month: now.month(),
                day: now.day(),
                hour: now.hour(),
                minute: now.minute(),
                second: now.second(),
                microsecond: now.timestamp_subsec_micros(),
            },
    )
}

/// The UTC date and time `secs` seconds and `nanos` nanoseconds after the Unix
/// epoch; `None` beyond the calendar range.
pub fn utc_at_unix_time(secs: u64, nanos: u32) -> (r: Option<UtcDateTime>)
    requires
        nanos < 1_000_000_000,
    ensures
        r is Some <==> secs <= MAX_UNIX_SECONDS,
        r matches Some(dt) ==> dt.wf() && julian_micros(dt) == unix_julian_micros(
            secs as int,
            nanos as int,
        ),
{
    if secs > MAX_UNIX_SECONDS {
        None
    } else {
        calendar_of_timestamp(secs as i64, nanos)
    }
}

/// The current UTC time; `None` when the system clock reads before the Unix
/// epoch or beyond the calendar range.
pub fn now_utc() -> (r: Option<UtcDateTime>)
    ensures
        r matches Some(dt) ==> dt.wf() && exists|secs: int, nanos: int|
            0 <= secs <= MAX_UNIX_SECONDS && 0 <= nanos < 1_000_000_000 && julian_micros(dt)
                == unix_julian_micros(secs, nanos),
{
    match clock_since_epoch() {
        Some((secs, nanos)) => utc_at_unix_time(secs, nanos),
        None => None,
    }
}

impl IndraEvent {
    /// The Julian Date of a date and time, in microseconds.
    pub fn datetime_to_julian(dt: &UtcDateTime) -> (r: i64)
        requires
            dt.wf(),
        ensures
            r == julian_micros(*dt),
    {
        let d = date_day_number(dt);
        d * DAY_MICROS - 12 * HOUR_MICROS + dt.hour as i64 * HOUR_MICROS + dt.minute as i64
            * MINUTE_MICROS + dt.second as i64 * SECOND_MICROS + dt.microsecond as i64
    }
}

/// The first day (Julian Day Number) of the Gregorian calendar; the days
/// before it are read in the Julian calendar.
pub const REFORM_DAY: i64 = 2_299_161;

/// The last microsecond of the calendar range: the end of the last day of
/// `MAX_YEAR`.
pub const MAX_JULIAN_MICROS: i64 = 8_421_133_636_799_999_999;

/// A year before the start of the Julian period.
pub const FIRST_SEARCH_YEAR: i64 = -4713;

/// `r` is the date and time of the Julian Date `jd` (in microseconds): in the
/// Gregorian calendar from the reform day on, in the Julian calendar before it.
pub open spec fn is_calendar_of(jd: int, r: UtcDateTime) -> bool {
    let t = jd + 12 * HOUR_MICROS;
    let z = t / DAY_MICROS as int;
    let f = t % DAY_MICROS as int;
    let g = z >= REFORM_DAY;
    &&& 1 <= r.month <= 12
    &&& 1 <= r.day <= days_in_month_of(g, r.year as int, r.month as int)
    &&& day_number(g, r.year as int, r.month as int, r.day as int) == z
    &&& r.hour == f / HOUR_MICROS as int
    &&& r.minute == (f % HOUR_MICROS as int) / MINUTE_MICROS as int
    &&& r.second == (f % MINUTE_MICROS as int) / SECOND_MICROS as int
    &&& r.microsecond == f % SECOND_MICROS as int
}

/// The quotient by `k` steps up by one from `x` to `x + 1` exactly when `k`
/// divides `x + 1`.
proof fn lemma_floor_step(x: int, k: int)
    requires
        k > 0,
    ensures
        (x + 1) / k - x / k == (if (x + 1) % k == 0 {
            1int
        } else {
            0int
        }),
{
    vstd::arithmetic::div_mod::lemma_fundamental_div_mod(x, k);
    vstd::arithmetic::div_mod::lemma_fundamental_div_mod(x + 1, k);
    let q0 = x / k;
    let r0 = x % k;
    let q1 = (x + 1) / k;
    let r1 = (x + 1) % k;
    let dq = q1 - q0;
    assert(dq * k == 1 + r0 - r1) by (nonlinear_arith)
        requires
            k * q1 + r1 == x + 1,
            k * q0 + r0 == x,
            dq == q1 - q0,
    ;
    assert(0 <= dq <= 1) by (nonlinear_arith)
        requires
            dq * k == 1 + r0 - r1,
            0 <= r0 < k,
            0 <= r1 < k,
    ;
    if dq == 1 {
        assert(dq * k == k) by (nonlinear_arith)
            requires
                dq == 1,
        ;
    } else {
        assert(dq * k == 0) by (nonlinear_arith)
            requires
                dq == 0,
        ;
    }
}

/// Across the end of February of year `y` (the shifted year `y + 4799` steps
/// by one), the leap-year corrections of the day number step by one exactly
/// in a leap year.
proof fn lemma_leap_steps(g: bool, y: int)
    ensures
        (if is_leap_in(g, y) {
            1int
        } else {
            0int
        }) == (if g {
            ((y + 4800) / 4 - (y + 4799) / 4) - ((y + 4800) / 100 - (y + 4799) / 100) + ((y
                + 4800) / 400 - (y + 4799) / 400)
        } else {
            (y + 4800) / 4 - (y + 4799) / 4
        }),
{
    let yy = y + 4799;
    lemma_floor_step(yy, 4);
    lemma_floor_step(yy, 100);
    lemma_floor_step(yy, 400);
    assert((yy + 1) % 4 == y % 4) by {
        vstd::arithmetic::div_mod::lemma_mod_multiples_vanish(1200, y, 4);
    }
    assert((yy + 1) % 100 == y % 100) by {
        vstd::arithmetic::div_mod::lemma_mod_multiples_vanish(48, y, 100);
    }
    assert((yy + 1) % 400 == y % 400) by {
        vstd::arithmetic::div_mod::lemma_mod_multiples_vanish(12, y, 400);
    }
}

/// From the first of February to the first of March is 28 days, 29 in a leap
/// year.
proof fn lemma_february_step(g: bool, y: int)
    ensures
        day_number(g, y, 3, 1) == day_number(g, y, 2, 1) + days_in_month_of(g, y, 2),
{
    lemma_leap_steps(g, y);
    let yy = y + 4799;
    assert(day_number(g, y, 2, 1) == 1 + 337 + 365 * yy + yy / 4 - (if g {
        yy / 100 - yy / 400 + 32045
    } else {
        32083
    }));
    assert(day_number(g, y, 3, 1) == 1 + 0 + 365 * (yy + 1) + (yy + 1) / 4 - (if g {
        (yy + 1) / 100 - (yy + 1) / 400 + 32045
    } else {
        32083
    }));
}

/// The day number steps from the first of month `m` to the first of the next
/// month by the length of month `m`.
proof fn lemma_month_step(g: bool, y: int, m: int)
    requires
        1 <= m <= 11,
    ensures
        day_number(g, y, m + 1, 1) == day_number(g, y, m, 1) + days_in_month_of(g, y, m),
{
    if m == 2 {
        lemma_february_step(g, y);
    } else if m == 1 {
        assert(day_number(g, y, 2, 1) == day_number(g, y, 1, 1) + 31);
    } else {
        assert((14 - m) / 12 == 0 && (14 - (m + 1)) / 12 == 0);
    }
}

/// From the first of December to the first of January of the next year is 31
/// days.
proof fn lemma_december_step(g: bool, y: int)
    ensures
        day_number(g, y + 1, 1, 1) == day_number(g, y, 12, 1) + 31,
{
}

/// The day number of a date in the search range, in either calendar.
fn day_number_in_range(g: bool, y: i64, m: i64, d: i64) -> (r: i64)
    requires
        FIRST_SEARCH_YEAR <= y <= MAX_YEAR + 1,
        1 <= m <= 12,
        1 <= d <= 31,
    ensures
        r == day_number(g, y as int, m as int, d as int),
        -2_000_000 < r < 98_000_000,
{
    let a: i64 = if m <= 2 {
        1
    } else {
        0
    };
    assert(a == (14 - m) / 12);
    let yy: i64 = y + 4800 - a;
    let mm: i64 = m + 12 * a - 3;
    let base = d + (153 * mm + 2) / 5 + 365 * yy + yy / 4;
    if g {
        base - yy / 100 + yy / 400 - 32045
    } else {
        base - 32083
    }
}

/// A year is 365 days long, 366 in a leap year.
proof fn lemma_year_step(g: bool, y: int)
    ensures
        day_number(g, y + 1, 1, 1) == day_number(g, y, 1, 1) + 365 + (if is_leap_in(g, y) {
            1int
        } else {
            0int
        }),
{
    lemma_month_step(g, y, 1);
    lemma_month_step(g, y, 2);
    lemma_month_step(g, y, 3);
    lemma_month_step(g, y, 4);
    lemma_month_step(g, y, 5);
    lemma_month_step(g, y, 6);
    lemma_month_step(g, y, 7);
    lemma_month_step(g, y, 8);
    lemma_month_step(g, y, 9);
    lemma_month_step(g, y, 10);
    lemma_month_step(g, y, 11);
    lemma_december_step(g, y);
}

/// The first of a later month of the same year comes no earlier than the first
/// of the month after `m1`.
proof fn lemma_months_ordered(g: bool, y: int, m1: int, m2: int)
    requires
        1 <= m1 < m2 <= 12,
    ensures
        day_number(g, y, m1 + 1, 1) <= day_number(g, y, m2, 1),
    decreases m2 - m1,
{
    if m1 + 1 < m2 {
        lemma_months_ordered(g, y, m1 + 1, m2);
        lemma_month_step(g, y, m1 + 1);
    }
}

/// The first of January of a later year comes no earlier than the first of
/// January after `y1`.
proof fn lemma_years_ordered(g: bool, y1: int, y2: int)
    requires
        y1 < y2,
    ensures
        day_number(g, y1 + 1, 1, 1) <= day_number(g, y2, 1, 1),
    decreases y2 - y1,
{
    if y1 + 1 < y2 {
        lemma_years_ordered(g, y1 + 1, y2);
        lemma_year_step(g, y1 + 1);
    }
}

/// A valid date lies within its month and within its year.
proof fn lemma_date_within(g: bool, y: int, m: int, d: int)
    requires
        1 <= m <= 12,
        1 <= d <= days_in_month_of(g, y, m),
    ensures
        day_number(g, y, 1, 1) <= day_number(g, y, m, d) < day_number(g, y + 1, 1, 1),
        m < 12 ==> day_number(g, y, m, d) < day_number(g, y, m + 1, 1),
{
    if m < 12 {
        lemma_month_step(g, y, m);
        if m + 1 < 12 {
            lemma_months_ordered(g, y, m + 1, 12);
        }
        lemma_month_step(g, y, 11);
        lemma_december_step(g, y);
    } else {
        lemma_december_step(g, y);
    }
    if m > 1 {
        lemma_months_ordered(g, y, 1, m);
        lemma_month_step(g, y, 1);
    }
}

/// Two valid dates of one calendar with the same day number are the same date.
proof fn lemma_date_unique(g: bool, y1: int, m1: int, d1: int, y2: int, m2: int, d2: int)
    requires
        1 <= m1 <= 12,
        1 <= d1 <= days_in_month_of(g, y1, m1),
        1 <= m2 <= 12,
        1 <= d2 <= days_in_month_of(g, y2, m2),
        day_number(g, y1, m1, d1) == day_number(g, y2, m2, d2),
    ensures
        y1 == y2 && m1 == m2 && d1 == d2,
{
    lemma_date_within(g, y1, m1, d1);
    lemma_date_within(g, y2, m2, d2);
    if y1 < y2 {
        lemma_years_ordered(g, y1, y2);
    } else if y2 < y1 {
        lemma_years_ordered(g, y2, y1);
    } else if m1 < m2 {
        lemma_months_ordered(g, y1, m1, m2);
        lemma_date_within(g, y2, m2, 1);
    } else if m2 < m1 {
        lemma_months_ordered(g, y1, m2, m1);
        lemma_date_within(g, y1, m1, 1);
    }
}

/// Reading back the Julian Date of a date and time from the calendar reform on
/// gives that date and time again, to the microsecond; such a Julian Date is
/// always in the range that `julian_to_datetime` accepts.
pub proof fn lemma_julian_round_trip(dt: UtcDateTime, r: UtcDateTime)
    requires
        dt.wf(),
        jdn(dt.year as int, dt.month as int, dt.day as int) >= REFORM_DAY,
        is_calendar_of(julian_micros(dt), r),
    ensures
        0 <= julian_micros(dt) <= MAX_JULIAN_MICROS,
        r == dt,
{
    let z0 = jdn(dt.year as int, dt.month as int, dt.day as int);
    let tod = dt.day_time_micros();
    let hm = dt.minute * MINUTE_MICROS + dt.second * SECOND_MICROS + dt.microsecond;
    let ms = dt.second * SECOND_MICROS + dt.microsecond;
    assert(0 <= tod < DAY_MICROS);
    let t = julian_micros(dt) + 12 * HOUR_MICROS;
    assert(t == z0 * DAY_MICROS + tod);
    vstd::arithmetic::div_mod::lemma_fundamental_div_mod_converse(t, DAY_MICROS as int, z0, tod);
    let z = t / DAY_MICROS as int;
    let f = t % DAY_MICROS as int;
    assert(z == z0 && f == tod);
    assert(days_in_month_of(true, dt.year as int, dt.month as int) == days_in_month(
        dt.year as int,
        dt.month as int,
    ));
    lemma_date_unique(
        true,
        r.year as int,
        r.month as int,
        r.day as int,
        dt.year as int,
        dt.month as int,
        dt.day as int,
    );
    vstd::arithmetic::div_mod::lemma_fundamental_div_mod_converse(
        tod,
        HOUR_MICROS as int,
        dt.hour as int,
        hm,
    );
    vstd::arithmetic::div_mod::lemma_fundamental_div_mod_converse(
        hm,
        MINUTE_MICROS as int,
        dt.minute as int,
        ms,
    );
    vstd::arithmetic::div_mod::lemma_fundamental_div_mod_converse(
        tod,
        MINUTE_MICROS as int,
        dt.hour * 60 + dt.minute,
        ms,
    );
    vstd::arithmetic::div_mod::lemma_fundamental_div_mod_converse(
        ms,
        SECOND_MICROS as int,
        dt.second as int,
        dt.microsecond as int,
    );
    vstd::arithmetic::div_mod::lemma_fundamental_div_mod_converse(
        tod,
        SECOND_MICROS as int,
        dt.hour * 3600 + dt.minute * 60 + dt.second,
        dt.microsecond as int,
    );
    lemma_date_within(true, dt.year as int, dt.month as int, dt.day as int);
    if dt.year < MAX_YEAR {
        lemma_years_ordered(true, dt.year as int, MAX_YEAR as int + 1);
    }
    assert(day_number(true, MAX_YEAR + 1, 1, 1) == 97_466_825);
}

/// The day numbers at the ends of the search range.
proof fn lemma_search_ends()
    ensures
        day_number(true, FIRST_SEARCH_YEAR as int, 1, 1) <= 0,
        day_number(false, FIRST_SEARCH_YEAR as int, 1, 1) <= 0,
        day_number(true, MAX_YEAR + 1, 1, 1) == 97_466_825,
        day_number(false, MAX_YEAR + 1, 1, 1) > REFORM_DAY,
{
}

impl IndraEvent {
    /// The date and time of a Julian Date given in microseconds: Gregorian from
    /// the reform day (JDN 2299161) on, Julian calendar before it. Julian Dates
    /// count from noon of 1 January 4713 BC (Julian calendar), the start of the
    /// Julian period, so a negative value is not one and is not taken.
    #[verifier::rlimit(30)]
    pub fn julian_to_datetime(jd: i64) -> (r: UtcDateTime)
        requires
            0 <= jd <= MAX_JULIAN_MICROS,
        ensures
            is_calendar_of(jd as int, r),
            FIRST_SEARCH_YEAR <= r.year <= MAX_YEAR,
    {
        let t = jd + 12 * HOUR_MICROS;
        let z = t / DAY_MICROS;
        let f = t % DAY_MICROS;
        let g = z >= REFORM_DAY;
        assert(0 <= z <= 97_466_824);
        let mut y: i64 = z * 4 / 1461 - 4712;
        if y > MAX_YEAR as i64 {
            y = MAX_YEAR as i64;
        }
        while y > FIRST_SEARCH_YEAR && day_number_in_range(g, y, 1, 1) > z
            invariant
                FIRST_SEARCH_YEAR <= y <= MAX_YEAR,
            decreases y - FIRST_SEARCH_YEAR,
        {
            y = y - 1;
        }
        proof {
            lemma_search_ends();
        }
        while y < MAX_YEAR as i64 && day_number_in_range(g, y + 1, 1, 1) <= z
            invariant
                FIRST_SEARCH_YEAR <= y <= MAX_YEAR,
                day_number(g, y as int, 1, 1) <= z,
            decreases MAX_YEAR - y,
        {
            y = y + 1;
        }
        assert(day_number(g, y + 1, 1, 1) > z);
        let mut m: i64 = 1;
        while m < 12 && day_number_in_range(g, y, m + 1, 1) <= z
            invariant
                FIRST_SEARCH_YEAR <= y <= MAX_YEAR,
                1 <= m <= 12,
                day_number(g, y as int, m as int, 1) <= z,
            decreases 12 - m,
        {
            m = m + 1;
        }
        proof {
            if m < 12 {
                lemma_month_step(g, y as int, m as int);
            } else {
                lemma_december_step(g, y as int);
            }
        }
        let d = z - day_number_in_range(g, y, m, 1) + 1;
        UtcDateTime {
            year: y as i32,
            month: m as u32,
            day: d as u32,
            hour: (f / HOUR_MICROS) as u32,
            minute: ((f % HOUR_MICROS) / MINUTE_MICROS) as u32,
            second: ((f % MINUTE_MICROS) / SECOND_MICROS) as u32,
            microsecond: (f % SECOND_MICROS) as u32,
        }
    }
}

} // verus!
