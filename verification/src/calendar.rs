//! A proleptic Gregorian calendar model (UTC, second resolution).
//!
//! Civil time is a six-field date and time of day. The model maps civil time
//! to seconds since 1970-01-01T00:00:00Z and proves that the mapping is
//! strictly monotone with respect to the field-wise (lexicographic) order.
//! The supported range runs from 1970 through the end of year 9999.
use vstd::prelude::*;
use chrono::Datelike;
use chrono::Timelike;

verus! {

/// A civil date and time of day, UTC. The fields are not constrained by the
/// type itself; `valid_civil` says when a value denotes a real instant.
#[derive(Clone, Copy, PartialEq, Eq, Structural, Debug)]
pub struct CivilTime {
    pub year: u16,
    pub month: u8,
    pub day: u8,
    pub hour: u8,
    pub minute: u8,
    pub second: u8,
}

pub open spec fn is_leap_year(y: int) -> bool {
    y % 4 == 0 && (y % 100 != 0 || y % 400 == 0)
}

pub open spec fn days_in_month(y: int, m: int) -> int {
    if m == 2 {
        if is_leap_year(y) { 29 } else { 28 }
    } else if m == 4 || m == 6 || m == 9 || m == 11 {
        30
    } else {
        31
    }
}

/// Days from the start of year `y` to the start of month `m` of year `y`.
pub open spec fn days_before_month(y: int, m: int) -> int
    decreases m,
{
    if m <= 1 { 0 } else { days_before_month(y, m - 1) + days_in_month(y, m - 1) }
}

pub open spec fn days_in_year(y: int) -> int {
    days_before_month(y, 13)
}

/// Days from 1970-01-01 to the start of year `y` (for `y >= 1970`).
pub open spec fn days_before_year(y: int) -> int
    decreases y,
{
    if y <= 1970 { 0 } else { days_before_year(y - 1) + days_in_year(y - 1) }
}

/// Days from 1970-01-01 to the civil date of `c`.
pub open spec fn civil_days(c: CivilTime) -> int {
    days_before_year(c.year as int) + days_before_month(c.year as int, c.month as int) + c.day - 1
}

/// Seconds from 1970-01-01T00:00:00Z to the instant `c`.
pub open spec fn civil_secs(c: CivilTime) -> int {
    civil_days(c) * 86400 + c.hour * 3600 + c.minute * 60 + c.second
}

/// Day of the week of `c`, with 0 = Monday .. 6 = Sunday.
/// 1970-01-01 was a Thursday, day 3 of the week.
pub open spec fn weekday_of(c: CivilTime) -> int {
    (civil_days(c) + 3) % 7
}

/// Field ranges hold and the year is not before 1970; the year is unbounded
/// above, which admits the transient values a forward search steps through.
pub open spec fn civil_in_range(c: CivilTime) -> bool {
    &&& 1970 <= c.year
    &&& 1 <= c.month <= 12
    &&& 1 <= c.day <= days_in_month(c.year as int, c.month as int)
    &&& c.hour <= 23
    &&& c.minute <= 59
    &&& c.second <= 59
}

/// `c` denotes an instant of the supported range (1970 through 9999).
pub open spec fn valid_civil(c: CivilTime) -> bool {
    civil_in_range(c) && c.year <= 9999
}

/// The last supported instant, 9999-12-31T23:59:59Z.
pub open spec fn last_civil() -> CivilTime {
    CivilTime { year: 9999, month: 12, day: 31, hour: 23, minute: 59, second: 59 }
}

/// Seconds of the last supported instant.
pub open spec fn max_epoch() -> int {
    civil_secs(last_civil())
}

/// Field-wise (lexicographic) order on civil times.
pub open spec fn civil_lt(a: CivilTime, b: CivilTime) -> bool {
    a.year < b.year
        || (a.year == b.year && (a.month < b.month
        || (a.month == b.month && (a.day < b.day
        || (a.day == b.day && (a.hour < b.hour
        || (a.hour == b.hour && (a.minute < b.minute
        || (a.minute == b.minute && a.second < b.second)))))))))
}

pub proof fn lemma_days_in_year_bounds(y: int)
    ensures
        365 <= days_in_year(y) <= 366,
        days_in_year(y) == 365 + if is_leap_year(y) { 1int } else { 0int },
{
    reveal_with_fuel(days_before_month, 14);
}

pub proof fn lemma_dbm_monotone(y: int, m1: int, m2: int)
    requires
        1 <= m1 <= m2 <= 13,
    ensures
        days_before_month(y, m1) <= days_before_month(y, m2),
        m1 < m2 ==> days_before_month(y, m1) + days_in_month(y, m1) <= days_before_month(y, m2),
    decreases m2 - m1,
{
    if m1 < m2 {
        lemma_dbm_monotone(y, m1 + 1, m2);
    }
}

pub proof fn lemma_dby_monotone(y1: int, y2: int)
    requires
        1970 <= y1 <= y2,
    ensures
        days_before_year(y1) <= days_before_year(y2),
        y1 < y2 ==> days_before_year(y1) + days_in_year(y1) <= days_before_year(y2),
    decreases y2 - y1,
{
    if y1 < y2 {
        lemma_days_in_year_bounds(y2 - 1);
        lemma_dby_monotone(y1, y2 - 1);
    }
}

pub proof fn lemma_dby_upper(y: int)
    requires
        1970 <= y <= 10000,
    ensures
        0 <= days_before_year(y) <= 366 * (y - 1970),
    decreases y,
{
    if y > 1970 {
        lemma_dby_upper(y - 1);
        lemma_days_in_year_bounds(y - 1);
    }
}

/// A numeric bound on the supported range: it ends before 300 billion
/// seconds after the epoch.
pub proof fn lemma_max_epoch_bound()
    ensures
        0 < max_epoch() < 300_000_000_000,
{
    let c = last_civil();
    lemma_dby_upper(9999);
    lemma_dbm_monotone(9999, 12, 13);
    lemma_days_in_year_bounds(9999);
    lemma_civil_days_bounds(c);
}

/// The day count of an in-range civil time stays inside its year.
pub proof fn lemma_civil_days_bounds(c: CivilTime)
    requires
        civil_in_range(c),
    ensures
        days_before_year(c.year as int) <= civil_days(c),
        civil_days(c) < days_before_year(c.year as int) + days_in_year(c.year as int),
{
    lemma_dbm_monotone(c.year as int, 1, c.month as int);
    lemma_dbm_monotone(c.year as int, c.month as int, 13);
}

/// The seconds mapping is strictly monotone in the field-wise order.
pub proof fn lemma_civil_secs_lt(a: CivilTime, b: CivilTime)
    requires
        civil_in_range(a),
        civil_in_range(b),
        civil_lt(a, b),
    ensures
        civil_secs(a) < civil_secs(b),
{
    if a.year < b.year {
        lemma_civil_days_bounds(a);
        lemma_civil_days_bounds(b);
        lemma_dby_monotone(a.year as int + 1, b.year as int);
        lemma_dby_monotone(a.year as int, a.year as int + 1);
    } else if a.month < b.month {
        lemma_dbm_monotone(a.year as int, a.month as int, b.month as int);
    }
}

/// An in-range civil time at or before another in seconds is at or before it
/// field-wise; the mapping reflects the order.
pub proof fn lemma_civil_secs_le(a: CivilTime, b: CivilTime)
    requires
        civil_in_range(a),
        civil_in_range(b),
        civil_secs(a) <= civil_secs(b),
    ensures
        a == b || civil_lt(a, b),
        civil_secs(a) == civil_secs(b) ==> a == b,
{
    if a != b && !civil_lt(a, b) {
        lemma_civil_secs_lt(b, a);
    }
    if civil_secs(a) == civil_secs(b) && civil_lt(a, b) {
        lemma_civil_secs_lt(a, b);
    }
}

pub fn leap_year(y: u16) -> (r: bool)
    ensures
        r == is_leap_year(y as int),
{
    y % 4 == 0 && (y % 100 != 0 || y % 400 == 0)
}

pub fn month_length(y: u16, m: u8) -> (r: u8)
    ensures
        r == days_in_month(y as int, m as int),
{
    if m == 2 {
        if leap_year(y) { 29 } else { 28 }
    } else if m == 4 || m == 6 || m == 9 || m == 11 {
        30
    } else {
        31
    }
}

fn month_offset(y: u16, m: u8) -> (r: u16)
    requires
        1 <= m <= 13,
    ensures
        r == days_before_month(y as int, m as int),
        r <= 372,
{
    let mut i: u8 = 1;
    let mut acc: u16 = 0;
    while i < m
        invariant
            1 <= i <= m <= 13,
            acc == days_before_month(y as int, i as int),
            acc <= 31 * (i - 1),
        decreases m - i,
    {
        acc = acc + month_length(y, i) as u16;
        i = i + 1;
    }
    acc
}

fn year_offset(y: u16) -> (r: i64)
    requires
        1970 <= y <= 10000,
    ensures
        r == days_before_year(y as int),
        0 <= r <= 366 * (y - 1970),
{
    let mut i: u16 = 1970;
    let mut acc: i64 = 0;
    while i < y
        invariant
            1970 <= i <= y <= 10000,
            acc == days_before_year(i as int),
            0 <= acc <= 366 * (i - 1970),
        decreases y - i,
    {
        proof {
            lemma_days_in_year_bounds(i as int);
        }
        acc = acc + month_offset(i, 13) as i64;
        i = i + 1;
    }
    acc
}

/// Days from 1970-01-01 to the civil date of `c`.
pub fn civil_day_number(c: CivilTime) -> (r: i64)
    requires
        civil_in_range(c),
        c.year <= 10000,
    ensures
        r == civil_days(c),
        0 <= r < 3000000,
{
    year_offset(c.year) + month_offset(c.year, c.month) as i64 + c.day as i64 - 1
}

/// Seconds from 1970-01-01T00:00:00Z to the instant `c`.
pub fn civil_to_secs(c: CivilTime) -> (r: i64)
    requires
        civil_in_range(c),
        c.year <= 10000,
    ensures
        r == civil_secs(c),
{
    let days = civil_day_number(c);
    days * 86400 + c.hour as i64 * 3600 + c.minute as i64 * 60 + c.second as i64
}

/// Seconds of the last supported instant, 9999-12-31T23:59:59Z.
pub fn max_epoch_seconds() -> (r: i64)
    ensures
        r == max_epoch(),
{
    civil_to_secs(CivilTime { year: 9999, month: 12, day: 31, hour: 23, minute: 59, second: 59 })
}

/// Day of the week of `c`, with 0 = Monday .. 6 = Sunday.
pub fn weekday_number(c: CivilTime) -> (r: u8)
    requires
        civil_in_range(c),
        c.year <= 10000,
    ensures
        r == weekday_of(c),
        r <= 6,
{
    let days = civil_day_number(c);
    (((days + 3) as u64) % 7) as u8
}

/// Relies on `chrono::DateTime::<Utc>::from_timestamp_secs` and the
/// `Datelike` and `Timelike` accessors `year`, `month`, `day`, `hour`,
/// `minute`, `second`: chrono converts an in-range Unix timestamp to its
/// civil date and time of day in the proleptic Gregorian calendar, UTC.
#[verifier::external_body]
pub(crate) fn civil_from_secs(t: i64) -> (c: CivilTime)
    requires
        0 <= t <= max_epoch(),
    ensures
        valid_civil(c),
        civil_secs(c) == t,
{
    let dt = chrono::DateTime::<chrono::Utc>::from_timestamp_secs(t).unwrap();
    CivilTime {
        year: dt.year() as u16,
        month: dt.month() as u8,
        day: dt.day() as u8,
        hour: dt.hour() as u8,
        minute: dt.minute() as u8,
        second: dt.second() as u8,
    }
}

/// Every valid civil time lies at or before the last supported instant.
pub proof fn lemma_civil_secs_in_range(c: CivilTime)
    requires
        valid_civil(c),
    ensures
        0 <= civil_secs(c) <= max_epoch(),
{
    lemma_civil_days_bounds(c);
    lemma_dby_monotone(1970, c.year as int);
    if c != last_civil() {
        if !civil_lt(c, last_civil()) {
            assert(false);
        }
        lemma_civil_secs_lt(c, last_civil());
    }
}

} // verus!
