//! Proleptic Gregorian calendar arithmetic, with days counted from
//! 2000-01-01, PostgreSQL's date epoch.

use vstd::prelude::*;

verus! {

/// Day number of 0001-01-01 in year `i32::MIN`: the first day a date may have.
pub const MIN_DAY_NUMBER: i64 = -784353026790;

/// Day number of 12-31 in year `i32::MAX`: the last day a date may have.
pub const MAX_DAY_NUMBER: i64 = 784351565819;

/// Days in four hundred Gregorian years.
pub const DAYS_PER_CYCLE: i64 = 146097;

pub open spec fn is_leap_year(y: int) -> bool {
    y % 4 == 0 && (y % 100 != 0 || y % 400 == 0)
}

pub open spec fn days_in_year(y: int) -> int {
    if is_leap_year(y) {
        366
    } else {
        365
    }
}

pub open spec fn days_in_month(y: int, m: int) -> int {
    if m == 2 {
        if is_leap_year(y) {
            29
        } else {
            28
        }
    } else if m == 4 || m == 6 || m == 9 || m == 11 {
        30
    } else {
        31
    }
}

/// Days from January 1st to the first day of month `m` of year `y`.
pub open spec fn days_before_month(y: int, m: int) -> int {
    let common: int = if m <= 1 {
        0
    } else if m == 2 {
        31
    } else if m == 3 {
        59
    } else if m == 4 {
        90
    } else if m == 5 {
        120
    } else if m == 6 {
        151
    } else if m == 7 {
        181
    } else if m == 8 {
        212
    } else if m == 9 {
        243
    } else if m == 10 {
        273
    } else if m == 11 {
        304
    } else {
        334
    };
    if m > 2 && is_leap_year(y) {
        common + 1
    } else {
        common
    }
}

/// Leap years among the years before `y`, counted from year 1 (and negative
/// below it), so that only differences matter.
pub open spec fn leap_years_before(y: int) -> int {
    (y - 1) / 4 - (y - 1) / 100 + (y - 1) / 400
}

/// Days from 2000-01-01 to January 1st of year `y`.
pub open spec fn days_before_year(y: int) -> int {
    365 * (y - 2000) + leap_years_before(y) - leap_years_before(2000)
}

pub open spec fn is_valid_ymd(y: int, m: int, d: int) -> bool {
    1 <= m <= 12 && 1 <= d <= days_in_month(y, m)
}

/// Days from 2000-01-01 to the given day; negative before it.
pub open spec fn day_number(y: int, m: int, d: int) -> int {
    days_before_year(y) + days_before_month(y, m) + d - 1
}

/// The days of a year are those between two consecutive New Year's days.
pub proof fn lemma_next_year(y: int)
    ensures
        days_before_year(y + 1) == days_before_year(y) + days_in_year(y),
{
}

/// Four hundred years always hold the same number of days.
pub proof fn lemma_cycle(q: int)
    ensures
        days_before_year(2000 + 400 * q) == DAYS_PER_CYCLE * q,
{
}

/// Later years start later.
pub proof fn lemma_days_before_year_monotone(a: int, b: int)
    requires
        a <= b,
    ensures
        days_before_year(a) + (b - a) <= days_before_year(b),
    decreases b - a,
{
    if a < b {
        lemma_days_before_year_monotone(a, b - 1);
        lemma_next_year(b - 1);
    }
}

/// The months of a year fill it.
pub proof fn lemma_month_lengths(y: int, m: int)
    requires
        1 <= m <= 12,
    ensures
        m < 12 ==> days_before_month(y, m) + days_in_month(y, m) == days_before_month(y, m + 1),
        m == 12 ==> days_before_month(y, m) + days_in_month(y, m) == days_in_year(y),
{
}

/// Two valid dates with the same day number are the same date.
pub proof fn lemma_day_number_injective(y1: int, m1: int, d1: int, y2: int, m2: int, d2: int)
    requires
        is_valid_ymd(y1, m1, d1),
        is_valid_ymd(y2, m2, d2),
        day_number(y1, m1, d1) == day_number(y2, m2, d2),
    ensures
        y1 == y2 && m1 == m2 && d1 == d2,
{
    lemma_day_in_year(y1, m1, d1);
    lemma_day_in_year(y2, m2, d2);
    if y1 < y2 {
        lemma_days_before_year_monotone(y1 + 1, y2);
        lemma_next_year(y1);
    } else if y2 < y1 {
        lemma_days_before_year_monotone(y2 + 1, y1);
        lemma_next_year(y2);
    }
    assert(y1 == y2);
    if m1 < m2 {
        lemma_days_before_month_monotone(y1, m1 + 1, m2);
        lemma_month_lengths(y1, m1);
    } else if m2 < m1 {
        lemma_days_before_month_monotone(y1, m2 + 1, m1);
        lemma_month_lengths(y1, m2);
    }
}

proof fn lemma_days_before_month_monotone(y: int, a: int, b: int)
    requires
        1 <= a <= b <= 12,
    ensures
        days_before_month(y, a) <= days_before_month(y, b),
{
}

/// A valid date lies inside its year.
proof fn lemma_day_in_year(y: int, m: int, d: int)
    requires
        is_valid_ymd(y, m, d),
    ensures
        days_before_year(y) <= day_number(y, m, d) < days_before_year(y) + days_in_year(y),
{
    lemma_month_lengths(y, m);
    if m < 12 {
        lemma_days_before_month_monotone(y, m + 1, 12);
        lemma_month_lengths(y, 12);
    }
}

/// `a / b`, rounded towards negative infinity.
pub(crate) fn floor_div(a: i64, b: i64) -> (r: i64)
    requires
        b > 0,
    ensures
        r == a / b,
{
    assert(i64::MIN <= a / b <= i64::MAX) by (nonlinear_arith)
        requires
            b > 0,
            i64::MIN <= a <= i64::MAX,
    ;
    match a.checked_div_euclid(b) {
        Some(q) => q,
        None => {
            assert(false);
            0
        },
    }
}

/// `a` modulo `b`, in `0..b`.
pub(crate) fn floor_mod(a: i64, b: i64) -> (r: i64)
    requires
        b > 0,
    ensures
        r == a % b,
{
    assert(0 <= a % b < b) by (nonlinear_arith)
        requires
            b > 0,
    ;
    match a.checked_rem_euclid(b) {
        Some(q) => q,
        None => {
            assert(false);
            0
        },
    }
}

pub fn is_leap(y: i64) -> (r: bool)
    ensures
        r == is_leap_year(y as int),
{
    floor_mod(y, 4) == 0 && (floor_mod(y, 100) != 0 || floor_mod(y, 400) == 0)
}

pub fn year_length(y: i64) -> (r: i64)
    ensures
        r == days_in_year(y as int),
{
    if is_leap(y) {
        366
    } else {
        365
    }
}

pub fn month_length(y: i64, m: u32) -> (r: i64)
    ensures
        r == days_in_month(y as int, m as int),
{
    if m == 2 {
        if is_leap(y) {
            29
        } else {
            28
        }
    } else if m == 4 || m == 6 || m == 9 || m == 11 {
        30
    } else {
        31
    }
}

fn month_start(y: i64, m: u32) -> (r: i64)
    ensures
        r == days_before_month(y as int, m as int),
{
    let common: i64 = if m <= 1 {
        0
    } else if m == 2 {
        31
    } else if m == 3 {
        59
    } else if m == 4 {
        90
    } else if m == 5 {
        120
    } else if m == 6 {
        151
    } else if m == 7 {
        181
    } else if m == 8 {
        212
    } else if m == 9 {
        243
    } else if m == 10 {
        273
    } else if m == 11 {
        304
    } else {
        334
    };
    if m > 2 && is_leap(y) {
        common + 1
    } else {
        common
    }
}

fn year_start(y: i32) -> (r: i64)
    ensures
        r == days_before_year(y as int),
{
    let p = y as i64 - 1;
    let leaps = floor_div(p, 4) - floor_div(p, 100) + floor_div(p, 400);
    365 * (y as i64 - 2000) + leaps - 484
}

/// The day number of a calendar date, if the date exists.
pub fn days_from_ymd(y: i32, m: u32, d: u32) -> (r: Option<i64>)
    ensures
        r.is_some() <==> is_valid_ymd(y as int, m as int, d as int),
        r.is_some() ==> r.unwrap() == day_number(y as int, m as int, d as int),
        r.is_some() ==> MIN_DAY_NUMBER <= r.unwrap() <= MAX_DAY_NUMBER,
{
    if m < 1 || m > 12 || d < 1 || d as i64 > month_length(y as i64, m) {
        return None;
    }
    proof {
        lemma_day_in_year(y as int, m as int, d as int);
        lemma_days_before_year_monotone(i32::MIN as int, y as int);
        lemma_days_before_year_monotone(y as int + 1, i32::MAX as int + 1);
        lemma_next_year(y as int);
    }
    Some(year_start(y) + month_start(y as i64, m) + d as i64 - 1)
}

/// The calendar date with day number `n`.
pub fn ymd_from_days(n: i64) -> (r: (i32, u32, u32))
    requires
        MIN_DAY_NUMBER <= n <= MAX_DAY_NUMBER,
    ensures
        is_valid_ymd(r.0 as int, r.1 as int, r.2 as int),
        day_number(r.0 as int, r.1 as int, r.2 as int) == n,
{
    let q = floor_div(n, DAYS_PER_CYCLE);
    let first: i64 = 2000 + 400 * q;
    proof {
        lemma_cycle(q as int);
        lemma_cycle(q as int + 1);
    }
    let mut y: i64 = first;
    let mut rem: i64 = n - DAYS_PER_CYCLE * q;
    while rem >= year_length(y)
        invariant
            first <= y < first + 400,
            days_before_year(first as int + 400) == days_before_year(first as int) + DAYS_PER_CYCLE,
            days_before_year(first as int) + DAYS_PER_CYCLE > n,
            0 <= rem,
            days_before_year(y as int) + rem == n,
        decreases rem,
    {
        proof {
            lemma_next_year(y as int);
            if y + 1 == first + 400 {
                assert(false);
            }
        }
        rem = rem - year_length(y);
        y = y + 1;
    }
    proof {
        lemma_next_year(y as int);
        if y < i32::MIN {
            lemma_days_before_year_monotone(y as int + 1, i32::MIN as int);
        }
        if y > i32::MAX {
            lemma_days_before_year_monotone(i32::MAX as int + 1, y as int);
        }
    }
    let year = y as i32;
    let mut m: u32 = 1;
    let mut day_of_year = rem;
    while day_of_year >= month_length(y, m)
        invariant
            1 <= m <= 12,
            0 <= day_of_year,
            days_before_month(y as int, m as int) + day_of_year == rem,
            rem < days_in_year(y as int),
        decreases day_of_year,
    {
        proof {
            lemma_month_lengths(y as int, m as int);
        }
        day_of_year = day_of_year - month_length(y, m);
        m = m + 1;
    }
    (year, m, (day_of_year + 1) as u32)
}

} // verus!
