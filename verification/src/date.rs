//! Proleptic Gregorian calendar dates counted from 1970-01-01, as shown
//! for a file's modification time.
use vstd::prelude::*;
use crate::text::{decimal, pad2, push_char, push_decimal, push_pad2};

verus! {

/// Leap years: divisible by 4 but not by 100, or divisible by 400.
pub open spec fn is_leap(y: int) -> bool {
    (y % 4 == 0 && y % 100 != 0) || y % 400 == 0
}

/// The number of days in year `y`.
pub open spec fn year_len(y: int) -> int {
    if is_leap(y) { 366 } else { 365 }
}

/// The number of days in month `m` (1..=12) of year `y`.
pub open spec fn month_len(y: int, m: int) -> int {
    if m == 2 {
        if is_leap(y) { 29 } else { 28 }
    } else if m == 4 || m == 6 || m == 9 || m == 11 {
        30
    } else {
        31
    }
}

/// Days from 1970-01-01 to the first day of year `y` (`y >= 1970`).
pub open spec fn days_before_year(y: int) -> int
    decreases y - 1970,
{
    if y <= 1970 { 0 } else { days_before_year(y - 1) + year_len(y - 1) }
}

/// Days from the first of January of year `y` to the first day of month `m`.
pub open spec fn days_before_month(y: int, m: int) -> int
    decreases m,
{
    if m <= 1 { 0 } else { days_before_month(y, m - 1) + month_len(y, m - 1) }
}

/// A calendar date from 1970 on.
pub open spec fn is_valid_date(y: int, m: int, d: int) -> bool {
    &&& y >= 1970
    &&& 1 <= m <= 12
    &&& 1 <= d <= month_len(y, m)
}

/// The day number of a date: days since 1970-01-01.
pub open spec fn day_number(y: int, m: int, d: int) -> int {
    days_before_year(y) + days_before_month(y, m) + d - 1
}

/// Month and day for day `rem` of year `y`, searching from month `m`.
pub open spec fn month_walk(y: int, m: int, rem: int) -> (int, int)
    decreases 12 - m,
{
    if m >= 12 || rem < month_len(y, m) {
        (m, rem + 1)
    } else {
        month_walk(y, m + 1, rem - month_len(y, m))
    }
}

/// Year, month and day for day `rem` counted from the first day of year `y`.
pub open spec fn year_walk(y: int, rem: int) -> (int, int, int)
    decreases rem,
{
    if rem < year_len(y) || rem < 0 {
        let (m, d) = month_walk(y, 1, rem);
        (y, m, d)
    } else {
        year_walk(y + 1, rem - year_len(y))
    }
}

/// The date of day number `days`, counting 1970-01-01 as day 0.
pub open spec fn date_of_day(days: nat) -> (int, int, int) {
    year_walk(1970, days as int)
}

/// `YYYY-MM-DD`, the year without padding.
pub open spec fn date_text(y: int, m: int, d: int) -> Seq<char> {
    decimal(y as nat) + seq!['-'] + pad2(m as nat) + seq!['-'] + pad2(d as nat)
}

/// The date shown for a file modified `secs` seconds after the epoch.
pub open spec fn modified_text(secs: nat) -> Seq<char> {
    let (y, m, d) = date_of_day(secs / 86400);
    date_text(y, m, d)
}

proof fn lemma_year_is_months(y: int)
    ensures
        days_before_month(y, 12) + month_len(y, 12) == year_len(y),
{
    reveal_with_fuel(days_before_month, 12);
}

proof fn lemma_month_walk(y: int, m: int, rem: int)
    requires
        1 <= m <= 12,
        0 <= rem,
        days_before_month(y, m) + rem < year_len(y),
    ensures
        ({
            let (m2, d2) = month_walk(y, m, rem);
            &&& 1 <= m2 <= 12
            &&& 1 <= d2 <= month_len(y, m2)
            &&& days_before_month(y, m2) + d2 - 1 == days_before_month(y, m) + rem
        }),
    decreases 12 - m,
{
    lemma_year_is_months(y);
    if m >= 12 || rem < month_len(y, m) {
    } else {
        lemma_month_walk(y, m + 1, rem - month_len(y, m));
    }
}

proof fn lemma_year_walk(y: int, rem: int)
    requires
        y >= 1970,
        0 <= rem,
    ensures
        ({
            let (y2, m2, d2) = year_walk(y, rem);
            &&& is_valid_date(y2, m2, d2)
            &&& day_number(y2, m2, d2) == days_before_year(y) + rem
        }),
    decreases rem,
{
    if rem < year_len(y) {
        lemma_month_walk(y, 1, rem);
    } else {
        lemma_year_walk(y + 1, rem - year_len(y));
    }
}

/// Every day number names a valid date whose day number it is.
pub proof fn lemma_date_of_day(days: nat)
    ensures
        ({
            let (y, m, d) = date_of_day(days);
            &&& is_valid_date(y, m, d)
            &&& day_number(y, m, d) == days
        }),
{
    lemma_year_walk(1970, days as int);
}

proof fn lemma_days_before_year_grows(a: int, b: int)
    requires
        1970 <= a <= b,
    ensures
        days_before_year(b) - days_before_year(a) >= 365 * (b - a),
        b > a ==> days_before_year(b) >= days_before_year(a + 1),
    decreases b - a,
{
    if b > a {
        lemma_days_before_year_grows(a, b - 1);
        if b - 1 > a {
            lemma_days_before_year_grows(a, b - 1);
        }
    }
}

proof fn lemma_days_before_month_grows(y: int, a: int, b: int)
    requires
        1 <= a <= b,
    ensures
        days_before_month(y, b) >= days_before_month(y, a),
        b > a ==> days_before_month(y, b) >= days_before_month(y, a + 1),
    decreases b - a,
{
    if b > a {
        lemma_days_before_month_grows(y, a, b - 1);
    }
}

proof fn lemma_year_walk_skip(y0: int, y: int, rem: int)
    requires
        1970 <= y0 <= y,
        0 <= rem < year_len(y),
    ensures
        year_walk(y0, days_before_year(y) - days_before_year(y0) + rem) == year_walk(y, rem),
    decreases y - y0,
{
    if y0 < y {
        lemma_days_before_year_grows(y0, y);
        lemma_year_walk_skip(y0 + 1, y, rem);
    }
}

proof fn lemma_month_walk_skip(y: int, m0: int, m: int, d: int)
    requires
        1 <= m0 <= m <= 12,
        1 <= d <= month_len(y, m),
    ensures
        month_walk(y, m0, days_before_month(y, m) - days_before_month(y, m0) + d - 1) == (m, d),
    decreases m - m0,
{
    if m0 < m {
        lemma_days_before_month_grows(y, m0, m);
        lemma_month_walk_skip(y, m0 + 1, m, d);
    }
}

/// A date from 1970 on is the date of its own day number: the day number
/// names each valid date exactly once.
pub proof fn date_of_day_number(y: int, m: int, d: int)
    requires
        is_valid_date(y, m, d),
    ensures
        date_of_day(day_number(y, m, d) as nat) == (y, m, d),
{
    lemma_days_before_month_grows(y, m, 12);
    lemma_days_before_month_grows(y, 1, m);
    lemma_year_is_months(y);
    assert(days_before_month(y, m + 1) == days_before_month(y, m) + month_len(y, m));
    let rem = days_before_month(y, m) + d - 1;
    assert(0 <= rem < year_len(y));
    lemma_days_before_year_grows(1970, y);
    lemma_year_walk_skip(1970, y, rem);
    lemma_month_walk_skip(y, 1, m, d);
}

fn month_len_exec(leap: bool, m: u64) -> (r: u64)
    ensures
        forall|y: int| is_leap(y) == leap ==> r == month_len(y, m as int),
{
    if m == 2 {
        if leap { 29 } else { 28 }
    } else if m == 4 || m == 6 || m == 9 || m == 11 {
        30
    } else {
        31
    }
}

fn year_len_exec(y: u64) -> (r: u64)
    ensures
        r == year_len(y as int),
{
    if (y % 4 == 0 && y % 100 != 0) || y % 400 == 0 { 366 } else { 365 }
}

/// The date of a day number: year, month (1..=12) and day of the month.
pub fn civil_from_days(days: u64) -> (r: (u64, u64, u64))
    ensures
        (r.0 as int, r.1 as int, r.2 as int) == date_of_day(days as nat),
{
    let mut remaining: u64 = days;
    let mut y: u64 = 1970;
    while remaining >= year_len_exec(y)
        invariant
            y >= 1970,
            remaining <= days,
            365 * (y - 1970) <= days - remaining,
            date_of_day(days as nat) == year_walk(y as int, remaining as int),
        decreases remaining,
    {
        remaining = remaining - year_len_exec(y);
        y = y + 1;
    }
    let leap = (y % 4 == 0 && y % 100 != 0) || y % 400 == 0;
    let mut m: u64 = 1;
    while m < 12 && remaining >= month_len_exec(leap, m)
        invariant
            1 <= m <= 12,
            remaining < year_len(y as int),
            leap == is_leap(y as int),
            date_of_day(days as nat) == ({
                let (m2, d2) = month_walk(y as int, m as int, remaining as int);
                (y as int, m2, d2)
            }),
        decreases 12 - m,
    {
        remaining = remaining - month_len_exec(leap, m);
        m = m + 1;
    }
    (y, m, remaining + 1)
}

/// The `YYYY-MM-DD` date of a modification time given in seconds since the epoch.
pub fn modified_date(secs: u64) -> (r: String)
    ensures
        r@ == modified_text(secs as nat),
{
    let (y, m, d) = civil_from_days(secs / 86400);
    let mut r = String::new();
    push_decimal(&mut r, y);
    push_char(&mut r, '-');
    push_pad2(&mut r, m);
    push_char(&mut r, '-');
    push_pad2(&mut r, d);
    assert(r@ =~= modified_text(secs as nat));
    r
}

} // verus!
