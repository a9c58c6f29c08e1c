//! The version that builds carry when none is given: the package
//! version with the build's date and time in UTC+8 as build metadata,
//! `<version>+YYYYMMDD.HHmm`.

use vstd::prelude::*;
use crate::text::{decimal, push_padded, zero_pad};

verus! {

/// Whether `y` is a leap year in the Gregorian calendar.
pub open spec fn is_leap_spec(y: int) -> bool {
    (y % 4 == 0 && y % 100 != 0) || y % 400 == 0
}

/// The number of days of year `y`.
pub open spec fn year_days(y: int) -> int {
    if is_leap_spec(y) {
        366
    } else {
        365
    }
}

/// Days from 1970-01-01 to the first day of year `y` (`y >= 1970`).
pub open spec fn days_before_year(y: int) -> int
    decreases y - 1970,
{
    if y <= 1970 {
        0
    } else {
        days_before_year(y - 1) + year_days(y - 1)
    }
}

/// The number of days of month `m` (1 to 12) of year `y`.
pub open spec fn month_days(y: int, m: int) -> int {
    if m == 2 {
        if is_leap_spec(y) {
            29
        } else {
            28
        }
    } else if m == 4 || m == 6 || m == 9 || m == 11 {
        30
    } else {
        31
    }
}

/// Days from the first of January of year `y` to the first day of month `m`.
pub open spec fn days_before_month(y: int, m: int) -> int
    decreases m,
{
    if m <= 1 {
        0
    } else {
        days_before_month(y, m - 1) + month_days(y, m - 1)
    }
}

/// `(y, m, d)` is the date `days` days after 1970-01-01.
pub open spec fn is_date_of(days: int, y: int, m: int, d: int) -> bool {
    &&& y >= 1970
    &&& 1 <= m <= 12
    &&& days_before_year(y) <= days < days_before_year(y + 1)
    &&& days_before_month(y, m) <= days - days_before_year(y) < days_before_month(y, m + 1)
    &&& d == days - days_before_year(y) - days_before_month(y, m) + 1
}

/// Whether `y` is a leap year.
pub fn is_leap(y: u64) -> (r: bool)
    ensures
        r == is_leap_spec(y as int),
{
    (y % 4 == 0 && y % 100 != 0) || (y % 400 == 0)
}

proof fn lemma_days_before_year_grows(y: int)
    requires
        y >= 1970,
    ensures
        days_before_year(y) >= 365 * (y - 1970),
    decreases y - 1970,
{
    if y > 1970 {
        lemma_days_before_year_grows(y - 1);
    }
}

proof fn lemma_year_months(y: int)
    ensures
        days_before_month(y, 13) == year_days(y),
{
    reveal_with_fuel(days_before_month, 13);
}

/// The date `days` days after 1970-01-01, as year, month and day.
pub fn civil_date(days: u64) -> (r: (u64, u64, u64))
    ensures
        is_date_of(days as int, r.0 as int, r.1 as int, r.2 as int),
{
    let mut year: u64 = 1970;
    let mut remaining: u64 = days;
    while remaining >= days_in_year(year)
        invariant
            year >= 1970,
            remaining as int == days - days_before_year(year as int),
            days_before_year(year as int) >= 365 * (year - 1970),
            days_before_year(year as int) <= days,
        decreases remaining,
    {
        remaining = remaining - days_in_year(year);
        proof {
            lemma_days_before_year_grows(year + 1);
        }
        year = year + 1;
    }
    let mut month: u64 = 1;
    proof {
        lemma_year_months(year as int);
    }
    while remaining >= days_in_month(year, month)
        invariant
            1 <= month <= 12,
            remaining as int == days - days_before_year(year as int) - days_before_month(
                year as int,
                month as int,
            ),
            remaining < year_days(year as int) - days_before_month(year as int, month as int),
            days_before_month(year as int, 13) == year_days(year as int),
        decreases 12 - month,
    {
        remaining = remaining - days_in_month(year, month);
        month = month + 1;
    }
    (year, month, remaining + 1)
}

fn days_in_year(y: u64) -> (n: u64)
    ensures
        n == year_days(y as int),
{
    if is_leap(y) {
        366
    } else {
        365
    }
}

fn days_in_month(y: u64, m: u64) -> (n: u64)
    ensures
        n == month_days(y as int, m as int),
{
    if m == 2 {
        if is_leap(y) {
            29
        } else {
            28
        }
    } else if m == 4 || m == 6 || m == 9 || m == 11 {
        30
    } else {
        31
    }
}

/// The stamp text for a package version, a date and a time: the version,
/// `+`, the year (at least four digits), month and day (two digits each),
/// `.`, hour and minute (two digits each).
pub open spec fn stamp_of(pkg: Seq<char>, y: int, m: int, d: int, hh: int, mm: int) -> Seq<char> {
    pkg + seq!['+'] + zero_pad(decimal(y as nat), 4) + zero_pad(decimal(m as nat), 2) + zero_pad(
        decimal(d as nat),
        2,
    ) + seq!['.'] + zero_pad(decimal(hh as nat), 2) + zero_pad(decimal(mm as nat), 2)
}

/// `s` is the stamp of package version `pkg` at `secs` seconds after the
/// Unix epoch: the date and time eight hours ahead of UTC.
pub open spec fn is_stamp(pkg: Seq<char>, secs: int, s: Seq<char>) -> bool {
    let t = secs + 8 * 3600;
    let days = t / 86400;
    let time = t % 86400;
    exists|y: int, m: int, d: int|
        #[trigger] is_date_of(days, y, m, d) && s == stamp_of(pkg, y, m, d, time / 3600, (time % 3600) / 60)
}

/// A day count has one date: the stamp is a function of the time.
pub proof fn lemma_date_unique(days: int, y1: int, m1: int, d1: int, y2: int, m2: int, d2: int)
    requires
        is_date_of(days, y1, m1, d1),
        is_date_of(days, y2, m2, d2),
    ensures
        y1 == y2 && m1 == m2 && d1 == d2,
{
    if y1 < y2 {
        lemma_days_before_year_mono(y1 + 1, y2);
    } else if y2 < y1 {
        lemma_days_before_year_mono(y2 + 1, y1);
    }
    if m1 < m2 {
        lemma_days_before_month_mono(y1, m1 + 1, m2);
    } else if m2 < m1 {
        lemma_days_before_month_mono(y1, m2 + 1, m1);
    }
}

proof fn lemma_days_before_year_mono(a: int, b: int)
    requires
        1970 <= a <= b,
    ensures
        days_before_year(a) <= days_before_year(b),
    decreases b - a,
{
    if a < b {
        lemma_days_before_year_mono(a, b - 1);
    }
}

proof fn lemma_days_before_month_mono(y: int, a: int, b: int)
    requires
        1 <= a <= b,
    ensures
        days_before_month(y, a) <= days_before_month(y, b),
    decreases b - a,
{
    if a < b {
        lemma_days_before_month_mono(y, a, b - 1);
    }
}

/// The version stamp of package version `pkg` for `secs` seconds after
/// the Unix epoch.
pub fn version_stamp(pkg: &str, secs: u64) -> (s: String)
    requires
        secs + 8 * 3600 <= i64::MAX,
    ensures
        is_stamp(pkg@, secs as int, s@),
{
    let t = secs + 8 * 3600;
    let days = t / 86400;
    let time = t % 86400;
    let hours = time / 3600;
    let minutes = (time % 3600) / 60;
    let (year, month, day) = civil_date(days);
    let mut s = String::from_str(pkg);
    s.append("+");
    push_padded(&mut s, year, 4);
    push_padded(&mut s, month, 2);
    push_padded(&mut s, day, 2);
    s.append(".");
    push_padded(&mut s, hours, 2);
    push_padded(&mut s, minutes, 2);
    proof {
        reveal_strlit("+");
        reveal_strlit(".");
        assert(s@ =~= stamp_of(pkg@, year as int, month as int, day as int, hours as int, minutes as int));
    }
    s
}

/// The version a build carries: the one it was given when that is not
/// empty, else the stamp of package version `pkg` at its build time.
pub fn version_text(given: Option<&str>, pkg: &str, secs: u64) -> (s: String)
    requires
        secs + 8 * 3600 <= i64::MAX,
    ensures
        match given {
            Some(v) if v@.len() > 0 => s@ == v@,
            _ => is_stamp(pkg@, secs as int, s@),
        },
{
    match given {
        Some(v) => {
            if !v.is_empty() {
                return v.to_owned();
            }
            version_stamp(pkg, secs)
        },
        None => version_stamp(pkg, secs),
    }
}

} // verus!
