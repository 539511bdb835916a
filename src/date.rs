//! Whole calendar dates in the proleptic Gregorian calendar.
//!
//! A `Date` is held as its day number: January 1 of year 1 is day 1, the day
//! before it day 0, and so on in both directions. Converting between a day
//! number and (year, month, day) is done by chrono; everything else (order,
//! stepping, weekdays) is plain integer arithmetic on the day number.
use chrono::{Datelike, NaiveDate};
use vstd::prelude::*;

verus! {

/// Earliest year that chrono's `NaiveDate` (and so a `Date`) can hold.
pub const MIN_YEAR: i32 = -262143;

/// Latest year that chrono's `NaiveDate` (and so a `Date`) can hold.
pub const MAX_YEAR: i32 = 262142;

/// Day number of January 1 of `MIN_YEAR`.
pub const MIN_DAY_NUMBER: i32 = -95746129;

/// Day number of December 31 of `MAX_YEAR`.
pub const MAX_DAY_NUMBER: i32 = 95745399;

pub open spec fn is_leap_year(y: int) -> bool {
    y % 4 == 0 && (y % 100 != 0 || y % 400 == 0)
}

pub open spec fn days_in_year(y: int) -> int {
    if is_leap_year(y) {
        366
    } else {
        365
    }
}

pub open spec fn days_in_month(y: int, m: int) -> int {
    if m == 2 {
        if is_leap_year(y) {
            29
        } else {
            28
        }
    } else if m == 4 || m == 6 || m == 9 || m == 11 {
        30
    } else {
        31
    }
}

pub open spec fn year_in_range(y: int) -> bool {
    MIN_YEAR <= y <= MAX_YEAR
}

/// `(y, m, d)` names a day that a `Date` can hold.
pub open spec fn is_valid_ymd(y: int, m: int, d: int) -> bool {
    &&& year_in_range(y)
    &&& 1 <= m <= 12
    &&& 1 <= d <= days_in_month(y, m)
}

/// Days in the years before `y`, counted from the start of year 1.
pub open spec fn days_before_year(y: int) -> int {
    365 * (y - 1) + (y - 1) / 4 - (y - 1) / 100 + (y - 1) / 400
}

/// Days in the months of year `y` before month `m`.
pub open spec fn days_before_month(y: int, m: int) -> int {
    let leap: int = if is_leap_year(y) {
        1
    } else {
        0
    };
    if m <= 1 {
        0
    } else if m == 2 {
        31
    } else if m == 3 {
        59 + leap
    } else if m == 4 {
        90 + leap
    } else if m == 5 {
        120 + leap
    } else if m == 6 {
        151 + leap
    } else if m == 7 {
        181 + leap
    } else if m == 8 {
        212 + leap
    } else if m == 9 {
        243 + leap
    } else if m == 10 {
        273 + leap
    } else if m == 11 {
        304 + leap
    } else {
        334 + leap
    }
}

/// The day number of `(y, m, d)`: January 1 of year 1 is day 1.
pub open spec fn day_number(y: int, m: int, d: int) -> int {
    days_before_year(y) + days_before_month(y, m) + d
}

pub open spec fn number_in_range(n: int) -> bool {
    MIN_DAY_NUMBER <= n <= MAX_DAY_NUMBER
}

/// The calendar date of day number `n`.
pub open spec fn ymd_of(n: int) -> (int, int, int) {
    choose|t: (int, int, int)| is_valid_ymd(t.0, t.1, t.2) && day_number(t.0, t.1, t.2) == n
}

pub open spec fn year_of(n: int) -> int {
    ymd_of(n).0
}

pub open spec fn month_of(n: int) -> int {
    ymd_of(n).1
}

pub open spec fn day_of(n: int) -> int {
    ymd_of(n).2
}

/// Day of the week of day number `n`, Monday being 0 (day 1 was a Monday).
pub open spec fn weekday_index(n: int) -> int {
    (n + 6) % 7
}

proof fn lemma_step_div(y: int, k: int)
    requires
        k > 0,
    ensures
        y / k - (y - 1) / k == (if y % k == 0 {
            1int
        } else {
            0int
        }),
{
    vstd::arithmetic::div_mod::lemma_fundamental_div_mod(y, k);
    vstd::arithmetic::div_mod::lemma_fundamental_div_mod(y - 1, k);
    let q = y / k;
    let r = y % k;
    assert(y == k * q + r);
    if r == 0 {
        assert(y - 1 == (q - 1) * k + (k - 1)) by (nonlinear_arith)
            requires
                y == k * q + r,
                r == 0,
        ;
        vstd::arithmetic::div_mod::lemma_fundamental_div_mod_converse(y - 1, k, q - 1, k - 1);
    } else {
        assert(y - 1 == q * k + (r - 1)) by (nonlinear_arith)
            requires
                y == k * q + r,
        ;
        vstd::arithmetic::div_mod::lemma_fundamental_div_mod_converse(y - 1, k, q, r - 1);
    }
}

/// Each year starts right after the days of the year before it.
pub proof fn lemma_year_step(y: int)
    ensures
        days_before_year(y + 1) == days_before_year(y) + days_in_year(y),
{
    lemma_step_div(y, 4);
    lemma_step_div(y, 100);
    lemma_step_div(y, 400);
    assert(y % 400 == 0 ==> y % 100 == 0 && y % 4 == 0) by {
        if y % 400 == 0 {
            vstd::arithmetic::div_mod::lemma_fundamental_div_mod(y, 400);
            let q = y / 400;
            vstd::arithmetic::div_mod::lemma_fundamental_div_mod_converse(y, 100, 4 * q, 0);
            vstd::arithmetic::div_mod::lemma_fundamental_div_mod_converse(y, 4, 100 * q, 0);
        }
    }
    assert(y % 100 == 0 ==> y % 4 == 0) by {
        if y % 100 == 0 {
            vstd::arithmetic::div_mod::lemma_fundamental_div_mod(y, 100);
            let q = y / 100;
            vstd::arithmetic::div_mod::lemma_fundamental_div_mod_converse(y, 4, 25 * q, 0);
        }
    }
}

proof fn lemma_year_monotone(a: int, b: int)
    requires
        a <= b,
    ensures
        days_before_year(a) + 365 * (b - a) <= days_before_year(b),
    decreases b - a,
{
    if a < b {
        lemma_year_monotone(a, b - 1);
        lemma_year_step(b - 1);
    }
}

proof fn lemma_ordinal_bounds(y: int, m: int, d: int)
    requires
        1 <= m <= 12,
        1 <= d <= days_in_month(y, m),
    ensures
        days_before_year(y) < day_number(y, m, d) <= days_before_year(y + 1),
{
    lemma_year_step(y);
}

/// A valid date's day number lies in range, a year's length away from either
/// end unless it is in the first or last year.
pub proof fn lemma_valid_in_range(y: int, m: int, d: int)
    requires
        is_valid_ymd(y, m, d),
    ensures
        number_in_range(day_number(y, m, d)),
        y > MIN_YEAR ==> day_number(y, m, d) >= MIN_DAY_NUMBER + 365,
        y < MAX_YEAR ==> day_number(y, m, d) <= MAX_DAY_NUMBER - 365,
{
    lemma_ordinal_bounds(y, m, d);
    lemma_year_monotone(MIN_YEAR as int, y);
    lemma_year_monotone(y + 1, MAX_YEAR as int + 1);
}

/// Two calendar dates with the same day number are the same date.
pub proof fn lemma_day_number_injective(y1: int, m1: int, d1: int, y2: int, m2: int, d2: int)
    requires
        is_valid_ymd(y1, m1, d1),
        is_valid_ymd(y2, m2, d2),
        day_number(y1, m1, d1) == day_number(y2, m2, d2),
    ensures
        y1 == y2 && m1 == m2 && d1 == d2,
{
    lemma_ordinal_bounds(y1, m1, d1);
    lemma_ordinal_bounds(y2, m2, d2);
    if y1 < y2 {
        lemma_year_monotone(y1 + 1, y2);
    } else if y2 < y1 {
        lemma_year_monotone(y2 + 1, y1);
    }
    assert(y1 == y2);
}

/// The calendar date of a valid date's day number is that date.
pub proof fn lemma_ymd_of(y: int, m: int, d: int)
    requires
        is_valid_ymd(y, m, d),
    ensures
        ymd_of(day_number(y, m, d)) == (y, m, d),
{
    let n = day_number(y, m, d);
    assert(is_valid_ymd((y, m, d).0, (y, m, d).1, (y, m, d).2));
    let t = ymd_of(n);
    lemma_day_number_injective(t.0, t.1, t.2, y, m, d);
}

/// Relies on chrono's `NaiveDate::from_ymd_opt`, which gives `None` exactly for
/// a day that does not exist or lies outside its year range, and on
/// `NaiveDate::num_days_from_ce`, which counts days from January 1 of year 1 as day 1.
#[verifier::external_body]
fn chrono_day_number(y: i32, m: u32, d: u32) -> (r: Option<i32>)
    ensures
        r is Some <==> is_valid_ymd(y as int, m as int, d as int),
        r matches Some(n) ==> n == day_number(y as int, m as int, d as int),
{
    match NaiveDate::from_ymd_opt(y, m, d) {
        Some(date) => Some(date.num_days_from_ce()),
        None => None,
    }
}

/// Relies on chrono's `NaiveDate::from_num_days_from_ce_opt`, which gives the
/// date of a day number (January 1 of year 1 being day 1), or `None` outside its
/// range, and on `Datelike::{year, month, day}` to read that date.
#[verifier::external_body]
fn chrono_ymd(n: i32) -> (r: Option<(i32, u32, u32)>)
    ensures
        r is Some <==> number_in_range(n as int),
        r matches Some(t) ==> is_valid_ymd(t.0 as int, t.1 as int, t.2 as int) && day_number(
            t.0 as int,
            t.1 as int,
            t.2 as int,
        ) == n,
{
    match NaiveDate::from_num_days_from_ce_opt(n) {
        Some(date) => Some((date.year(), date.month(), date.day())),
        None => None,
    }
}

/// `x / k` rounded towards negative infinity.
pub(crate) fn floor_div(x: i64, k: i64) -> (q: i64)
    requires
        k > 0,
        -0x1_0000_0000 <= x <= 0x1_0000_0000,
    ensures
        q == x / k,
        -0x1_0000_0000 <= q <= 0x1_0000_0000,
{
    if x >= 0 {
        let q = ((x as u64) / (k as u64)) as i64;
        proof {
            vstd::arithmetic::div_mod::lemma_div_pos_is_pos(x as int, k as int);
            vstd::arithmetic::div_mod::lemma_div_is_ordered_by_denominator(x as int, 1, k as int);
        }
        q
    } else {
        let y: u64 = (-(x + 1)) as u64;
        let p = (y / (k as u64)) as i64;
        proof {
            let pi = y as int / k as int;
            let ri = y as int % k as int;
            vstd::arithmetic::div_mod::lemma_fundamental_div_mod(y as int, k as int);
            vstd::arithmetic::div_mod::lemma_div_is_ordered_by_denominator(y as int, 1, k as int);
            assert(x == (-pi - 1) * k + (k - ri - 1)) by (nonlinear_arith)
                requires
                    y == -(x + 1),
                    y == k * pi + ri,
            ;
            vstd::arithmetic::div_mod::lemma_fundamental_div_mod_converse(
                x as int,
                k as int,
                -pi - 1,
                k - ri - 1,
            );
        }
        -p - 1
    }
}

/// `x` modulo `k`, in `0..k`.
pub(crate) fn floor_mod(x: i64, k: i64) -> (r: i64)
    requires
        0 < k < 0x1_0000,
        -0x1_0000_0000 <= x <= 0x1_0000_0000,
    ensures
        r == x % k,
        0 <= r < k,
{
    let q = floor_div(x, k);
    proof {
        vstd::arithmetic::div_mod::lemma_fundamental_div_mod(x as int, k as int);
    }
    x - k * q
}

/// Whether `year` has a February 29.
pub fn is_leap(year: i32) -> (r: bool)
    ensures
        r == is_leap_year(year as int),
{
    let y = year as i64;
    floor_mod(y, 4) == 0 && (floor_mod(y, 100) != 0 || floor_mod(y, 400) == 0)
}

/// Number of days in `month` of `year`.
pub fn month_length(year: i32, month: u32) -> (r: u32)
    ensures
        r == days_in_month(year as int, month as int),
{
    if month == 2 {
        if is_leap(year) {
            29
        } else {
            28
        }
    } else if month == 4 || month == 6 || month == 9 || month == 11 {
        30
    } else {
        31
    }
}

/// A day of the week.
#[derive(Clone, Copy, Debug, PartialEq, Eq, Structural)]
pub enum Weekday {
    Mon,
    Tue,
    Wed,
    Thu,
    Fri,
    Sat,
    Sun,
}

impl Weekday {
    /// Position in the week, Monday being 0.
    pub open spec fn index(self) -> int {
        match self {
            Weekday::Mon => 0,
            Weekday::Tue => 1,
            Weekday::Wed => 2,
            Weekday::Thu => 3,
            Weekday::Fri => 4,
            Weekday::Sat => 5,
            Weekday::Sun => 6,
        }
    }

    pub fn num_days_from_monday(&self) -> (r: u32)
        ensures
            r == self.index(),
    {
        match self {
            Weekday::Mon => 0,
            Weekday::Tue => 1,
            Weekday::Wed => 2,
            Weekday::Thu => 3,
            Weekday::Fri => 4,
            Weekday::Sat => 5,
            Weekday::Sun => 6,
        }
    }

    pub fn from_index(i: u32) -> (r: Weekday)
        requires
            i < 7,
        ensures
            r.index() == i,
    {
        if i == 0 {
            Weekday::Mon
        } else if i == 1 {
            Weekday::Tue
        } else if i == 2 {
            Weekday::Wed
        } else if i == 3 {
            Weekday::Thu
        } else if i == 4 {
            Weekday::Fri
        } else if i == 5 {
            Weekday::Sat
        } else {
            Weekday::Sun
        }
    }
}

/// A calendar date, held as its day number.
#[derive(Clone, Copy, Debug, PartialEq, Eq, Structural)]
pub struct Date {
    num: i32,
}

impl Date {
    #[verifier::type_invariant]
    spec fn inv(self) -> bool {
        number_in_range(self.num as int)
    }

    /// The date's day number.
    pub closed spec fn days(self) -> int {
        self.num as int
    }

    /// The date whose day number is `n` (meaningful for `n` in range).
    pub closed spec fn from_days(n: int) -> Date {
        Date { num: n as i32 }
    }

    /// A date is the date of its own day number.
    pub proof fn lemma_from_days(d: Date)
        ensures
            Date::from_days(d.days()) == d,
    {
    }

    /// Dates are equal exactly when their day numbers are.
    pub proof fn lemma_eq_days(a: Date, b: Date)
        ensures
            a == b <==> a.days() == b.days(),
    {
    }

    /// The date of `(year, month, day)`, or `None` where that day does not
    /// exist or lies outside the years a `Date` can hold.
    pub fn from_ymd(year: i32, month: u32, day: u32) -> (r: Option<Date>)
        ensures
            r is Some <==> is_valid_ymd(year as int, month as int, day as int),
            r matches Some(d) ==> d.days() == day_number(year as int, month as int, day as int),
    {
        match chrono_day_number(year, month, day) {
            Some(n) => {
                proof {
                    lemma_valid_in_range(year as int, month as int, day as int);
                }
                Some(Date { num: n })
            },
            None => None,
        }
    }

    /// The date of day number `n`, or `None` outside the range a `Date` can hold.
    pub fn from_day_number(n: i32) -> (r: Option<Date>)
        ensures
            r is Some <==> number_in_range(n as int),
            r matches Some(d) ==> d.days() == n,
    {
        if MIN_DAY_NUMBER <= n && n <= MAX_DAY_NUMBER {
            Some(Date { num: n })
        } else {
            None
        }
    }

    /// The day number; January 1 of year 1 is day 1.
    pub fn day_number(&self) -> (r: i32)
        ensures
            r == self.days(),
            number_in_range(r as int),
    {
        proof {
            use_type_invariant(self);
        }
        self.num
    }

    /// Year, month and day of the date.
    pub fn ymd(&self) -> (r: (i32, u32, u32))
        ensures
            is_valid_ymd(r.0 as int, r.1 as int, r.2 as int),
            day_number(r.0 as int, r.1 as int, r.2 as int) == self.days(),
            (r.0 as int, r.1 as int, r.2 as int) == ymd_of(self.days()),
    {
        let n = self.day_number();
        match chrono_ymd(n) {
            Some(t) => {
                proof {
                    lemma_ymd_of(t.0 as int, t.1 as int, t.2 as int);
                }
                t
            },
            None => {
                proof {
                    assert(false);
                }
                (0, 0, 0)
            },
        }
    }

    pub fn year(&self) -> (r: i32)
        ensures
            r == year_of(self.days()),
            year_in_range(r as int),
    {
        self.ymd().0
    }

    pub fn month(&self) -> (r: u32)
        ensures
            r == month_of(self.days()),
            1 <= r <= 12,
    {
        self.ymd().1
    }

    pub fn day(&self) -> (r: u32)
        ensures
            r == day_of(self.days()),
            1 <= r <= 31,
    {
        self.ymd().2
    }

    pub fn weekday(&self) -> (r: Weekday)
        ensures
            r.index() == weekday_index(self.days()),
    {
        let n = self.day_number();
        let shifted: u64 = (n as i64 + 98_000_006) as u64;
        let i: u64 = shifted % 7;
        proof {
            assert(shifted as int == (n as int + 6) + 7 * 14_000_000);
            vstd::arithmetic::div_mod::lemma_mod_multiples_vanish(
                14_000_000,
                n as int + 6,
                7,
            );
        }
        Weekday::from_index(i as u32)
    }

    /// The date `k` days later (earlier for negative `k`), or `None` where that
    /// leaves the range a `Date` can hold.
    pub fn add_days(&self, k: i32) -> (r: Option<Date>)
        ensures
            r is Some <==> number_in_range(self.days() + k),
            r matches Some(d) ==> d.days() == self.days() + k,
    {
        let n = self.day_number() as i64 + k as i64;
        if MIN_DAY_NUMBER as i64 <= n && n <= MAX_DAY_NUMBER as i64 {
            Some(Date { num: n as i32 })
        } else {
            None
        }
    }

    /// The next day, or `None` after the last day a `Date` can hold.
    pub fn succ(&self) -> (r: Option<Date>)
        ensures
            r is Some <==> self.days() < MAX_DAY_NUMBER,
            r matches Some(d) ==> d.days() == self.days() + 1,
    {
        proof {
            use_type_invariant(self);
        }
        self.add_days(1)
    }

    /// The day before, or `None` before the first day a `Date` can hold.
    pub fn pred(&self) -> (r: Option<Date>)
        ensures
            r is Some <==> self.days() > MIN_DAY_NUMBER,
            r matches Some(d) ==> d.days() == self.days() - 1,
    {
        proof {
            use_type_invariant(self);
        }
        self.add_days(-1)
    }
}

} // verus!
