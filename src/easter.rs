//! Easter Sunday in the Gregorian calendar.
use crate::date::{
    day_number, floor_div, floor_mod, is_valid_ymd, year_in_range, Date,
};
use vstd::prelude::*;

verus! {

/// Month and day of Gregorian Easter Sunday in year `y` (the anonymous
/// Gregorian algorithm, with floor division for years before 1).
pub open spec fn easter_month_day(y: int) -> (int, int) {
    let a = y % 19;
    let b = y / 100;
    let c = y % 100;
    let d = b / 4;
    let e = b % 4;
    let f = (b + 8) / 25;
    let g = (b - f + 1) / 3;
    let h = (19 * a + b - d - g + 15) % 30;
    let i = c / 4;
    let k = c % 4;
    let l = (32 + 2 * e + 2 * i - h - k) % 7;
    let m = (a + 11 * h + 22 * l) / 451;
    let n = h + l - 7 * m + 114;
    (n / 31, n % 31 + 1)
}

/// Easter Sunday never falls before March 22 nor after April 25.
pub proof fn lemma_easter_window(y: int)
    ensures
        ({
            let (m, d) = easter_month_day(y);
            (m == 3 && 22 <= d <= 31) || (m == 4 && 1 <= d <= 25)
        }),
{
    let a = y % 19;
    let b = y / 100;
    let c = y % 100;
    let d = b / 4;
    let e = b % 4;
    let f = (b + 8) / 25;
    let g = (b - f + 1) / 3;
    let h = (19 * a + b - d - g + 15) % 30;
    let i = c / 4;
    let k = c % 4;
    let l = (32 + 2 * e + 2 * i - h - k) % 7;
    let s = a + 11 * h + 22 * l;
    let m = s / 451;
    assert(0 <= a < 19 && 0 <= h < 30 && 0 <= l < 7);
    assert(0 <= s < 902);
    assert(m == 0 || m == 1);
    assert(m == 1 ==> h >= 28 && l >= 6);
    let n = h + l - 7 * m + 114;
    assert(114 <= n <= 148);
}

/// Month and day of Easter Sunday in `year`.
pub fn easter_month_and_day(year: i32) -> (r: (u32, u32))
    ensures
        r.0 as int == easter_month_day(year as int).0,
        r.1 as int == easter_month_day(year as int).1,
{
    let y = year as i64;
    let a = floor_mod(y, 19);
    let b = floor_div(y, 100);
    let c = floor_mod(y, 100);
    let d = floor_div(b, 4);
    let e = floor_mod(b, 4);
    let f = floor_div(b + 8, 25);
    let g = floor_div(b - f + 1, 3);
    let h = floor_mod(19 * a + b - d - g + 15, 30);
    let i = c / 4;
    let k = c % 4;
    let l = floor_mod(32 + 2 * e + 2 * i - h - k, 7);
    let m = (a + 11 * h + 22 * l) / 451;
    let n = h + l - 7 * m + 114;
    proof {
        lemma_easter_window(year as int);
    }
    ((n / 31) as u32, (n % 31 + 1) as u32)
}

/// Easter Sunday of `year`.
pub fn easter_sunday(year: i32) -> (r: Date)
    requires
        year_in_range(year as int),
    ensures
        r.days() == day_number(
            year as int,
            easter_month_day(year as int).0,
            easter_month_day(year as int).1,
        ),
        day_number(year as int, 3, 22) <= r.days() <= day_number(year as int, 4, 25),
{
    let (m, d) = easter_month_and_day(year);
    proof {
        lemma_easter_window(year as int);
        assert(is_valid_ymd(year as int, m as int, d as int));
    }
    match Date::from_ymd(year, m, d) {
        Some(date) => date,
        None => {
            proof {
                assert(false);
            }
            Date::from_ymd(year, 1, 1).unwrap()
        },
    }
}

} // verus!
