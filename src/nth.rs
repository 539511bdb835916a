//! The nth (or last) occurrence of a weekday within a month.
use crate::date::{
    day_number, days_in_month, is_valid_ymd, lemma_ymd_of, month_length, month_of,
    weekday_index, year_in_range, year_of, Date, Weekday,
};
use crate::error::CalendarError;
use vstd::prelude::*;

verus! {

/// Which occurrence of a weekday within a month.
#[derive(Clone, Copy, Debug, PartialEq, Eq, Structural)]
pub enum NthWeek {
    First,
    Second,
    Third,
    Fourth,
    Last,
}

impl NthWeek {
    /// Whole weeks after the first occurrence (for `First` to `Fourth`).
    pub open spec fn weeks_after_first(self) -> int {
        match self {
            NthWeek::First => 0,
            NthWeek::Second => 1,
            NthWeek::Third => 2,
            NthWeek::Fourth => 3,
            NthWeek::Last => 0,
        }
    }
}

/// The month exists and lies within the years a `Date` can hold.
pub open spec fn month_in_range(y: int, m: int) -> bool {
    year_in_range(y) && 1 <= m <= 12
}

/// Day number of the `nth` occurrence of `w` in month `m` of year `y`.
pub open spec fn nth_weekday_number(y: int, m: int, w: Weekday, nth: NthWeek) -> int {
    let first = day_number(y, m, 1);
    let last = day_number(y, m, days_in_month(y, m));
    match nth {
        NthWeek::Last => last - (weekday_index(last) - w.index()) % 7,
        _ => first + (w.index() - weekday_index(first)) % 7 + 7 * nth.weeks_after_first(),
    }
}

/// The `nth` occurrence of `weekday` in `month` of `year`.
///
/// Fails with `OutOfRange` for a month that does not exist or lies outside
/// the years a `Date` can hold; the result is checked to lie in the month.
pub fn nth_weekday(year: i32, month: u32, weekday: Weekday, nth: NthWeek) -> (r: Result<
    Date,
    CalendarError,
>)
    ensures
        r is Ok <==> month_in_range(year as int, month as int),
        r matches Ok(d) ==> d.days() == nth_weekday_number(year as int, month as int, weekday, nth),
        r matches Ok(d) ==> year_of(d.days()) == year && month_of(d.days()) == month,
        r matches Err(e) ==> e == (CalendarError::OutOfRange { year, month, weekday, nth }),
{
    let err = CalendarError::OutOfRange { year, month, weekday, nth };
    if month < 1 || month > 12 {
        return Err(err);
    }
    let first = match Date::from_ymd(year, month, 1) {
        Some(d) => d,
        None => return Err(err),
    };
    let len = month_length(year, month);
    let w = weekday.num_days_from_monday();
    let (day, found) = match nth {
        NthWeek::Last => {
            let last = first.add_days((len - 1) as i32).unwrap();
            let gap = (last.weekday().num_days_from_monday() + 7 - w) % 7;
            proof {
                vstd::arithmetic::div_mod::lemma_mod_add_multiples_vanish(
                    weekday_index(last.days()) - weekday.index(),
                    7,
                );
            }
            (len - gap, last.add_days(-(gap as i32)).unwrap())
        },
        _ => {
            let k: u32 = match nth {
                NthWeek::First => 0,
                NthWeek::Second => 1,
                NthWeek::Third => 2,
                _ => 3,
            };
            let off = (w + 7 - first.weekday().num_days_from_monday()) % 7 + 7 * k;
            proof {
                vstd::arithmetic::div_mod::lemma_mod_add_multiples_vanish(
                    weekday.index() - weekday_index(first.days()),
                    7,
                );
            }
            (1 + off, first.add_days(off as i32).unwrap())
        },
    };
    proof {
        assert(found.days() == day_number(year as int, month as int, day as int));
        assert(is_valid_ymd(year as int, month as int, day as int));
        lemma_ymd_of(year as int, month as int, day as int);
    }
    if found.month() != month || found.year() != year {
        return Err(err);
    }
    Ok(found)
}

} // verus!
