//! Holiday rules and their resolution to concrete dates.
use crate::date::{
    day_number, is_valid_ymd, lemma_valid_in_range, number_in_range, weekday_index,
    year_in_range, year_of, Date, Weekday, MAX_YEAR, MIN_YEAR,
};
use crate::easter::{easter_month_day, easter_sunday, lemma_easter_window};
use crate::nth::{month_in_range, nth_weekday, nth_weekday_number, NthWeek};
use vstd::prelude::*;

verus! {

/// One declarative holiday rule. `first` and `last` are optional inclusive
/// bounds on the years in which the rule is in effect.
#[derive(Clone, Copy, Debug, PartialEq, Eq)]
pub enum Holiday {
    /// Every occurrence of this weekday.
    WeekDay(Weekday),
    /// The same month and day every year, never shifted.
    YearlyDay { month: u32, day: u32, first: Option<i32>, last: Option<i32> },
    /// A fixed day that moves to the following Monday from a Saturday or Sunday.
    MovableYearlyDay { month: u32, day: u32, first: Option<i32>, last: Option<i32> },
    /// A fixed day that moves to the Friday before from a Saturday, and to the
    /// Monday after from a Sunday.
    ModifiedMovableYearlyDay { month: u32, day: u32, first: Option<i32>, last: Option<i32> },
    /// The nth (or last) occurrence of a weekday within a month.
    MonthWeekday {
        month: u32,
        weekday: Weekday,
        nth: NthWeek,
        first: Option<i32>,
        last: Option<i32>,
    },
    /// Easter Sunday moved by `offset` days.
    EasterOffset { offset: i32, first: Option<i32>, last: Option<i32> },
    /// A one-off closure.
    SingularDay(Date),
}

pub open spec fn within_bounds(first: Option<i32>, last: Option<i32>, y: int) -> bool {
    &&& (first matches Some(f) ==> f <= y)
    &&& (last matches Some(l) ==> y <= l)
}

pub open spec fn ordered_bounds(first: Option<i32>, last: Option<i32>) -> bool {
    match (first, last) {
        (Some(f), Some(l)) => f <= l,
        _ => true,
    }
}

/// `Some(n)` where day number `n` lies in the range a `Date` can hold.
pub open spec fn in_range(n: int) -> Option<int> {
    if number_in_range(n) {
        Some(n)
    } else {
        None
    }
}

/// The day number of `d`, if any.
pub open spec fn days_of(d: Option<Date>) -> Option<int> {
    match d {
        Some(x) => Some(x.days()),
        None => None,
    }
}

/// Where a fixed day `n` is observed under the Monday-only convention.
pub open spec fn shift_to_monday(n: int) -> int {
    if weekday_index(n) == 5 {
        n + 2
    } else if weekday_index(n) == 6 {
        n + 1
    } else {
        n
    }
}

/// Where a fixed day `n` is observed under the nearest-weekday convention.
pub open spec fn shift_to_nearest(n: int) -> int {
    if weekday_index(n) == 5 {
        n - 1
    } else if weekday_index(n) == 6 {
        n + 1
    } else {
        n
    }
}

impl Holiday {
    /// The year bounds, where both present, are in order.
    pub open spec fn has_valid_bounds(self) -> bool {
        match self {
            Holiday::YearlyDay { first, last, .. } => ordered_bounds(first, last),
            Holiday::MovableYearlyDay { first, last, .. } => ordered_bounds(first, last),
            Holiday::ModifiedMovableYearlyDay { first, last, .. } => ordered_bounds(first, last),
            Holiday::MonthWeekday { first, last, .. } => ordered_bounds(first, last),
            Holiday::EasterOffset { first, last, .. } => ordered_bounds(first, last),
            _ => true,
        }
    }

    /// The rule is in effect in year `y`: within its bounds, or, for a
    /// one-off closure, the year of its date.
    pub open spec fn applies_to(self, y: int) -> bool {
        match self {
            Holiday::WeekDay(_) => true,
            Holiday::YearlyDay { first, last, .. } => within_bounds(first, last, y),
            Holiday::MovableYearlyDay { first, last, .. } => within_bounds(first, last, y),
            Holiday::ModifiedMovableYearlyDay { first, last, .. } => within_bounds(first, last, y),
            Holiday::MonthWeekday { first, last, .. } => within_bounds(first, last, y),
            Holiday::EasterOffset { first, last, .. } => within_bounds(first, last, y),
            Holiday::SingularDay(d) => year_of(d.days()) == y,
        }
    }

    /// The day number that the rule gives in year `y`, if any. A weekly rule
    /// gives none: it is a test on each date instead.
    #[verifier::opaque]
    pub open spec fn resolved(self, y: int) -> Option<int> {
        if !self.applies_to(y) {
            None
        } else {
            match self {
                Holiday::WeekDay(_) => None,
                Holiday::YearlyDay { month, day, .. } => if is_valid_ymd(y, month as int, day as int) {
                    Some(day_number(y, month as int, day as int))
                } else {
                    None
                },
                Holiday::MovableYearlyDay { month, day, .. } => if is_valid_ymd(
                    y,
                    month as int,
                    day as int,
                ) {
                    in_range(shift_to_monday(day_number(y, month as int, day as int)))
                } else {
                    None
                },
                Holiday::ModifiedMovableYearlyDay { month, day, .. } => if is_valid_ymd(
                    y,
                    month as int,
                    day as int,
                ) {
                    in_range(shift_to_nearest(day_number(y, month as int, day as int)))
                } else {
                    None
                },
                Holiday::MonthWeekday { month, weekday, nth, .. } => if month_in_range(
                    y,
                    month as int,
                ) {
                    Some(nth_weekday_number(y, month as int, weekday, nth))
                } else {
                    None
                },
                Holiday::EasterOffset { offset, .. } => if year_in_range(y) {
                    in_range(
                        day_number(y, easter_month_day(y).0, easter_month_day(y).1) + offset,
                    )
                } else {
                    None
                },
                Holiday::SingularDay(d) => Some(d.days()),
            }
        }
    }

    /// The rule's nominal day exists in year `y`: its month and day for the
    /// fixed-day rules, its month for a weekday-of-month rule, an offset of
    /// at most a year for an Easter rule, always for a one-off closure.
    pub open spec fn exists_in(self, y: int) -> bool {
        match self {
            Holiday::WeekDay(_) => false,
            Holiday::YearlyDay { month, day, .. } => is_valid_ymd(y, month as int, day as int),
            Holiday::MovableYearlyDay { month, day, .. } => is_valid_ymd(y, month as int, day as int),
            Holiday::ModifiedMovableYearlyDay { month, day, .. } => is_valid_ymd(
                y,
                month as int,
                day as int,
            ),
            Holiday::MonthWeekday { month, .. } => 1 <= month <= 12,
            Holiday::EasterOffset { offset, .. } => -365 <= offset <= 365,
            Holiday::SingularDay(_) => true,
        }
    }

    /// Checks that the year bounds, where both present, are in order.
    pub fn bounds_are_valid(&self) -> (r: bool)
        ensures
            r == self.has_valid_bounds(),
    {
        let (first, last) = match self {
            Holiday::YearlyDay { first, last, .. } => (*first, *last),
            Holiday::MovableYearlyDay { first, last, .. } => (*first, *last),
            Holiday::ModifiedMovableYearlyDay { first, last, .. } => (*first, *last),
            Holiday::MonthWeekday { first, last, .. } => (*first, *last),
            Holiday::EasterOffset { first, last, .. } => (*first, *last),
            _ => (None, None),
        };
        match (first, last) {
            (Some(f), Some(l)) => f <= l,
            _ => true,
        }
    }
}

fn bounds_hold(first: Option<i32>, last: Option<i32>, year: i32) -> (r: bool)
    ensures
        r == within_bounds(first, last, year as int),
{
    let after_first = match first {
        Some(f) => year >= f,
        None => true,
    };
    let before_last = match last {
        Some(l) => year <= l,
        None => true,
    };
    after_first && before_last
}

/// The date that `rule` gives in `year`, if any.
pub fn resolve(rule: &Holiday, year: i32) -> (r: Option<Date>)
    ensures
        days_of(r) == rule.resolved(year as int),
{
    reveal(Holiday::resolved);
    match rule {
        Holiday::WeekDay(_) => None,
        Holiday::YearlyDay { month, day, first, last } => {
            if !bounds_hold(*first, *last, year) {
                return None;
            }
            Date::from_ymd(year, *month, *day)
        },
        Holiday::MovableYearlyDay { month, day, first, last } => {
            if !bounds_hold(*first, *last, year) {
                return None;
            }
            let nominal = match Date::from_ymd(year, *month, *day) {
                Some(d) => d,
                None => return None,
            };
            let w = nominal.weekday();
            if w == Weekday::Sat {
                nominal.add_days(2)
            } else if w == Weekday::Sun {
                nominal.add_days(1)
            } else {
                Some(nominal)
            }
        },
        Holiday::ModifiedMovableYearlyDay { month, day, first, last } => {
            if !bounds_hold(*first, *last, year) {
                return None;
            }
            let nominal = match Date::from_ymd(year, *month, *day) {
                Some(d) => d,
                None => return None,
            };
            let w = nominal.weekday();
            if w == Weekday::Sat {
                nominal.add_days(-1)
            } else if w == Weekday::Sun {
                nominal.add_days(1)
            } else {
                Some(nominal)
            }
        },
        Holiday::MonthWeekday { month, weekday, nth, first, last } => {
            if !bounds_hold(*first, *last, year) {
                return None;
            }
            match nth_weekday(year, *month, *weekday, *nth) {
                Ok(d) => Some(d),
                Err(_) => None,
            }
        },
        Holiday::EasterOffset { offset, first, last } => {
            if !bounds_hold(*first, *last, year) {
                return None;
            }
            if year < MIN_YEAR || year > MAX_YEAR {
                return None;
            }
            easter_sunday(year).add_days(*offset)
        },
        Holiday::SingularDay(d) => {
            if d.year() == year {
                Some(*d)
            } else {
                None
            }
        },
    }
}

/// A rule gives no date in a year outside its bounds, and gives one in every
/// year inside them in which its nominal day exists (away from the first and
/// last year a `Date` can hold, where a shift could leave the range).
pub proof fn lemma_resolved_within_bounds(rule: Holiday, y: int)
    requires
        MIN_YEAR < y < MAX_YEAR,
    ensures
        !rule.applies_to(y) ==> rule.resolved(y) is None,
        rule.applies_to(y) && rule.exists_in(y) ==> rule.resolved(y) is Some,
{
    reveal(Holiday::resolved);
    match rule {
        Holiday::YearlyDay { month, day, .. } => {
            if is_valid_ymd(y, month as int, day as int) {
                lemma_valid_in_range(y, month as int, day as int);
            }
        },
        Holiday::MovableYearlyDay { month, day, .. } => {
            if is_valid_ymd(y, month as int, day as int) {
                lemma_valid_in_range(y, month as int, day as int);
            }
        },
        Holiday::ModifiedMovableYearlyDay { month, day, .. } => {
            if is_valid_ymd(y, month as int, day as int) {
                lemma_valid_in_range(y, month as int, day as int);
            }
        },
        Holiday::EasterOffset { offset, .. } => {
            lemma_easter_window(y);
            lemma_valid_in_range(y, easter_month_day(y).0, easter_month_day(y).1);
        },
        _ => {},
    }
}

} // verus!
