//! Errors of calendar construction and date resolution.
use crate::date::Weekday;
use crate::nth::NthWeek;
use crate::rule::Holiday;
use vstd::prelude::*;

verus! {

#[derive(Clone, Copy, Debug, PartialEq, Eq)]
pub enum CalendarError {
    /// The rule at `index` has a first year after its last year.
    InvalidRuleBounds { index: usize, rule: Holiday },
    /// The requested occurrence of a weekday does not lie in the month
    /// (or the month itself is not one a `Date` can hold).
    OutOfRange { year: i32, month: u32, weekday: Weekday, nth: NthWeek },
}

} // verus!
