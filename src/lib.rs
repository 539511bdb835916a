//! Business-day calendars built from declarative holiday rules.
//!
//! Rules (fixed days, weekend-shifted days, nth weekdays of a month, days
//! relative to Easter, one-off closures and weekly closures) are resolved per
//! year into concrete dates; a `Calendar` memoises those per year and answers
//! holiday and business-day queries and business-day arithmetic.
use vstd::prelude::*;

pub mod date;
pub mod error;
pub mod easter;
pub mod nth;
pub mod rule;
pub mod calendar;
pub mod calendar_definitions;
