//! A queryable business-day calendar over a set of holiday rules, with
//! per-year memoised resolution and business-day arithmetic.
use crate::date::{number_in_range, weekday_index, year_of, Date, MAX_DAY_NUMBER, MIN_DAY_NUMBER};
use crate::error::CalendarError;
use crate::rule::{days_of, resolve, Holiday};
use std::collections::HashMap;
use vstd::prelude::*;

verus! {

/// `rule` is a weekly rule that closes the weekday of day `n`.
pub open spec fn closes_weekday(rule: Holiday, n: int) -> bool {
    match rule {
        Holiday::WeekDay(w) => w.index() == weekday_index(n),
        _ => false,
    }
}

/// Some weekly rule closes the weekday of day `n`.
pub open spec fn closed_weekly(rules: Seq<Holiday>, n: int) -> bool {
    exists|i: int| 0 <= i < rules.len() && closes_weekday(#[trigger] rules[i], n)
}

/// Some rule gives day `n` when resolved for year `y`.
pub open spec fn given_in_year(rules: Seq<Holiday>, y: int, n: int) -> bool {
    exists|i: int| 0 <= i < rules.len() && #[trigger] rules[i].resolved(y) == Some(n)
}

/// Day `n` is a holiday: a weekly rule closes it, or a rule resolved for its
/// year, or for the year before or after (a shift may cross New Year), gives it.
pub open spec fn is_holiday_in(rules: Seq<Holiday>, n: int) -> bool {
    let y = year_of(n);
    closed_weekly(rules, n) || given_in_year(rules, y - 1, n) || given_in_year(rules, y, n)
        || given_in_year(rules, y + 1, n)
}

/// Day `n` is a business day: not a holiday.
pub open spec fn is_business_in(rules: Seq<Holiday>, n: int) -> bool {
    !is_holiday_in(rules, n)
}

/// The first business day at or after day `x`, if one lies in range.
pub open spec fn next_from(rules: Seq<Holiday>, x: int) -> Option<int>
    decreases MAX_DAY_NUMBER + 1 - x,
{
    if x > MAX_DAY_NUMBER {
        None
    } else if is_business_in(rules, x) {
        Some(x)
    } else {
        next_from(rules, x + 1)
    }
}

/// The last business day at or before day `x`, if one lies in range.
pub open spec fn prev_from(rules: Seq<Holiday>, x: int) -> Option<int>
    decreases x - MIN_DAY_NUMBER + 1,
{
    if x < MIN_DAY_NUMBER {
        None
    } else if is_business_in(rules, x) {
        Some(x)
    } else {
        prev_from(rules, x - 1)
    }
}

/// The first business day strictly after day `n`.
pub open spec fn next_business(rules: Seq<Holiday>, n: int) -> Option<int> {
    next_from(rules, n + 1)
}

/// The last business day strictly before day `n`.
pub open spec fn prev_business(rules: Seq<Holiday>, n: int) -> Option<int> {
    prev_from(rules, n - 1)
}

/// Day `n` moved by `k` business days: `k` steps to the next business day,
/// or `-k` steps to the previous one; `None` where a step leaves the range.
pub open spec fn business_days_added(rules: Seq<Holiday>, n: int, k: int) -> Option<int>
    decreases (if k < 0 {
        -k
    } else {
        k
    }),
{
    if k == 0 {
        Some(n)
    } else if k > 0 {
        match business_days_added(rules, n, k - 1) {
            Some(m) => next_business(rules, m),
            None => None,
        }
    } else {
        match prev_business(rules, n) {
            Some(m) => business_days_added(rules, m, k + 1),
            None => None,
        }
    }
}

/// Number of business days in the half-open range of days `[a, b)`.
pub open spec fn business_days_in(rules: Seq<Holiday>, a: int, b: int) -> int
    decreases b - a,
{
    if b <= a {
        0
    } else {
        business_days_in(rules, a, b - 1) + if is_business_in(rules, b - 1) {
            1int
        } else {
            0int
        }
    }
}

/// Business days in `[a, b)`, or minus those in `[b, a)` where `b < a`.
pub open spec fn business_days_count(rules: Seq<Holiday>, a: int, b: int) -> int {
    if a <= b {
        business_days_in(rules, a, b)
    } else {
        -business_days_in(rules, b, a)
    }
}

/// Every rule's year bounds, where both present, are in order.
pub open spec fn all_bounds_valid(rules: Seq<Holiday>) -> bool {
    forall|i: int| 0 <= i < rules.len() ==> (#[trigger] rules[i]).has_valid_bounds()
}

/// `v` holds, for each rule in order, the date it gives in year `y`.
pub open spec fn year_entry_ok(rules: Seq<Holiday>, y: int, v: Seq<Option<Date>>) -> bool {
    &&& v.len() == rules.len()
    &&& forall|i: int| 0 <= i < v.len() ==> days_of(#[trigger] v[i]) == rules[i].resolved(y)
}

/// A set of holiday rules with a memo of the dates they give per year.
pub struct Calendar {
    rules: Vec<Holiday>,
    resolved_years: HashMap<i32, Vec<Option<Date>>>,
}

/// Builds a calendar over `rules`, rejecting the first rule whose year bounds
/// are out of order.
pub fn build_calendar(rules: Vec<Holiday>) -> (r: Result<Calendar, CalendarError>)
    ensures
        r is Ok <==> all_bounds_valid(rules@),
        r matches Ok(c) ==> c.wf() && c.rule_seq() == rules@,
        r matches Err(e) ==> e matches CalendarError::InvalidRuleBounds { index, rule } && index
            < rules@.len() && rule == rules@[index as int] && !rule.has_valid_bounds() && forall|
            j: int,
        | 0 <= j < index ==> (#[trigger] rules@[j]).has_valid_bounds(),
{
    Calendar::new(rules)
}

impl Calendar {
    pub closed spec fn rule_seq(self) -> Seq<Holiday> {
        self.rules@
    }

    pub closed spec fn wf(self) -> bool {
        &&& all_bounds_valid(self.rules@)
        &&& forall|y: i32| #[trigger]
            self.resolved_years@.contains_key(y) ==> year_entry_ok(
                self.rules@,
                y as int,
                self.resolved_years@[y]@,
            )
    }

    /// Builds a calendar over `rules`, rejecting the first rule whose year
    /// bounds are out of order.
    pub fn new(rules: Vec<Holiday>) -> (r: Result<Calendar, CalendarError>)
        ensures
            r is Ok <==> all_bounds_valid(rules@),
            r matches Ok(c) ==> c.wf() && c.rule_seq() == rules@,
            r matches Err(e) ==> e matches CalendarError::InvalidRuleBounds { index, rule } && index
                < rules@.len() && rule == rules@[index as int] && !rule.has_valid_bounds()
                && forall|j: int| 0 <= j < index ==> (#[trigger] rules@[j]).has_valid_bounds(),
    {
        let mut i: usize = 0;
        while i < rules.len()
            invariant
                i <= rules@.len(),
                forall|j: int| 0 <= j < i ==> (#[trigger] rules@[j]).has_valid_bounds(),
            decreases rules@.len() - i,
        {
            if !rules[i].bounds_are_valid() {
                return Err(CalendarError::InvalidRuleBounds { index: i, rule: rules[i] });
            }
            i += 1;
        }
        Ok(Calendar { rules, resolved_years: HashMap::new() })
    }

    /// The calendar's rules, in the order given.
    pub fn rules(&self) -> (r: &Vec<Holiday>)
        ensures
            r@ == self.rule_seq(),
    {
        &self.rules
    }

    /// Makes sure the dates of `year` are in the memo.
    fn resolve_year(&mut self, year: i32)
        requires
            old(self).wf(),
        ensures
            final(self).wf(),
            final(self).rule_seq() == old(self).rule_seq(),
            final(self).resolved_years@.contains_key(year),
    {
        if self.resolved_years.contains_key(&year) {
            return;
        }
        let mut v: Vec<Option<Date>> = Vec::new();
        let mut i: usize = 0;
        while i < self.rules.len()
            invariant
                i <= self.rules@.len(),
                v@.len() == i,
                forall|k: int| 0 <= k < i ==> days_of(#[trigger] v@[k]) == self.rules@[k].resolved(
                    year as int,
                ),
            decreases self.rules@.len() - i,
        {
            let d = resolve(&self.rules[i], year);
            v.push(d);
            i += 1;
        }
        self.resolved_years.insert(year, v);
    }

    /// Whether some rule resolved for `year` gives `date`.
    fn given_in(&mut self, year: i32, date: Date) -> (r: bool)
        requires
            old(self).wf(),
        ensures
            final(self).wf(),
            final(self).rule_seq() == old(self).rule_seq(),
            r == given_in_year(old(self).rule_seq(), year as int, date.days()),
    {
        self.resolve_year(year);
        let entry = match self.resolved_years.get(&year) {
            Some(v) => v,
            None => {
                proof {
                    assert(false);
                }
                return false;
            },
        };
        proof {
            assert(year_entry_ok(self.rules@, year as int, entry@));
        }
        let mut i: usize = 0;
        while i < entry.len()
            invariant
                self.wf(),
                self.rule_seq() == old(self).rule_seq(),
                i <= entry@.len(),
                year_entry_ok(self.rules@, year as int, entry@),
                forall|k: int| 0 <= k < i ==> days_of(#[trigger] entry@[k]) != Some(date.days()),
            decreases entry@.len() - i,
        {
            if let Some(d) = entry[i] {
                if d == date {
                    proof {
                        assert(self.rules@[i as int].resolved(year as int) == Some(date.days()));
                    }
                    return true;
                }
                proof {
                    Date::lemma_eq_days(d, date);
                }
            }
            i += 1;
        }
        proof {
            assert forall|k: int| 0 <= k < self.rules@.len() implies #[trigger] self.rules@[k].resolved(
                year as int,
            ) != Some(date.days()) by {
                assert(days_of(entry@[k]) != Some(date.days()));
            }
        }
        false
    }

    /// Whether `date` is a holiday: its weekday is closed by a weekly rule,
    /// or a rule gives it in its own year or in the year before or after.
    pub fn is_holiday(&mut self, date: Date) -> (r: bool)
        requires
            old(self).wf(),
        ensures
            final(self).wf(),
            final(self).rule_seq() == old(self).rule_seq(),
            r == is_holiday_in(old(self).rule_seq(), date.days()),
    {
        let w = date.weekday();
        let mut i: usize = 0;
        while i < self.rules.len()
            invariant
                self.wf(),
                self.rule_seq() == old(self).rule_seq(),
                i <= self.rules@.len(),
                w.index() == weekday_index(date.days()),
                forall|k: int| 0 <= k < i ==> !closes_weekday(#[trigger] self.rules@[k], date.days()),
            decreases self.rules@.len() - i,
        {
            if let Holiday::WeekDay(x) = self.rules[i] {
                if x == w {
                    proof {
                        assert(closes_weekday(self.rules@[i as int], date.days()));
                    }
                    return true;
                }
            }
            i += 1;
        }
        let y = date.year();
        self.given_in(y - 1, date) || self.given_in(y, date) || self.given_in(y + 1, date)
    }

    /// Whether `date` is a business day, that is, not a holiday.
    pub fn is_business_day(&mut self, date: Date) -> (r: bool)
        requires
            old(self).wf(),
        ensures
            final(self).wf(),
            final(self).rule_seq() == old(self).rule_seq(),
            r == is_business_in(old(self).rule_seq(), date.days()),
    {
        !self.is_holiday(date)
    }

    /// The first business day after `date`, or `None` if none lies in the
    /// range a `Date` can hold.
    pub fn next_business_day(&mut self, date: Date) -> (r: Option<Date>)
        requires
            old(self).wf(),
        ensures
            final(self).wf(),
            final(self).rule_seq() == old(self).rule_seq(),
            days_of(r) == next_business(old(self).rule_seq(), date.days()),
    {
        let mut cur = date;
        // Reading the day number brings in that it lies in range.
        let _ = cur.day_number();
        loop
            invariant
                self.wf(),
                self.rule_seq() == old(self).rule_seq(),
                number_in_range(cur.days()),
                next_business(self.rule_seq(), date.days()) == next_from(self.rule_seq(), cur.days() + 1),
            decreases MAX_DAY_NUMBER - cur.days(),
        {
            match cur.succ() {
                None => return None,
                Some(c) => {
                    cur = c;
                    if self.is_business_day(cur) {
                        return Some(cur);
                    }
                },
            }
        }
    }

    /// The last business day before `date`, or `None` if none lies in the
    /// range a `Date` can hold.
    pub fn previous_business_day(&mut self, date: Date) -> (r: Option<Date>)
        requires
            old(self).wf(),
        ensures
            final(self).wf(),
            final(self).rule_seq() == old(self).rule_seq(),
            days_of(r) == prev_business(old(self).rule_seq(), date.days()),
    {
        let mut cur = date;
        // Reading the day number brings in that it lies in range.
        let _ = cur.day_number();
        loop
            invariant
                self.wf(),
                self.rule_seq() == old(self).rule_seq(),
                number_in_range(cur.days()),
                prev_business(self.rule_seq(), date.days()) == prev_from(self.rule_seq(), cur.days() - 1),
            decreases cur.days() - MIN_DAY_NUMBER,
        {
            match cur.pred() {
                None => return None,
                Some(c) => {
                    cur = c;
                    if self.is_business_day(cur) {
                        return Some(cur);
                    }
                },
            }
        }
    }

    /// `date` moved by `n` business days: forward for positive `n`, backward
    /// for negative `n`, unchanged for zero; `None` where that leaves the range
    /// a `Date` can hold.
    pub fn add_business_days(&mut self, date: Date, n: i64) -> (r: Option<Date>)
        requires
            old(self).wf(),
        ensures
            final(self).wf(),
            final(self).rule_seq() == old(self).rule_seq(),
            days_of(r) == business_days_added(old(self).rule_seq(), date.days(), n as int),
    {
        let mut cur = date;
        if n >= 0 {
            let mut i: i64 = 0;
            while i < n
                invariant
                    self.wf(),
                    self.rule_seq() == old(self).rule_seq(),
                    0 <= i <= n,
                    business_days_added(self.rule_seq(), date.days(), i as int) == Some(cur.days()),
                decreases n - i,
            {
                match self.next_business_day(cur) {
                    Some(c) => cur = c,
                    None => {
                        proof {
                            lemma_added_none_stays(self.rule_seq(), date.days(), i + 1, n as int);
                        }
                        return None;
                    },
                }
                i += 1;
            }
            Some(cur)
        } else {
            let mut k: i64 = n;
            while k < 0
                invariant
                    self.wf(),
                    self.rule_seq() == old(self).rule_seq(),
                    n <= k <= 0,
                    business_days_added(self.rule_seq(), date.days(), n as int)
                        == business_days_added(self.rule_seq(), cur.days(), k as int),
                decreases -k,
            {
                match self.previous_business_day(cur) {
                    Some(c) => cur = c,
                    None => return None,
                }
                k += 1;
            }
            Some(cur)
        }
    }

    /// Business days in the half-open range `[start, end)`; where `end` comes
    /// before `start`, minus the business days in `[end, start)`.
    pub fn business_days_between(&mut self, start: Date, end: Date) -> (r: i64)
        requires
            old(self).wf(),
        ensures
            final(self).wf(),
            final(self).rule_seq() == old(self).rule_seq(),
            r == business_days_count(old(self).rule_seq(), start.days(), end.days()),
    {
        let forward = start.day_number() <= end.day_number();
        let (a, b) = if forward {
            (start, end)
        } else {
            (end, start)
        };
        let _ = a.day_number();
        let stop = b.day_number();
        let mut cur = a;
        let mut count: i64 = 0;
        while cur.day_number() < stop
            invariant
                self.wf(),
                self.rule_seq() == old(self).rule_seq(),
                stop == b.days(),
                number_in_range(a.days()),
                number_in_range(b.days()),
                a.days() <= cur.days() <= b.days(),
                count == business_days_in(self.rule_seq(), a.days(), cur.days()),
                0 <= count <= cur.days() - a.days(),
            decreases b.days() - cur.days(),
        {
            if self.is_business_day(cur) {
                count += 1;
            }
            cur = cur.succ().unwrap();
        }
        if forward {
            count
        } else {
            -count
        }
    }
}

proof fn lemma_added_none_stays(rules: Seq<Holiday>, n: int, i: int, k: int)
    requires
        0 < i <= k,
        business_days_added(rules, n, i) is None,
    ensures
        business_days_added(rules, n, k) is None,
    decreases k - i,
{
    if i < k {
        lemma_added_none_stays(rules, n, i, k - 1);
    }
}

proof fn lemma_next_from(rules: Seq<Holiday>, x: int)
    ensures
        next_from(rules, x) matches Some(e) ==> x <= e <= MAX_DAY_NUMBER && is_business_in(rules, e)
            && forall|z: int| x <= z < e ==> !is_business_in(rules, z),
    decreases MAX_DAY_NUMBER + 1 - x,
{
    if x <= MAX_DAY_NUMBER && !is_business_in(rules, x) {
        lemma_next_from(rules, x + 1);
    }
}

proof fn lemma_prev_from(rules: Seq<Holiday>, x: int)
    ensures
        prev_from(rules, x) matches Some(e) ==> MIN_DAY_NUMBER <= e <= x && is_business_in(rules, e)
            && forall|z: int| e < z <= x ==> !is_business_in(rules, z),
    decreases x - MIN_DAY_NUMBER + 1,
{
    if x >= MIN_DAY_NUMBER && !is_business_in(rules, x) {
        lemma_prev_from(rules, x - 1);
    }
}

proof fn lemma_next_from_reaches(rules: Seq<Holiday>, x: int, d: int)
    requires
        x <= d <= MAX_DAY_NUMBER,
        is_business_in(rules, d),
        forall|z: int| x <= z < d ==> !is_business_in(rules, z),
    ensures
        next_from(rules, x) == Some(d),
    decreases d - x,
{
    if x < d {
        lemma_next_from_reaches(rules, x + 1, d);
    }
}

proof fn lemma_prev_from_reaches(rules: Seq<Holiday>, x: int, d: int)
    requires
        MIN_DAY_NUMBER <= d <= x,
        is_business_in(rules, d),
        forall|z: int| d < z <= x ==> !is_business_in(rules, z),
    ensures
        prev_from(rules, x) == Some(d),
    decreases x - d,
{
    if d < x {
        lemma_prev_from_reaches(rules, x - 1, d);
    }
}

proof fn lemma_prev_of_next(rules: Seq<Holiday>, d: int)
    requires
        number_in_range(d),
        is_business_in(rules, d),
    ensures
        next_business(rules, d) matches Some(e) ==> prev_business(rules, e) == Some(d),
{
    lemma_next_from(rules, d + 1);
    if let Some(e) = next_business(rules, d) {
        lemma_prev_from_reaches(rules, e - 1, d);
    }
}

proof fn lemma_next_of_prev(rules: Seq<Holiday>, d: int)
    requires
        number_in_range(d),
        is_business_in(rules, d),
    ensures
        prev_business(rules, d) matches Some(c) ==> next_business(rules, c) == Some(d),
{
    lemma_prev_from(rules, d - 1);
    if let Some(c) = prev_business(rules, d) {
        lemma_next_from_reaches(rules, c + 1, d);
    }
}

proof fn lemma_added_is_business(rules: Seq<Holiday>, n: int, k: int)
    requires
        number_in_range(n),
        is_business_in(rules, n),
    ensures
        business_days_added(rules, n, k) matches Some(e) ==> number_in_range(e) && is_business_in(
            rules,
            e,
        ),
    decreases (if k < 0 {
        -k
    } else {
        k
    }),
{
    if k > 0 {
        lemma_added_is_business(rules, n, k - 1);
        if let Some(m) = business_days_added(rules, n, k - 1) {
            lemma_next_from(rules, m + 1);
        }
    } else if k < 0 {
        lemma_prev_from(rules, n - 1);
        if let Some(m) = prev_business(rules, n) {
            lemma_added_is_business(rules, m, k + 1);
        }
    }
}

/// Moving a date by zero business days leaves it where it is, whether or not
/// it is a business day.
pub proof fn lemma_add_zero_business_days(rules: Seq<Holiday>, n: int)
    ensures
        business_days_added(rules, n, 0) == Some(n),
{
}

/// Moving a business day forward by `k` business days and then back by `k`
/// (or back and then forward) returns to it, wherever both moves stay in range.
pub proof fn lemma_add_business_days_round_trip(rules: Seq<Holiday>, n: int, k: int)
    requires
        number_in_range(n),
        is_business_in(rules, n),
    ensures
        business_days_added(rules, n, k) matches Some(e) ==> business_days_added(rules, e, -k)
            == Some(n),
    decreases (if k < 0 {
        -k
    } else {
        k
    }),
{
    if k > 0 {
        lemma_add_business_days_round_trip(rules, n, k - 1);
        if let Some(c) = business_days_added(rules, n, k - 1) {
            lemma_added_is_business(rules, n, k - 1);
            lemma_prev_of_next(rules, c);
        }
    } else if k < 0 {
        lemma_prev_from(rules, n - 1);
        if let Some(m) = prev_business(rules, n) {
            lemma_add_business_days_round_trip(rules, m, k + 1);
            lemma_next_of_prev(rules, n);
            if let Some(e) = business_days_added(rules, m, k + 1) {
                assert(business_days_added(rules, e, -(k + 1)) == Some(m));
                assert(business_days_added(rules, e, -k) == next_business(rules, m));
            }
        }
    }
}

} // verus!
