use cal_calc::calendar::{build_calendar, Calendar};
use cal_calc::calendar_definitions::{
    nok_holidays, target_holidays, uk_settlement_holidays, us_settlement_holidays,
};
use cal_calc::date::{Date, Weekday, MAX_DAY_NUMBER, MAX_YEAR, MIN_DAY_NUMBER, MIN_YEAR};
use cal_calc::easter::{easter_month_and_day, easter_sunday};
use cal_calc::error::CalendarError;
use cal_calc::nth::{nth_weekday, NthWeek};
use cal_calc::rule::{resolve, Holiday};

fn d(y: i32, m: u32, day: u32) -> Date {
    Date::from_ymd(y, m, day).unwrap()
}

fn weekend() -> Vec<Holiday> {
    vec![Holiday::WeekDay(Weekday::Sat), Holiday::WeekDay(Weekday::Sun)]
}

fn weekend_calendar() -> Calendar {
    build_calendar(weekend()).unwrap()
}

#[test]
fn day_numbers_follow_chrono() {
    assert_eq!(d(1, 1, 1).day_number(), 1);
    assert_eq!(d(0, 12, 31).day_number(), 0);
    assert_eq!(d(2023, 1, 1).day_number(), 738521);
    assert_eq!(d(1970, 1, 1).day_number(), 719163);
    assert_eq!(d(MIN_YEAR, 1, 1).day_number(), MIN_DAY_NUMBER);
    assert_eq!(d(MAX_YEAR, 12, 31).day_number(), MAX_DAY_NUMBER);
}

#[test]
fn invalid_calendar_days_are_rejected() {
    assert!(Date::from_ymd(2023, 2, 29).is_none());
    assert!(Date::from_ymd(2024, 2, 29).is_some());
    assert!(Date::from_ymd(1900, 2, 29).is_none());
    assert!(Date::from_ymd(2000, 2, 29).is_some());
    assert!(Date::from_ymd(2023, 4, 31).is_none());
    assert!(Date::from_ymd(2023, 13, 1).is_none());
    assert!(Date::from_ymd(2023, 0, 1).is_none());
    assert!(Date::from_ymd(2023, 1, 0).is_none());
    assert!(Date::from_ymd(MAX_YEAR + 1, 1, 1).is_none());
    assert!(Date::from_ymd(MIN_YEAR - 1, 12, 31).is_none());
}

#[test]
fn ymd_round_trips_through_day_number() {
    let date = d(2024, 2, 29);
    assert_eq!(date.ymd(), (2024, 2, 29));
    assert_eq!(date.year(), 2024);
    assert_eq!(date.month(), 2);
    assert_eq!(date.day(), 29);
    let next = date.succ().unwrap();
    assert_eq!(next.ymd(), (2024, 3, 1));
    assert_eq!(d(-5, 3, 1).pred().unwrap().ymd(), (-5, 2, 28));
    assert_eq!(d(-4, 3, 1).pred().unwrap().ymd(), (-4, 2, 29));
    let back = Date::from_day_number(date.day_number()).unwrap();
    assert_eq!(back, date);
}

#[test]
fn stepping_stops_at_the_ends_of_the_range() {
    assert!(d(MAX_YEAR, 12, 31).succ().is_none());
    assert!(d(MIN_YEAR, 1, 1).pred().is_none());
    assert!(Date::from_day_number(MAX_DAY_NUMBER + 1).is_none());
    assert!(d(2023, 1, 1).add_days(-366).unwrap() == d(2021, 12, 31));
}

#[test]
fn weekdays() {
    assert_eq!(d(2023, 1, 1).weekday(), Weekday::Sun);
    assert_eq!(d(2023, 1, 2).weekday(), Weekday::Mon);
    assert_eq!(d(1, 1, 1).weekday(), Weekday::Mon);
    assert_eq!(d(2000, 2, 29).weekday(), Weekday::Tue);
    assert_eq!(d(-1, 12, 31).weekday(), Weekday::Fri);
    assert_eq!(Weekday::Sun.num_days_from_monday(), 6);
    assert_eq!(Weekday::from_index(3), Weekday::Thu);
}

#[test]
fn easter_known_years() {
    assert_eq!(easter_month_and_day(2024), (3, 31));
    assert_eq!(easter_month_and_day(2000), (4, 23));
    assert_eq!(easter_month_and_day(2019), (4, 21));
    assert_eq!(easter_month_and_day(2285), (3, 22));
    assert_eq!(easter_month_and_day(1818), (3, 22));
    assert_eq!(easter_month_and_day(2038), (4, 25));
    assert_eq!(easter_month_and_day(1943), (4, 25));
    assert_eq!(easter_sunday(2024), d(2024, 3, 31));
}

#[test]
fn easter_stays_in_its_window() {
    let mut y = -3000;
    while y <= 5000 {
        let (m, day) = easter_month_and_day(y);
        assert!((m == 3 && day >= 22 && day <= 31) || (m == 4 && day <= 25), "year {}", y);
        assert_eq!(easter_sunday(y).weekday(), Weekday::Sun, "year {}", y);
        y += 1;
    }
}

#[test]
fn nth_weekday_stays_in_month() {
    let days = [
        Weekday::Mon,
        Weekday::Tue,
        Weekday::Wed,
        Weekday::Thu,
        Weekday::Fri,
        Weekday::Sat,
        Weekday::Sun,
    ];
    let nths = [NthWeek::First, NthWeek::Second, NthWeek::Third, NthWeek::Fourth, NthWeek::Last];
    for year in [1999, 2023, 2024] {
        for month in 1..=12u32 {
            for w in days {
                for nth in nths {
                    let r = nth_weekday(year, month, w, nth).unwrap();
                    assert_eq!(r.month(), month);
                    assert_eq!(r.year(), year);
                    assert_eq!(r.weekday(), w);
                }
            }
        }
    }
}

#[test]
fn nth_weekday_examples() {
    assert_eq!(nth_weekday(2023, 5, Weekday::Mon, NthWeek::Last).unwrap(), d(2023, 5, 29));
    assert_eq!(nth_weekday(2023, 11, Weekday::Thu, NthWeek::Fourth).unwrap(), d(2023, 11, 23));
    assert_eq!(nth_weekday(2023, 9, Weekday::Mon, NthWeek::First).unwrap(), d(2023, 9, 4));
    assert_eq!(nth_weekday(2023, 1, Weekday::Mon, NthWeek::Third).unwrap(), d(2023, 1, 16));
    assert_eq!(nth_weekday(2023, 10, Weekday::Mon, NthWeek::Second).unwrap(), d(2023, 10, 9));
}

#[test]
fn nth_weekday_out_of_range() {
    let e = nth_weekday(2023, 13, Weekday::Mon, NthWeek::First);
    assert_eq!(
        e,
        Err(CalendarError::OutOfRange {
            year: 2023,
            month: 13,
            weekday: Weekday::Mon,
            nth: NthWeek::First
        })
    );
    assert!(nth_weekday(2023, 0, Weekday::Mon, NthWeek::Last).is_err());
    assert!(nth_weekday(MAX_YEAR + 1, 1, Weekday::Mon, NthWeek::Last).is_err());
}

#[test]
fn independence_day_nearest_weekday() {
    let rule = Holiday::ModifiedMovableYearlyDay { month: 7, day: 4, first: None, last: None };
    assert_eq!(resolve(&rule, 2021), Some(d(2021, 7, 5)));
    assert_eq!(resolve(&rule, 2020), Some(d(2020, 7, 3)));
    assert_eq!(resolve(&rule, 2023), Some(d(2023, 7, 4)));
}

#[test]
fn movable_day_moves_to_monday() {
    let rule = Holiday::MovableYearlyDay { month: 12, day: 25, first: None, last: None };
    assert_eq!(resolve(&rule, 2021), Some(d(2021, 12, 27)));
    assert_eq!(resolve(&rule, 2022), Some(d(2022, 12, 26)));
    assert_eq!(resolve(&rule, 2023), Some(d(2023, 12, 25)));
}

#[test]
fn yearly_day_is_not_shifted() {
    let rule = Holiday::YearlyDay { month: 1, day: 1, first: None, last: None };
    assert_eq!(resolve(&rule, 2023), Some(d(2023, 1, 1)));
    let leap = Holiday::YearlyDay { month: 2, day: 29, first: None, last: None };
    assert_eq!(resolve(&leap, 2024), Some(d(2024, 2, 29)));
    assert_eq!(resolve(&leap, 2023), None);
}

#[test]
fn memorial_day_last_monday() {
    let rule = Holiday::MonthWeekday {
        month: 5,
        weekday: Weekday::Mon,
        nth: NthWeek::Last,
        first: None,
        last: None,
    };
    assert_eq!(resolve(&rule, 2023), Some(d(2023, 5, 29)));
}

#[test]
fn good_friday_from_easter() {
    let rule = Holiday::EasterOffset { offset: -2, first: None, last: None };
    assert_eq!(resolve(&rule, 2024), Some(d(2024, 3, 29)));
    let whit_monday = Holiday::EasterOffset { offset: 50, first: None, last: None };
    assert_eq!(resolve(&whit_monday, 2024), Some(d(2024, 5, 20)));
}

#[test]
fn singular_day_only_in_its_year() {
    let rule = Holiday::SingularDay(d(2020, 5, 8));
    assert_eq!(resolve(&rule, 2020), Some(d(2020, 5, 8)));
    assert_eq!(resolve(&rule, 2021), None);
    assert_eq!(resolve(&Holiday::WeekDay(Weekday::Sat), 2020), None);
}

#[test]
fn resolution_respects_bounds() {
    let rule = Holiday::MonthWeekday {
        month: 1,
        weekday: Weekday::Mon,
        nth: NthWeek::Third,
        first: Some(1983),
        last: Some(1990),
    };
    assert_eq!(resolve(&rule, 1982), None);
    assert!(resolve(&rule, 1983).is_some());
    assert!(resolve(&rule, 1990).is_some());
    assert_eq!(resolve(&rule, 1991), None);
    let fixed = Holiday::YearlyDay { month: 5, day: 1, first: Some(2000), last: None };
    assert_eq!(resolve(&fixed, 1999), None);
    assert_eq!(resolve(&fixed, 2000), Some(d(2000, 5, 1)));
    assert_eq!(resolve(&fixed, 2100), Some(d(2100, 5, 1)));
}

#[test]
fn resolving_twice_gives_the_same() {
    let rule = Holiday::EasterOffset { offset: 1, first: None, last: None };
    assert_eq!(resolve(&rule, 2025), resolve(&rule, 2025));
    let mut cal = build_calendar(uk_settlement_holidays()).unwrap();
    let day = d(2025, 4, 21);
    let first = cal.is_holiday(day);
    let second = cal.is_holiday(day);
    assert!(first);
    assert_eq!(first, second);
}

#[test]
fn weekend_and_new_year_scenario() {
    let mut rules = weekend();
    rules.push(Holiday::YearlyDay { month: 1, day: 1, first: None, last: None });
    let mut cal = build_calendar(rules).unwrap();
    assert!(cal.is_holiday(d(2023, 1, 1)));
    assert!(cal.is_business_day(d(2023, 1, 2)));
    let mut weekly_only = weekend_calendar();
    assert!(weekly_only.is_holiday(d(2023, 1, 1)));
}

#[test]
fn business_days_between_weekends() {
    let mut cal = weekend_calendar();
    assert_eq!(cal.business_days_between(d(2023, 1, 1), d(2023, 1, 8)), 5);
    assert_eq!(cal.business_days_between(d(2023, 1, 8), d(2023, 1, 1)), -5);
    assert_eq!(cal.business_days_between(d(2023, 1, 2), d(2023, 1, 2)), 0);
    assert_eq!(cal.business_days_between(d(2023, 1, 2), d(2023, 1, 3)), 1);
    assert_eq!(cal.business_days_between(d(2023, 1, 1), d(2024, 1, 1)), 260);
}

#[test]
fn adding_zero_business_days() {
    let mut cal = weekend_calendar();
    assert_eq!(cal.add_business_days(d(2023, 1, 7), 0), Some(d(2023, 1, 7)));
    assert_eq!(cal.add_business_days(d(2023, 1, 9), 0), Some(d(2023, 1, 9)));
}

#[test]
fn adding_business_days() {
    let mut cal = weekend_calendar();
    assert_eq!(cal.add_business_days(d(2023, 1, 6), 1), Some(d(2023, 1, 9)));
    assert_eq!(cal.add_business_days(d(2023, 1, 7), 1), Some(d(2023, 1, 9)));
    assert_eq!(cal.add_business_days(d(2023, 1, 9), -1), Some(d(2023, 1, 6)));
    assert_eq!(cal.add_business_days(d(2023, 1, 2), 10), Some(d(2023, 1, 16)));
    assert_eq!(cal.add_business_days(d(2023, 1, 16), -10), Some(d(2023, 1, 2)));
}

#[test]
fn adding_business_days_round_trip() {
    let mut cal = build_calendar(us_settlement_holidays()).unwrap();
    let start = d(2023, 12, 20);
    for n in [-40i64, -7, -3, -1, 1, 2, 5, 9, 30] {
        let there = cal.add_business_days(start, n).unwrap();
        assert_eq!(cal.add_business_days(there, -n), Some(start), "n = {}", n);
    }
}

#[test]
fn next_and_previous_business_day() {
    let mut cal = build_calendar(us_settlement_holidays()).unwrap();
    assert_eq!(cal.next_business_day(d(2023, 12, 22)), Some(d(2023, 12, 26)));
    assert_eq!(cal.previous_business_day(d(2023, 12, 26)), Some(d(2023, 12, 22)));
    assert_eq!(cal.next_business_day(d(2023, 7, 3)), Some(d(2023, 7, 5)));
    assert_eq!(cal.next_business_day(d(MAX_YEAR, 12, 31)), None);
    assert_eq!(cal.previous_business_day(d(MIN_YEAR, 1, 1)), None);
}

#[test]
fn no_business_day_when_every_weekday_is_closed() {
    let all = vec![
        Holiday::WeekDay(Weekday::Mon),
        Holiday::WeekDay(Weekday::Tue),
        Holiday::WeekDay(Weekday::Wed),
        Holiday::WeekDay(Weekday::Thu),
        Holiday::WeekDay(Weekday::Fri),
        Holiday::WeekDay(Weekday::Sat),
        Holiday::WeekDay(Weekday::Sun),
    ];
    let mut cal = build_calendar(all).unwrap();
    assert_eq!(cal.next_business_day(d(MAX_YEAR, 12, 20)), None);
    assert_eq!(cal.add_business_days(d(MIN_YEAR, 1, 10), -1), None);
    assert_eq!(cal.business_days_between(d(2023, 1, 1), d(2023, 2, 1)), 0);
}

#[test]
fn invalid_rule_bounds_are_rejected() {
    let mut rules = weekend();
    let bad = Holiday::YearlyDay { month: 1, day: 1, first: Some(2000), last: Some(1999) };
    rules.push(bad);
    rules.push(Holiday::EasterOffset { offset: 1, first: Some(5), last: Some(4) });
    match build_calendar(rules) {
        Err(CalendarError::InvalidRuleBounds { index, rule }) => {
            assert_eq!(index, 2);
            assert_eq!(rule, bad);
        }
        _ => panic!("expected InvalidRuleBounds"),
    }
    let equal = vec![Holiday::YearlyDay { month: 1, day: 1, first: Some(2000), last: Some(2000) }];
    assert!(Calendar::new(equal).is_ok());
}

#[test]
fn shift_across_new_year() {
    let mut cal = build_calendar(us_settlement_holidays()).unwrap();
    // January 1, 2022 was a Saturday, observed on Friday, December 31, 2021.
    assert!(cal.is_holiday(d(2021, 12, 31)));
    assert!(cal.is_business_day(d(2021, 12, 30)));
}

#[test]
fn us_calendar_2023() {
    let mut cal = build_calendar(us_settlement_holidays()).unwrap();
    for (m, day) in [(1, 2), (1, 16), (2, 20), (5, 29), (6, 19), (7, 4), (9, 4), (10, 9), (11, 23), (12, 25)] {
        assert!(cal.is_holiday(d(2023, m, day)), "{}-{}", m, day);
    }
    assert!(cal.is_business_day(d(2023, 11, 10)));
    assert!(cal.is_business_day(d(2021, 6, 18)));
    assert!(cal.is_business_day(d(1982, 1, 18)));
}

#[test]
fn uk_calendar_special_days() {
    let mut cal = build_calendar(uk_settlement_holidays()).unwrap();
    assert!(cal.is_holiday(d(2020, 5, 8)));
    assert!(cal.is_business_day(d(2020, 5, 4)));
    assert!(cal.is_holiday(d(2019, 5, 6)));
    assert!(cal.is_business_day(d(2002, 5, 27)));
    assert!(cal.is_holiday(d(2002, 6, 4)));
    assert!(cal.is_holiday(d(2024, 3, 29)));
    assert!(cal.is_holiday(d(2024, 4, 1)));
    assert!(cal.is_holiday(d(2021, 12, 27)));
    // Christmas (Saturday) and Boxing Day (Sunday) both move to Monday.
    assert!(cal.is_business_day(d(2021, 12, 28)));
}

#[test]
fn target_and_nok_calendars() {
    let mut target = build_calendar(target_holidays()).unwrap();
    assert!(target.is_holiday(d(2024, 5, 1)));
    assert!(target.is_business_day(d(1999, 5, 3)));
    assert!(target.is_holiday(d(1999, 12, 31)));
    let mut nok = build_calendar(nok_holidays()).unwrap();
    assert!(nok.is_holiday(d(2024, 5, 17)));
    assert!(nok.is_holiday(d(2024, 3, 28)));
    assert!(nok.is_business_day(d(2024, 4, 2)));
    assert_eq!(us_settlement_holidays().len(), 17);
    assert_eq!(uk_settlement_holidays().len(), 22);
    assert_eq!(target_holidays().len(), 12);
    assert_eq!(nok_holidays().len(), 13);
}
