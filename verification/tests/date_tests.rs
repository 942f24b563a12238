use chrono::{Datelike, NaiveDate};
use vehicle_checker::date::{ConfigError, Date, DateRange, MAX_DAY, MIN_DAY};

#[test]
fn calendar_bounds_are_those_of_chrono() {
    assert_eq!(NaiveDate::MIN.num_days_from_ce(), MIN_DAY);
    assert_eq!(NaiveDate::MAX.num_days_from_ce(), MAX_DAY);
    assert!(NaiveDate::from_num_days_from_ce_opt(MIN_DAY - 1).is_none());
    assert!(NaiveDate::from_num_days_from_ce_opt(MAX_DAY + 1).is_none());
}

#[test]
fn parse_reads_a_day_number() {
    assert_eq!(Date::parse("0001-01-01").unwrap().days(), 1);
    assert_eq!(Date::parse("1970-01-01").unwrap().days(), 719_163);
    assert_eq!(Date::parse("2024-01-01").unwrap().days(), 738_886);
}

#[test]
fn parse_rejects_what_is_no_date() {
    assert_eq!(Date::parse(""), None);
    assert_eq!(Date::parse("yesterday"), None);
    assert_eq!(Date::parse("2024-02-30"), None);
    assert_eq!(Date::parse("2023-02-29"), None);
    assert_eq!(Date::parse("2024/01/01"), None);
    assert_eq!(Date::parse("2024-13-01"), None);
}

#[test]
fn text_writes_the_day_back() {
    assert_eq!(Date::parse("2024-01-05").unwrap().text(), "2024-01-05");
    assert_eq!(Date::from_days(1).unwrap().text(), "0001-01-01");
    assert_eq!(Date::from_days(738_886 + 59).unwrap().text(), "2024-02-29");
}

#[test]
fn from_days_accepts_the_calendar_only() {
    assert!(Date::from_days(MIN_DAY).is_some());
    assert!(Date::from_days(MAX_DAY).is_some());
    assert_eq!(Date::from_days(MIN_DAY - 1), None);
    assert_eq!(Date::from_days(MAX_DAY + 1), None);
    assert_eq!(Date::from_days(i32::MAX), None);
    assert_eq!(Date::from_days(0).unwrap().days(), 0);
}

#[test]
fn the_ends_of_the_calendar_can_be_written() {
    assert_eq!(Date::from_days(MIN_DAY).unwrap().text(), "-262143-01-01");
    assert_eq!(Date::from_days(MAX_DAY).unwrap().text(), "+262142-12-31");
}

#[test]
fn range_needs_ordered_ends() {
    let a = Date::parse("2024-01-01").unwrap();
    let b = Date::parse("2024-01-10").unwrap();
    assert_eq!(DateRange::new(b, a), Err(ConfigError::InvertedRange));
    let r = DateRange::new(a, b).unwrap();
    assert_eq!(r.start(), a);
    assert_eq!(r.end(), b);
    assert_eq!(r.total_days(), 10);
    assert_eq!(r.first_day(), a.days());
    assert_eq!(r.last_day(), b.days());
}

#[test]
fn single_day_range_is_valid() {
    let a = Date::parse("2024-01-01").unwrap();
    let r = DateRange::new(a, a).unwrap();
    assert_eq!(r.total_days(), 1);
    assert!(r.contains(a));
}

#[test]
fn contains_is_inclusive() {
    let r = DateRange::new(Date::parse("2024-01-05").unwrap(), Date::parse("2024-01-07").unwrap())
        .unwrap();
    assert!(!r.contains(Date::parse("2024-01-04").unwrap()));
    assert!(r.contains(Date::parse("2024-01-05").unwrap()));
    assert!(r.contains(Date::parse("2024-01-06").unwrap()));
    assert!(r.contains(Date::parse("2024-01-07").unwrap()));
    assert!(!r.contains(Date::parse("2024-01-08").unwrap()));
}
