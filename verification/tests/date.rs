use task_tracker::date::{MAX_YEAR, MIN_YEAR};
use task_tracker::Date;

fn day(year: i32, month: u32, day: u32) -> Date {
    Date::from_ymd(year, month, day).expect("a day that exists")
}

#[test]
fn from_ymd_keeps_year_month_and_day() {
    let date = day(2024, 5, 17);
    assert_eq!(date.year(), 2024);
    assert_eq!(date.month(), 5);
    assert_eq!(date.day(), 17);
}

#[test]
fn from_ymd_knows_the_length_of_each_month() {
    let lengths = [31, 28, 31, 30, 31, 30, 31, 31, 30, 31, 30, 31];
    for (index, length) in lengths.iter().enumerate() {
        let month = index as u32 + 1;
        assert!(Date::from_ymd(2023, month, *length).is_some());
        assert!(Date::from_ymd(2023, month, *length + 1).is_none());
    }
}

#[test]
fn from_ymd_knows_leap_years() {
    assert!(Date::from_ymd(2024, 2, 29).is_some());
    assert!(Date::from_ymd(2023, 2, 29).is_none());
    assert!(Date::from_ymd(1900, 2, 29).is_none());
    assert!(Date::from_ymd(2000, 2, 29).is_some());
    assert!(Date::from_ymd(2024, 2, 30).is_none());
    assert!(Date::from_ymd(0, 2, 29).is_some());
    assert!(Date::from_ymd(-4, 2, 29).is_some());
    assert!(Date::from_ymd(-1, 2, 29).is_none());
    assert!(Date::from_ymd(-100, 2, 29).is_none());
    assert!(Date::from_ymd(-400, 2, 29).is_some());
}

#[test]
fn from_ymd_refuses_month_and_day_out_of_range() {
    assert!(Date::from_ymd(2024, 0, 1).is_none());
    assert!(Date::from_ymd(2024, 13, 1).is_none());
    assert!(Date::from_ymd(2024, 1, 0).is_none());
    assert!(Date::from_ymd(2024, 1, 32).is_none());
    assert!(Date::from_ymd(2024, 4, 31).is_none());
    assert!(Date::from_ymd(2024, u32::MAX, 1).is_none());
    assert!(Date::from_ymd(2024, 1, u32::MAX).is_none());
}

#[test]
fn from_ymd_keeps_to_the_years_a_date_can_hold() {
    assert_eq!(MIN_YEAR, -262_143);
    assert_eq!(MAX_YEAR, 262_142);
    assert!(Date::from_ymd(MAX_YEAR, 12, 31).is_some());
    assert!(Date::from_ymd(MAX_YEAR + 1, 1, 1).is_none());
    assert!(Date::from_ymd(MIN_YEAR, 1, 1).is_some());
    assert!(Date::from_ymd(MIN_YEAR - 1, 12, 31).is_none());
    assert!(Date::from_ymd(i32::MAX, 1, 1).is_none());
    assert!(Date::from_ymd(i32::MIN, 1, 1).is_none());
}

#[test]
fn same_day_compares_all_three_parts() {
    assert!(day(2024, 5, 17).same_day(&day(2024, 5, 17)));
    assert!(!day(2024, 5, 17).same_day(&day(2024, 5, 18)));
    assert!(!day(2024, 5, 17).same_day(&day(2024, 6, 17)));
    assert!(!day(2024, 5, 17).same_day(&day(2025, 5, 17)));
    assert_eq!(day(2024, 5, 17), day(2024, 5, 17));
    assert_ne!(day(2024, 5, 17), day(2024, 5, 18));
}

#[test]
fn plus_days_moves_forward() {
    assert_eq!(day(2024, 5, 17).plus_days(1), Some(day(2024, 5, 18)));
    assert_eq!(day(2024, 5, 17).plus_days(0), Some(day(2024, 5, 17)));
    assert_eq!(day(2024, 5, 30).plus_days(2), Some(day(2024, 6, 1)));
    assert_eq!(day(2024, 12, 31).plus_days(1), Some(day(2025, 1, 1)));
    assert_eq!(day(2024, 2, 28).plus_days(2), Some(day(2024, 3, 1)));
    assert_eq!(day(2023, 2, 28).plus_days(2), Some(day(2023, 3, 2)));
    assert_eq!(day(2014, 1, 1).plus_days(365 * 400 + 97), Some(day(2414, 1, 1)));
}

#[test]
fn plus_days_moves_backward() {
    assert_eq!(day(2024, 5, 17).plus_days(-1), Some(day(2024, 5, 16)));
    assert_eq!(day(2024, 3, 1).plus_days(-1), Some(day(2024, 2, 29)));
    assert_eq!(day(2025, 1, 1).plus_days(-366), Some(day(2024, 1, 1)));
}

#[test]
fn plus_days_stops_at_the_last_year() {
    assert_eq!(day(MAX_YEAR, 12, 30).plus_days(1), Some(day(MAX_YEAR, 12, 31)));
    assert_eq!(day(MAX_YEAR, 12, 31).plus_days(1), None);
    assert_eq!(day(MIN_YEAR, 1, 1).plus_days(-1), None);
    assert_eq!(day(2024, 5, 17).plus_days(i32::MAX), None);
    assert_eq!(day(2024, 5, 17).plus_days(i32::MIN), None);
}
