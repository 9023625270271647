use chrono::Datelike;
use gcal_imp::date::{days_in_month, is_leap, Date, MAX_YEAR, MIN_YEAR};

#[test]
fn calendar_rules() {
    assert!(is_leap(2024));
    assert!(!is_leap(2025));
    assert!(!is_leap(1900));
    assert!(is_leap(2000));
    assert_eq!(days_in_month(2024, 2), 29);
    assert_eq!(days_in_month(2025, 2), 28);
    assert_eq!(days_in_month(2025, 4), 30);
    assert_eq!(days_in_month(2025, 12), 31);
    assert_eq!(Date::from_ymd(2025, 2, 29), None);
    assert_eq!(Date::from_ymd(2025, 13, 1), None);
    assert_eq!(Date::from_ymd(2025, 1, 0), None);
}

#[test]
fn the_range_of_dates_ends() {
    let last = Date::from_ymd(MAX_YEAR, 12, 31).unwrap();
    assert_eq!(last.succ(), None);
    assert_eq!(last.checked_add_days(1), None);
    let first = Date::from_ymd(MIN_YEAR, 1, 1).unwrap();
    assert_eq!(first.pred(), None);
    assert_eq!(first.checked_sub_days(3), None);
    assert_eq!(Date::from_ymd(MAX_YEAR + 1, 1, 1), None);
    assert_eq!(last.shift_month(true), None);
}

#[test]
fn weekdays_agree_with_the_calendar() {
    let mut d = Date::from_ymd(1999, 12, 20).unwrap();
    for _ in 0..800 {
        let c = chrono::NaiveDate::from_ymd_opt(d.year, d.month, d.day).unwrap();
        assert_eq!(d.weekday_from_monday(), c.weekday().num_days_from_monday());
        d = d.checked_add_days(1).unwrap();
    }
    let far = Date::from_ymd(-4000, 3, 1).unwrap();
    let c = chrono::NaiveDate::from_ymd_opt(-4000, 3, 1).unwrap();
    assert_eq!(far.weekday_from_monday(), c.weekday().num_days_from_monday());
}
