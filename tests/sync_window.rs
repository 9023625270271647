use gcal_imp::date::Date;
use gcal_imp::sync_window::DateRange;

fn date(year: i32, month: u32, day: u32) -> Date {
    Date::from_ymd(year, month, day).unwrap()
}

#[test]
fn date_range_calculates_days() {
    let range = DateRange::new(date(2025, 1, 1), date(2025, 1, 8));
    assert_eq!(range.days(), 7);
}

#[test]
fn date_range_same_day_is_zero_days() {
    let range = DateRange::new(date(2025, 1, 1), date(2025, 1, 1));
    assert_eq!(range.days(), 0);
}

#[test]
fn date_range_counts_across_leap_years() {
    assert_eq!(DateRange::new(date(2024, 1, 1), date(2025, 1, 1)).days(), 366);
    assert_eq!(DateRange::new(date(2000, 1, 1), date(2100, 1, 1)).days(), 36525);
    assert_eq!(DateRange::new(date(2025, 1, 8), date(2025, 1, 1)).days(), -7);
}

#[test]
fn sync_window_spans_past_and_future() {
    let r = DateRange::around(date(2025, 1, 15), 90, 365);
    assert_eq!(r.start, date(2024, 10, 17));
    assert_eq!(r.end, date(2026, 1, 15));
    assert!(r.contains(date(2025, 1, 15)));
    assert!(r.contains(date(2024, 10, 17)));
    assert!(!r.contains(date(2024, 10, 16)));
    assert!(!r.contains(date(2026, 1, 16)));
}
