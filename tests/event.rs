use chrono::{Datelike, Timelike, Utc};
use gcal_imp::date::Date;
use gcal_imp::event::{DateTime, Event, EventStatus};

fn instant(t: chrono::DateTime<Utc>) -> DateTime {
    DateTime {
        date: Date { year: t.year(), month: t.month(), day: t.day() },
        minute: t.hour() * 60 + t.minute(),
    }
}

fn create_test_event(id: &str, title: &str, start: chrono::DateTime<Utc>, end: chrono::DateTime<Utc>) -> Event {
    Event {
        id: id.to_string(),
        calendar_id: "test_cal".to_string(),
        title: title.to_string(),
        description: None,
        location: None,
        start: instant(start),
        end: instant(end),
        all_day: false,
        attendees: vec![],
        reminders: vec![],
        status: EventStatus::Confirmed,
        last_modified: Utc::now().timestamp(),
        html_link: None,
    }
}

#[test]
fn new_event_has_confirmed_status() {
    let start = Utc::now();
    let end = start + chrono::Duration::hours(1);
    let event = create_test_event("test_id", "Test Event", start, end);

    assert_eq!(event.status, EventStatus::Confirmed);
}

#[test]
fn event_duration_calculated_correctly() {
    let start = Utc::now();
    let end = start + chrono::Duration::minutes(90);
    let event = create_test_event("test_id", "Meeting", start, end);

    assert_eq!(event.duration_minutes(), 90);
}

#[test]
fn event_overlaps_with_another_event() {
    let start1 = Utc::now();
    let end1 = start1 + chrono::Duration::hours(2);
    let event1 = create_test_event("event1", "Event 1", start1, end1);

    let start2 = start1 + chrono::Duration::hours(1);
    let end2 = start2 + chrono::Duration::hours(1);
    let event2 = create_test_event("event2", "Event 2", start2, end2);

    assert!(event1.overlaps(&event2));
}

#[test]
fn event_does_not_overlap_when_adjacent() {
    let start1 = Utc::now();
    let end1 = start1 + chrono::Duration::hours(1);
    let event1 = create_test_event("event1", "Event 1", start1, end1);

    let event2 = create_test_event("event2", "Event 2", end1, end1 + chrono::Duration::hours(1));

    assert!(!event1.overlaps(&event2));
}

#[test]
fn duration_spans_midnight_and_year_end() {
    let start = DateTime { date: Date { year: 2024, month: 12, day: 31 }, minute: 23 * 60 };
    let end = DateTime { date: Date { year: 2025, month: 1, day: 1 }, minute: 30 };
    let mut e = create_test_event("x", "Party", Utc::now(), Utc::now());
    e.start = start;
    e.end = end;
    assert_eq!(e.duration_minutes(), 90);
}
