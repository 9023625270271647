use gcal_imp::agenda::{agenda_line_at, format_long_date, truncate_to_width};
use gcal_imp::date::Date;
use gcal_imp::event::{DateTime, Event, EventStatus};

fn event(title: &str, location: Option<&str>, all_day: bool) -> Event {
    let d = Date { year: 2025, month: 1, day: 15 };
    Event {
        id: "e".to_string(),
        calendar_id: "primary".to_string(),
        title: title.to_string(),
        description: None,
        location: location.map(String::from),
        start: DateTime { date: d, minute: 9 * 60 },
        end: DateTime { date: d, minute: 10 * 60 + 30 },
        all_day,
        attendees: vec![],
        reminders: vec![],
        status: EventStatus::Confirmed,
        last_modified: 0,
        html_link: None,
    }
}

#[test]
fn truncation_marks_the_cut() {
    assert_eq!(truncate_to_width("hello world", 5), "hell…");
    assert_eq!(truncate_to_width("hello", 5), "hello");
    assert_eq!(truncate_to_width("hello world", 0), "hello world");
    assert_eq!(truncate_to_width("héllo", 5), "héll…");
}

#[test]
fn agenda_lines_pad_the_time_column() {
    let e = event("Standup", Some("Room 1"), false);
    assert_eq!(agenda_line_at(&e, 9 * 60, 10 * 60 + 30, usize::MAX), "09:00-10:30   Standup @ Room 1");
    let a = event("Holiday", Some(""), true);
    assert_eq!(agenda_line_at(&a, 0, 0, usize::MAX), "All Day       Holiday");
    assert_eq!(agenda_line_at(&e, 9 * 60, 10 * 60 + 30, 12), "09:00-10:30…");
}

#[test]
fn long_dates_name_weekday_and_month() {
    assert_eq!(format_long_date(&Date { year: 2025, month: 1, day: 15 }), "Wednesday, January 15, 2025");
    assert_eq!(format_long_date(&Date { year: 2024, month: 2, day: 29 }), "Thursday, February 29, 2024");
    assert_eq!(format_long_date(&Date { year: 2000, month: 1, day: 1 }), "Saturday, January 01, 2000");
}

#[test]
fn local_agenda_line_shows_a_time_range() {
    let e = event("Standup", None, false);
    let line = gcal_imp::agenda::build_agenda_line(&e, usize::MAX);
    let chars: Vec<char> = line.chars().collect();
    assert_eq!(chars[2], ':');
    assert_eq!(chars[5], '-');
    assert_eq!(chars[8], ':');
    assert!(line.ends_with("   Standup"));
}
