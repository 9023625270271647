use chrono::{Datelike, Local, Timelike, Utc};
use gcal_imp::date::Date;
use gcal_imp::event::{DateTime, Event, EventStatus};
use gcal_imp::session::{AppState, Mode, ViewType};

fn date(year: i32, month: u32, day: u32) -> Date {
    Date::from_ymd(year, month, day).unwrap()
}

fn instant(t: chrono::DateTime<Utc>) -> DateTime {
    DateTime {
        date: Date { year: t.year(), month: t.month(), day: t.day() },
        minute: t.hour() * 60 + t.minute(),
    }
}

fn create_event_at(id: &str, date: Date, hour: u32) -> Event {
    let start = DateTime { date, minute: hour * 60 };
    let end = DateTime { date, minute: (hour + 1) * 60 };
    Event {
        id: id.to_string(),
        calendar_id: "primary".to_string(),
        title: format!("Event {}", id),
        description: None,
        location: None,
        start,
        end,
        all_day: false,
        attendees: vec![],
        reminders: vec![],
        status: EventStatus::Confirmed,
        last_modified: Utc::now().timestamp(),
        html_link: None,
    }
}

#[test]
fn new_app_starts_in_normal_mode() {
    let app = AppState::new();
    assert_eq!(app.mode, Mode::Normal);
}

#[test]
fn new_app_shows_month_view() {
    let app = AppState::new();
    assert_eq!(app.view, ViewType::Month);
}

#[test]
fn new_app_selects_today() {
    let app = AppState::new();
    let today = Local::now().date_naive();
    assert_eq!(app.selected_date, date(today.year(), today.month(), today.day()));
}

#[test]
fn new_app_has_no_events() {
    let app = AppState::new();
    assert_eq!(app.events.len(), 0);
}

#[test]
fn add_event_to_state() {
    let mut app = AppState::new();
    let start = Utc::now();
    let end = start + chrono::Duration::hours(1);

    let event = Event {
        id: "event1".to_string(),
        calendar_id: "primary".to_string(),
        title: "Meeting".to_string(),
        description: None,
        location: None,
        start: instant(start),
        end: instant(end),
        all_day: false,
        attendees: vec![],
        reminders: vec![],
        status: EventStatus::Confirmed,
        last_modified: Utc::now().timestamp(),
        html_link: None,
    };

    app.add_event(event.clone());

    assert_eq!(app.events.len(), 1);
    let stored = app.event_by_id(&event.id).unwrap();
    assert_eq!(stored.title, event.title);
    assert_eq!(stored.start, event.start);
    assert_eq!(stored.end, event.end);
}

#[test]
fn get_events_for_date_returns_matching_events() {
    let mut app = AppState::new();
    let d = date(2025, 1, 15);
    let other_date = date(2025, 1, 16);

    app.add_event(create_event_at("event1", d, 9));
    app.add_event(create_event_at("event2", d, 14));
    app.add_event(create_event_at("event3", other_date, 10));

    let events = app.get_events_for_date(d);

    assert_eq!(events.len(), 2);
}

#[test]
fn events_for_date_come_in_start_order() {
    let mut app = AppState::new();
    let d = date(2025, 1, 15);
    app.add_event(create_event_at("late", d, 16));
    app.add_event(create_event_at("early", d, 8));
    app.add_event(create_event_at("noon", d, 12));
    let ids: Vec<String> = app.get_events_for_date(d).iter().map(|e| e.id.clone()).collect();
    assert_eq!(ids, vec!["early", "noon", "late"]);
}

#[test]
fn adding_an_event_with_a_known_id_replaces_it() {
    let mut app = AppState::new();
    let d = date(2025, 1, 15);
    app.add_event(create_event_at("a", d, 9));
    let mut changed = create_event_at("a", d, 11);
    changed.title = "Moved".to_string();
    app.add_event(changed);
    assert_eq!(app.events.len(), 1);
    assert_eq!(app.event_by_id(&"a".to_string()).unwrap().title, "Moved");
    app.remove_event(&"a".to_string());
    assert_eq!(app.events.len(), 0);
}

#[test]
fn event_selection_moves_within_the_day() {
    let mut app = AppState::new();
    let d = date(2025, 1, 15);
    app.selected_date = d;
    app.add_event(create_event_at("a", d, 9));
    app.add_event(create_event_at("b", d, 10));
    assert_eq!(app.get_selected_event().unwrap().id, "a");
    app.move_event_selection_down();
    assert_eq!(app.get_selected_event().unwrap().id, "b");
    app.move_event_selection_down();
    assert_eq!(app.selected_event_index, 1);
    app.move_event_selection_up();
    app.move_event_selection_up();
    assert_eq!(app.selected_event_index, 0);
}

#[test]
fn visual_range_is_ordered_whichever_end_moved() {
    let mut app = AppState::new();
    app.visual_selection_start = Some(date(2025, 1, 12));
    app.selected_date = date(2025, 1, 10);
    assert_eq!(app.get_visual_selection_range(), Some((date(2025, 1, 10), date(2025, 1, 12))));
    app.visual_selection_start = Some(date(2025, 1, 10));
    app.selected_date = date(2025, 1, 12);
    assert_eq!(app.get_visual_selection_range(), Some((date(2025, 1, 10), date(2025, 1, 12))));
    assert!(app.is_date_in_visual_selection(date(2025, 1, 11)));
    assert!(!app.is_date_in_visual_selection(date(2025, 1, 13)));
    app.visual_selection_start = None;
    assert_eq!(app.get_visual_selection_range(), None);
    assert!(!app.is_date_in_visual_selection(date(2025, 1, 11)));
}
