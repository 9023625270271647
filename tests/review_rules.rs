use gcal_imp::date::Date;
use gcal_imp::dispatch::{handle_input, Action};
use gcal_imp::event::{DateTime, Event, EventStatus};
use gcal_imp::form::EventForm;
use gcal_imp::key::Key;
use gcal_imp::month_view::month_layout;
use gcal_imp::session::{AppState, Mode};

fn date(y: i32, m: u32, d: u32) -> Date {
    Date::from_ymd(y, m, d).unwrap()
}

fn event(id: &str, d: Date, all_day: bool, end: Date) -> Event {
    Event {
        id: id.to_string(),
        calendar_id: "primary".to_string(),
        title: "T".to_string(),
        description: None,
        location: Some("Hall".to_string()),
        start: DateTime { date: d, minute: if all_day { 0 } else { 600 } },
        end: DateTime { date: end, minute: if all_day { 0 } else { 660 } },
        all_day,
        attendees: vec![],
        reminders: vec![],
        status: EventStatus::Confirmed,
        last_modified: 0,
        html_link: None,
    }
}

#[test]
fn padding_cells_carry_their_flags() {
    let events = vec![event("a", date(2024, 12, 30), false, date(2024, 12, 30))];
    let layout = month_layout(date(2025, 1, 15), date(2025, 2, 1), &events);
    let first = layout.weeks[0].days[0];
    assert_eq!(first.date, Some(date(2024, 12, 30)));
    assert!(first.has_events && !first.is_current_month);
    let last = layout.weeks.last().unwrap().days[6];
    assert_eq!(last.date, Some(date(2025, 2, 2)));
    let today_cells: Vec<_> = layout.weeks.iter().flat_map(|w| &w.days).filter(|c| c.is_today).collect();
    assert_eq!(today_cells.len(), 1);
}

#[test]
fn date_changes_reset_the_event_selection() {
    let mut state = AppState::new();
    state.selected_date = date(2025, 1, 15);
    state.selected_event_index = 2;
    handle_input(Key::Char('g'), &mut state);
    assert_eq!(state.selected_date, date(2025, 1, 1));
    assert_eq!(state.selected_event_index, 0);
    state.selected_event_index = 1;
    handle_input(Key::Char('z'), &mut state);
    assert_eq!(state.selected_event_index, 1);
}

#[test]
fn editing_an_all_day_event_shows_days() {
    let f = EventForm::for_event(&event("a", date(2025, 1, 10), true, date(2025, 1, 13)));
    assert_eq!(f.duration_minutes, 3 * 1440);
    assert_eq!(f.duration_input_buffer, "3");
    assert_eq!(f.location, "Hall");
    assert_eq!(f.description, "");
}

#[test]
fn calendar_command_switches_where_new_events_go() {
    let mut state = AppState::new();
    for c in ":cal work".chars() {
        handle_input(Key::Char(c), &mut state);
    }
    handle_input(Key::Enter, &mut state);
    assert_eq!(state.active_calendar, "work");
    handle_input(Key::Char('a'), &mut state);
    match handle_input(Key::Enter, &mut state) {
        Action::Save(p) => {
            assert_eq!(p.event.calendar_id, "work");
            assert_eq!(p.event.id.len(), 36);
        }
        _ => panic!("expected a save"),
    }
    assert_eq!(state.mode, Mode::Normal);
}
