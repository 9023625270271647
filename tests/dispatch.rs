use gcal_imp::date::Date;
use gcal_imp::dispatch::{apply_delete, apply_save, apply_sync, handle_input, Action, CreatedEventInfo};
use gcal_imp::event::{DateTime, Event, EventStatus};
use gcal_imp::key::Key;
use gcal_imp::session::{AppState, Mode, SyncStatus, Theme};

fn date(year: i32, month: u32, day: u32) -> Date {
    Date::from_ymd(year, month, day).unwrap()
}

fn event(id: &str, d: Date, hour: u32) -> Event {
    Event {
        id: id.to_string(),
        calendar_id: "primary".to_string(),
        title: format!("Event {}", id),
        description: None,
        location: None,
        start: DateTime { date: d, minute: hour * 60 },
        end: DateTime { date: d, minute: hour * 60 + 30 },
        all_day: false,
        attendees: vec![],
        reminders: vec![],
        status: EventStatus::Confirmed,
        last_modified: 0,
        html_link: None,
    }
}

fn type_keys(state: &mut AppState, text: &str) {
    for c in text.chars() {
        handle_input(Key::Char(c), state);
    }
}

#[test]
fn goto_command_moves_the_date() {
    let mut state = AppState::new();
    type_keys(&mut state, ":goto 2030-07-04");
    assert_eq!(state.mode, Mode::Command);
    let action = handle_input(Key::Enter, &mut state);
    assert!(matches!(action, Action::Idle));
    assert_eq!(state.mode, Mode::Normal);
    assert_eq!(state.selected_date, date(2030, 7, 4));
    assert_eq!(state.command_buffer, "");
}

#[test]
fn quit_and_write_commands_ask_the_host() {
    let mut state = AppState::new();
    type_keys(&mut state, ":q");
    assert!(matches!(handle_input(Key::Enter, &mut state), Action::Quit));
    let mut state = AppState::new();
    type_keys(&mut state, ":w");
    assert!(matches!(handle_input(Key::Enter, &mut state), Action::Sync));
    assert_eq!(state.sync_status, SyncStatus::Syncing);
    apply_sync(&mut state, Err("offline".to_string()));
    assert_eq!(state.sync_status, SyncStatus::Error("Sync failed: offline".to_string()));
    apply_sync(&mut state, Ok(vec![event("a", date(2025, 1, 1), 9), event("a", date(2025, 1, 2), 9)]));
    assert_eq!(state.events.len(), 1);
    assert_eq!(state.sync_status, SyncStatus::Synced);
}

#[test]
fn bad_command_reports_and_returns_to_normal() {
    let mut state = AppState::new();
    type_keys(&mut state, ":nope");
    handle_input(Key::Enter, &mut state);
    assert_eq!(state.mode, Mode::Normal);
    assert_eq!(state.sync_status, SyncStatus::Error("Unknown command: nope".to_string()));
}

#[test]
fn theme_command_picks_theme_ignoring_case() {
    let mut state = AppState::new();
    type_keys(&mut state, ":theme NORD");
    handle_input(Key::Enter, &mut state);
    assert_eq!(state.theme, Theme::Nord);
    assert_eq!(Theme::get_by_name("Solarized"), Theme::SolarizedDark);
    assert_eq!(Theme::get_by_name("unknown"), Theme::Default);
}

#[test]
fn new_command_opens_form_with_title() {
    let mut state = AppState::new();
    type_keys(&mut state, ":new Lunch with Sam");
    handle_input(Key::Enter, &mut state);
    assert_eq!(state.mode, Mode::Insert);
    assert_eq!(state.event_form.as_ref().unwrap().title, "Lunch with Sam");
}

#[test]
fn commit_builds_event_and_returns_to_normal() {
    let mut state = AppState::new();
    state.selected_date = date(2025, 1, 15);
    handle_input(Key::Char('a'), &mut state);
    type_keys(&mut state, "Standup");
    handle_input(Key::Tab, &mut state);
    type_keys(&mut state, "2330");
    handle_input(Key::Tab, &mut state);
    type_keys(&mut state, "90");
    let action = handle_input(Key::Enter, &mut state);
    assert_eq!(state.mode, Mode::Normal);
    assert!(state.event_form.is_none());
    let pending = match action {
        Action::Save(p) => p,
        _ => panic!("expected a save"),
    };
    assert!(!pending.is_update);
    assert_eq!(pending.event.title, "Standup");
    assert_eq!(pending.event.start, DateTime { date: date(2025, 1, 15), minute: 23 * 60 + 30 });
    assert_eq!(pending.event.end, DateTime { date: date(2025, 1, 16), minute: 60 });
    assert_eq!(pending.event.duration_minutes(), 90);
    apply_save(
        &mut state,
        pending,
        Ok(Some(CreatedEventInfo { id: "server-1".to_string(), html_link: None })),
    );
    assert_eq!(state.sync_status, SyncStatus::Synced);
    assert_eq!(state.events.len(), 1);
    assert_eq!(state.events[0].id, "server-1");
}

#[test]
fn failed_save_keeps_events_and_reports() {
    let mut state = AppState::new();
    handle_input(Key::Char('a'), &mut state);
    let pending = match handle_input(Key::Enter, &mut state) {
        Action::Save(p) => p,
        _ => panic!("expected a save"),
    };
    apply_save(&mut state, pending, Err("timeout".to_string()));
    assert_eq!(state.events.len(), 0);
    assert_eq!(state.sync_status, SyncStatus::Error("Failed to create: timeout".to_string()));
    assert_eq!(state.mode, Mode::Normal);
}

#[test]
fn delete_asks_for_confirmation() {
    let mut state = AppState::new();
    state.selected_date = date(2025, 1, 15);
    state.add_event(event("a", date(2025, 1, 15), 9));
    handle_input(Key::Char('x'), &mut state);
    assert_eq!(state.mode, Mode::Visual);
    assert_eq!(state.delete_confirmation_event_id, Some("a".to_string()));
    assert!(matches!(handle_input(Key::Char('l'), &mut state), Action::Idle));
    assert_eq!(state.selected_date, date(2025, 1, 15));
    let id = match handle_input(Key::Char('y'), &mut state) {
        Action::Delete(id) => id,
        _ => panic!("expected a delete"),
    };
    assert_eq!(state.mode, Mode::Normal);
    apply_delete(&mut state, &id, Ok(()));
    assert_eq!(state.events.len(), 0);
}

#[test]
fn delete_cancelled_with_n() {
    let mut state = AppState::new();
    state.selected_date = date(2025, 1, 15);
    state.add_event(event("a", date(2025, 1, 15), 9));
    handle_input(Key::Char('x'), &mut state);
    assert!(matches!(handle_input(Key::Char('n'), &mut state), Action::Idle));
    assert_eq!(state.mode, Mode::Normal);
    assert_eq!(state.delete_confirmation_event_id, None);
    assert_eq!(state.events.len(), 1);
}

#[test]
fn detail_view_motions_and_yank() {
    let mut state = AppState::new();
    state.selected_date = date(2025, 1, 15);
    state.add_event(event("a", date(2025, 1, 15), 9));
    handle_input(Key::Char('i'), &mut state);
    assert_eq!(state.detail_view_event_id, Some("a".to_string()));
    state.detail_view_line_text = vec!["alpha beta".to_string(), "gamma delta".to_string()];
    handle_input(Key::Char('$'), &mut state);
    assert_eq!(state.detail_view_cursor_col, 9);
    handle_input(Key::Char('w'), &mut state);
    assert_eq!((state.detail_view_cursor_line, state.detail_view_cursor_col), (1, 0));
    handle_input(Key::Char('v'), &mut state);
    handle_input(Key::Char('e'), &mut state);
    match handle_input(Key::Char('y'), &mut state) {
        Action::Copy(t) => assert_eq!(t, "gamma"),
        _ => panic!("expected a copy"),
    }
    assert_eq!(state.detail_view_visual_start, None);
    match handle_input(Key::Char('y'), &mut state) {
        Action::Copy(t) => assert_eq!(t, "gamma delta"),
        _ => panic!("expected a copy"),
    }
    match handle_input(Key::Char('B'), &mut state) {
        Action::OpenBrowser(u) => assert_eq!(u, "https://calendar.google.com/calendar/u/0/r/eventedit/a"),
        _ => panic!("expected a browser address"),
    }
    handle_input(Key::Esc, &mut state);
    assert_eq!(state.detail_view_event_id, None);
}

#[test]
fn q_quits_from_normal_mode() {
    let mut state = AppState::new();
    assert!(matches!(handle_input(Key::Char('q'), &mut state), Action::Quit));
}
