use chrono::{Datelike, Local};
use gcal_imp::date::Date;
use gcal_imp::form::{EventForm, FormField};
use gcal_imp::insert_mode::handle_key;
use gcal_imp::key::Key;
use gcal_imp::session::AppState;

fn today() -> Date {
    let d = Local::now().date_naive();
    Date { year: d.year(), month: d.month(), day: d.day() }
}

fn setup_state_with_form() -> AppState {
    let mut state = AppState::new();
    state.event_form = Some(EventForm::new(today(), "Test Event".to_string()));
    state
}

#[test]
fn tab_moves_to_next_field() {
    let mut state = setup_state_with_form();
    let form = state.event_form.as_ref().unwrap();
    assert_eq!(form.active_field, FormField::Title);

    handle_key(Key::Tab, &mut state);
    let form = state.event_form.as_ref().unwrap();
    assert_eq!(form.active_field, FormField::StartTime);
}

#[test]
fn backtab_moves_to_previous_field() {
    let mut state = setup_state_with_form();
    state.event_form.as_mut().unwrap().active_field = FormField::StartTime;

    handle_key(Key::BackTab, &mut state);
    let form = state.event_form.as_ref().unwrap();
    assert_eq!(form.active_field, FormField::Title);
}

#[test]
fn char_appends_to_title_field() {
    let mut state = setup_state_with_form();
    state.event_form.as_mut().unwrap().title.clear();

    handle_key(Key::Char('H'), &mut state);
    handle_key(Key::Char('i'), &mut state);

    let form = state.event_form.as_ref().unwrap();
    assert_eq!(form.title, "Hi");
}

#[test]
fn backspace_removes_from_title() {
    let mut state = setup_state_with_form();
    state.event_form.as_mut().unwrap().title = "Hello".to_string();

    handle_key(Key::Backspace, &mut state);

    let form = state.event_form.as_ref().unwrap();
    assert_eq!(form.title, "Hell");
}

#[test]
fn digits_modify_time_buffer() {
    let mut state = setup_state_with_form();
    state.event_form.as_mut().unwrap().active_field = FormField::StartTime;
    state.event_form.as_mut().unwrap().time_input_buffer.clear();

    handle_key(Key::Char('1'), &mut state);
    handle_key(Key::Char('4'), &mut state);
    handle_key(Key::Char('3'), &mut state);
    handle_key(Key::Char('0'), &mut state);

    let form = state.event_form.as_ref().unwrap();
    assert_eq!(form.time_input_buffer, "1430");
}

#[test]
fn time_buffer_parses_to_hour_and_minute() {
    let mut state = setup_state_with_form();
    state.event_form.as_mut().unwrap().time_input_buffer = "1430".to_string();

    state.event_form.as_mut().unwrap().parse_time_input();

    let form = state.event_form.as_ref().unwrap();
    assert_eq!(form.start_hour, 14);
    assert_eq!(form.start_minute, 30);
}

#[test]
fn digits_modify_duration_buffer() {
    let mut state = setup_state_with_form();
    state.event_form.as_mut().unwrap().active_field = FormField::Duration;
    state.event_form.as_mut().unwrap().duration_input_buffer.clear();

    handle_key(Key::Char('9'), &mut state);
    handle_key(Key::Char('0'), &mut state);

    let form = state.event_form.as_ref().unwrap();
    assert_eq!(form.duration_input_buffer, "90");
}

fn form() -> EventForm {
    EventForm::new_at_hour(Date { year: 2025, month: 1, day: 15 }, String::new(), 9)
}

#[test]
fn time_round_trip_to_canonical_buffer() {
    let mut f = form();
    f.time_input_buffer = "1430".to_string();
    f.parse_time_input();
    assert_eq!((f.start_hour, f.start_minute), (14, 30));
    assert_eq!(f.time_input_buffer, "14:30");
}

#[test]
fn time_buffer_forms_and_clamping() {
    let mut f = form();
    f.time_input_buffer = "9:05".to_string();
    f.parse_time_input();
    assert_eq!((f.start_hour, f.start_minute, f.time_input_buffer.as_str()), (9, 5, "09:05"));
    f.time_input_buffer = "7".to_string();
    f.parse_time_input();
    assert_eq!((f.start_hour, f.start_minute, f.time_input_buffer.as_str()), (7, 0, "07:00"));
    f.time_input_buffer = "99:99".to_string();
    f.parse_time_input();
    assert_eq!((f.start_hour, f.start_minute, f.time_input_buffer.as_str()), (23, 59, "23:59"));
    f.time_input_buffer = "45".to_string();
    f.parse_time_input();
    assert_eq!((f.start_hour, f.start_minute), (23, 0));
}

#[test]
fn malformed_time_buffer_changes_nothing() {
    let mut f = form();
    f.time_input_buffer = "12345".to_string();
    f.parse_time_input();
    assert_eq!((f.start_hour, f.start_minute, f.time_input_buffer.as_str()), (9, 0, "12345"));
    f.time_input_buffer = "".to_string();
    f.parse_time_input();
    assert_eq!((f.start_hour, f.start_minute, f.time_input_buffer.as_str()), (9, 0, ""));
}

#[test]
fn duration_clamps_to_a_week_or_a_year() {
    let mut f = form();
    f.duration_input_buffer = "99999".to_string();
    f.parse_duration_input();
    assert_eq!(f.duration_minutes, 10080);
    f.duration_input_buffer = "0".to_string();
    f.parse_duration_input();
    assert_eq!(f.duration_minutes, 1);
    let mut d = EventForm::new_all_day(Date { year: 2025, month: 1, day: 15 }, String::new(), 2);
    d.duration_input_buffer = "99999".to_string();
    d.parse_duration_input();
    assert_eq!(d.duration_minutes, 365 * 24 * 60);
    d.duration_input_buffer = "abc".to_string();
    d.parse_duration_input();
    assert_eq!(d.duration_minutes, 365 * 24 * 60);
}

#[test]
fn typing_duration_then_tab_parses_and_moves_on() {
    let mut state = AppState::new();
    let mut f = form();
    f.active_field = FormField::Duration;
    state.event_form = Some(f);
    handle_key(Key::Char('9'), &mut state);
    handle_key(Key::Char('0'), &mut state);
    assert_eq!(state.event_form.as_ref().unwrap().duration_input_buffer, "90");
    handle_key(Key::Tab, &mut state);
    let f = state.event_form.as_ref().unwrap();
    assert_eq!(f.duration_minutes, 90);
    assert_eq!(f.active_field, FormField::Location);
}

#[test]
fn buffers_stop_at_five_characters_and_reject_other_keys() {
    let mut f = form();
    f.active_field = FormField::StartTime;
    for c in ['1', 'x', '2', ':', '3', '4', '5', '6'] {
        f.handle_key(Key::Char(c));
    }
    assert_eq!(f.time_input_buffer, "12:34");
}

#[test]
fn field_cycle_skips_start_time_for_all_day() {
    let mut f = EventForm::new_all_day(Date { year: 2025, month: 1, day: 15 }, String::new(), 2);
    let mut seen = vec![f.active_field];
    for _ in 0..4 {
        f.next_field();
        seen.push(f.active_field);
    }
    assert_eq!(
        seen,
        vec![FormField::Title, FormField::Duration, FormField::Location, FormField::Description, FormField::Title]
    );
    f.prev_field();
    assert_eq!(f.active_field, FormField::Description);
    f.active_field = FormField::Duration;
    f.prev_field();
    assert_eq!(f.active_field, FormField::Title);
}

#[test]
fn new_form_buffers_show_its_values() {
    let f = form();
    assert_eq!(f.time_input_buffer, "09:00");
    assert_eq!(f.duration_input_buffer, "60");
    assert!(!f.is_editing());
    let d = EventForm::new_all_day(Date { year: 2025, month: 1, day: 15 }, "Trip".to_string(), 12);
    assert_eq!(d.duration_input_buffer, "12");
    assert_eq!(d.duration_minutes, 12 * 24 * 60);
}
