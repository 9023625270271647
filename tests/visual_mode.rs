use gcal_imp::date::Date;
use gcal_imp::key::Key;
use gcal_imp::session::{AppState, Mode};
use gcal_imp::visual_mode::handle_key;

fn setup_visual_state() -> AppState {
    let mut state = AppState::new();
    let start_date = Date::from_ymd(2025, 1, 10).unwrap();
    state.selected_date = start_date;
    state.visual_selection_start = Some(start_date);
    state.mode = Mode::Visual;
    state
}

#[test]
fn h_key_moves_selection_left() {
    let mut state = setup_visual_state();
    let start = state.selected_date;
    handle_key(Key::Char('h'), &mut state);
    assert_eq!(state.selected_date, start.checked_sub_days(1).unwrap());
}

#[test]
fn l_key_moves_selection_right() {
    let mut state = setup_visual_state();
    let start = state.selected_date;
    handle_key(Key::Char('l'), &mut state);
    assert_eq!(state.selected_date, start.checked_add_days(1).unwrap());
}

#[test]
fn esc_exits_visual_mode() {
    let mut state = setup_visual_state();
    handle_key(Key::Esc, &mut state);
    assert_eq!(state.mode, Mode::Normal);
    assert_eq!(state.visual_selection_start, None);
}

#[test]
fn enter_creates_multiday_event_form_for_visual_range() {
    let mut state = setup_visual_state();
    state.selected_date = state.selected_date.checked_add_days(2).unwrap();
    handle_key(Key::Enter, &mut state);
    assert_eq!(state.mode, Mode::Insert);
    assert!(state.event_form.is_some());
    let form = state.event_form.as_ref().unwrap();
    assert_eq!(form.duration_minutes, 3 * 24 * 60);
    assert_eq!(form.all_day, true);
}

#[test]
fn three_day_range_makes_all_day_form_from_its_start() {
    let mut state = setup_visual_state();
    state.selected_date = Date::from_ymd(2025, 1, 12).unwrap();
    handle_key(Key::Char('a'), &mut state);
    let form = state.event_form.as_ref().unwrap();
    assert_eq!(form.date, Date::from_ymd(2025, 1, 10).unwrap());
    assert_eq!(form.title, "3-day Event");
    assert_eq!(form.duration_minutes, 3 * 24 * 60);
    assert!(form.all_day);
    assert_eq!(state.visual_selection_start, None);
}

#[test]
fn backwards_range_starts_at_the_earlier_date() {
    let mut state = setup_visual_state();
    handle_key(Key::Char('k'), &mut state);
    assert_eq!(state.selected_date, Date::from_ymd(2025, 1, 3).unwrap());
    handle_key(Key::Enter, &mut state);
    let form = state.event_form.as_ref().unwrap();
    assert_eq!(form.date, Date::from_ymd(2025, 1, 3).unwrap());
    assert_eq!(form.title, "8-day Event");
}

#[test]
fn single_day_range_makes_timed_form() {
    let mut state = setup_visual_state();
    handle_key(Key::Enter, &mut state);
    let form = state.event_form.as_ref().unwrap();
    assert_eq!(form.title, "New Event");
    assert!(!form.all_day);
    assert_eq!(form.duration_minutes, 60);
}
