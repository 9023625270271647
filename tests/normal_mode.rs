use chrono::{Datelike, Local};
use gcal_imp::date::Date;
use gcal_imp::key::Key;
use gcal_imp::normal_mode::handle_key;
use gcal_imp::session::{AppState, Mode, ViewType};

fn date(year: i32, month: u32, day: u32) -> Date {
    Date::from_ymd(year, month, day).unwrap()
}

#[test]
fn h_key_moves_to_previous_day() {
    let mut state = AppState::new();
    state.selected_date = date(2025, 1, 15);
    handle_key(Key::Char('h'), &mut state);
    assert_eq!(state.selected_date, date(2025, 1, 14));
}

#[test]
fn l_key_moves_to_next_day() {
    let mut state = AppState::new();
    state.selected_date = date(2025, 1, 15);
    handle_key(Key::Char('l'), &mut state);
    assert_eq!(state.selected_date, date(2025, 1, 16));
}

#[test]
fn j_key_moves_down_one_week_when_no_events() {
    let mut state = AppState::new();
    state.selected_date = date(2025, 1, 15);
    handle_key(Key::Char('j'), &mut state);
    assert_eq!(state.selected_date, date(2025, 1, 22));
}

#[test]
fn k_key_moves_up_one_week_when_no_events() {
    let mut state = AppState::new();
    state.selected_date = date(2025, 1, 15);
    handle_key(Key::Char('k'), &mut state);
    assert_eq!(state.selected_date, date(2025, 1, 8));
}

#[test]
fn t_key_jumps_to_today() {
    let mut state = AppState::new();
    state.selected_date = date(2025, 1, 1);
    handle_key(Key::Char('t'), &mut state);
    let today = Local::now().date_naive();
    assert_eq!(state.selected_date, date(today.year(), today.month(), today.day()));
}

#[test]
fn g_key_moves_to_first_day_of_month() {
    let mut state = AppState::new();
    state.selected_date = date(2025, 1, 15);
    handle_key(Key::Char('g'), &mut state);
    assert_eq!(state.selected_date, date(2025, 1, 1));
}

#[test]
fn shift_g_moves_to_last_day_of_month() {
    let mut state = AppState::new();
    state.selected_date = date(2025, 1, 15);
    handle_key(Key::Char('G'), &mut state);
    assert_eq!(state.selected_date, date(2025, 1, 31));
}

#[test]
fn left_brace_moves_to_previous_month() {
    let mut state = AppState::new();
    state.selected_date = date(2025, 2, 15);
    handle_key(Key::Char('{'), &mut state);
    assert_eq!(state.selected_date, date(2025, 1, 15));
}

#[test]
fn right_brace_moves_to_next_month() {
    let mut state = AppState::new();
    state.selected_date = date(2025, 1, 15);
    handle_key(Key::Char('}'), &mut state);
    assert_eq!(state.selected_date, date(2025, 2, 15));
}

#[test]
fn m_key_switches_to_month_view() {
    let mut state = AppState::new();
    state.view = ViewType::Day;
    handle_key(Key::Char('m'), &mut state);
    assert_eq!(state.view, ViewType::Month);
}

#[test]
fn w_key_switches_to_week_view() {
    let mut state = AppState::new();
    state.view = ViewType::Month;
    handle_key(Key::Char('w'), &mut state);
    assert_eq!(state.view, ViewType::Week);
}

#[test]
fn d_key_switches_to_day_view() {
    let mut state = AppState::new();
    state.view = ViewType::Month;
    handle_key(Key::Char('d'), &mut state);
    assert_eq!(state.view, ViewType::Day);
}

#[test]
fn y_key_switches_to_year_view() {
    let mut state = AppState::new();
    state.view = ViewType::Month;
    handle_key(Key::Char('y'), &mut state);
    assert_eq!(state.view, ViewType::Year);
}

#[test]
fn a_key_enters_insert_mode_with_form() {
    let mut state = AppState::new();
    state.mode = Mode::Normal;
    state.selected_date = date(2025, 1, 15);
    handle_key(Key::Char('a'), &mut state);
    assert_eq!(state.mode, Mode::Insert);
    assert!(state.event_form.is_some());
    assert_eq!(state.event_form.as_ref().unwrap().date, date(2025, 1, 15));
}

#[test]
fn colon_enters_command_mode() {
    let mut state = AppState::new();
    state.mode = Mode::Normal;
    handle_key(Key::Char(':'), &mut state);
    assert_eq!(state.mode, Mode::Command);
    assert_eq!(state.command_buffer, ":");
}

#[test]
fn previous_day_four_times_and_previous_month_across_the_year() {
    let mut state = AppState::new();
    state.selected_date = date(2025, 1, 15);
    for _ in 0..4 {
        handle_key(Key::Char('h'), &mut state);
    }
    assert_eq!(state.selected_date, date(2025, 1, 11));
    state.selected_date = date(2025, 1, 15);
    handle_key(Key::Char('{'), &mut state);
    assert_eq!(state.selected_date, date(2024, 12, 15));
}

#[test]
fn month_moves_clamp_the_day() {
    let mut state = AppState::new();
    state.selected_date = date(2025, 1, 31);
    handle_key(Key::Char('}'), &mut state);
    assert_eq!(state.selected_date, date(2025, 2, 28));
    state.selected_date = date(2024, 3, 31);
    handle_key(Key::Char('{'), &mut state);
    assert_eq!(state.selected_date, date(2024, 2, 29));
    state.selected_date = date(2025, 12, 20);
    handle_key(Key::Char('}'), &mut state);
    assert_eq!(state.selected_date, date(2026, 1, 20));
}

#[test]
fn day_moves_cross_month_and_year_ends() {
    let mut state = AppState::new();
    state.selected_date = date(2024, 12, 31);
    handle_key(Key::Char('l'), &mut state);
    assert_eq!(state.selected_date, date(2025, 1, 1));
    state.selected_date = date(2024, 3, 1);
    handle_key(Key::Char('h'), &mut state);
    assert_eq!(state.selected_date, date(2024, 2, 29));
    state.selected_date = date(2025, 2, 25);
    handle_key(Key::Char('j'), &mut state);
    assert_eq!(state.selected_date, date(2025, 3, 4));
}

#[test]
fn v_starts_range_and_question_mark_opens_help_command() {
    let mut state = AppState::new();
    state.selected_date = date(2025, 1, 15);
    handle_key(Key::Char('v'), &mut state);
    assert_eq!(state.mode, Mode::Visual);
    assert_eq!(state.visual_selection_start, Some(date(2025, 1, 15)));
    let mut state = AppState::new();
    handle_key(Key::Char('?'), &mut state);
    assert_eq!(state.mode, Mode::Command);
    assert_eq!(state.command_buffer, ":help");
}

#[test]
fn enter_opens_day_view_from_month() {
    let mut state = AppState::new();
    handle_key(Key::Enter, &mut state);
    assert_eq!(state.view, ViewType::Day);
}
