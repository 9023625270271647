use gcal_imp::session::{AppState, Mode};
use gcal_imp::theme::Theme;

#[test]
fn themes_by_name_and_listing() {
    assert_eq!(Theme::get_by_name("gruvbox"), Theme::gruvbox());
    assert_eq!(Theme::get_by_name("Dracula"), Theme::dracula());
    assert_eq!(Theme::get_by_name("solarized-dark"), Theme::solarized_dark());
    assert_eq!(Theme::get_by_name("MONOKAI"), Theme::monokai());
    assert_eq!(Theme::get_by_name("nord"), Theme::nord());
    assert_eq!(Theme::get_by_name(""), Theme::default_theme());
    assert_eq!(
        Theme::available_themes(),
        vec!["default", "gruvbox", "nord", "dracula", "solarized-dark", "monokai"]
    );
}

#[test]
fn session_defaults_and_theme_choice() {
    let state = AppState::default().with_theme(Theme::nord());
    assert_eq!(state.theme, Theme::Nord);
    assert_eq!(state.mode, Mode::Normal);
    let mut state = state;
    state.selected_event_index = 3;
    state.reset_event_selection();
    assert_eq!(state.selected_event_index, 0);
}
