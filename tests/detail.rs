use gcal_imp::date::Date;
use gcal_imp::detail::{build_event_detail_lines, refresh_detail_view_lines};
use gcal_imp::event::{DateTime, Event, EventStatus};
use gcal_imp::session::AppState;

fn event(all_day: bool, start: u32, end_day: u32, end: u32) -> Event {
    Event {
        id: "e1".to_string(),
        calendar_id: "primary".to_string(),
        title: "Planning".to_string(),
        description: Some("<p>Agenda</p>".to_string()),
        location: Some("Room 4".to_string()),
        start: DateTime { date: Date { year: 2025, month: 1, day: 15 }, minute: start },
        end: DateTime { date: Date { year: 2025, month: 1, day: end_day }, minute: end },
        all_day,
        attendees: vec!["ann@example.com".to_string()],
        reminders: vec![],
        status: EventStatus::Confirmed,
        last_modified: 0,
        html_link: None,
    }
}

#[test]
fn detail_text_of_a_timed_event() {
    let lines = build_event_detail_lines(&event(false, 9 * 60 + 5, 15, 11 * 60 + 20));
    assert_eq!(
        lines,
        vec![
            "Planning",
            "",
            "📅 Wednesday, January 15, 2025 at 09:05",
            "⏱  2 hours 15 min",
            "",
            "📍 Location:",
            "   Room 4",
            "",
            "📝 Description:",
            "",
            "Agenda",
            "",
            "👥 Attendees:",
            "   • ann@example.com",
            "",
            "hjkl = Move | wbe = Word | 0^$ = Line | gG = Top/Bottom",
            "o = Open URL | y = Yank line | B = Browser | E = Edit | q/Esc = Close",
        ]
    );
}

#[test]
fn detail_durations_by_kind() {
    let short = build_event_detail_lines(&event(false, 600, 15, 645));
    assert_eq!(short[3], "⏱  45 minutes");
    let hour = build_event_detail_lines(&event(false, 600, 15, 660));
    assert_eq!(hour[3], "⏱  1 hour 0 min");
    let trip = build_event_detail_lines(&event(true, 0, 18, 0));
    assert_eq!(trip[2], "📅 Wednesday, January 15, 2025");
    assert_eq!(trip[3], "⏱  3 days");
    let one_day = build_event_detail_lines(&event(true, 0, 16, 0));
    assert_eq!(one_day[3], "");
}

#[test]
fn refresh_follows_the_open_event() {
    let mut state = AppState::new();
    state.add_event(event(false, 600, 15, 660));
    refresh_detail_view_lines(&mut state);
    assert!(state.detail_view_line_text.is_empty());
    state.detail_view_event_id = Some("e1".to_string());
    refresh_detail_view_lines(&mut state);
    assert_eq!(state.detail_view_line_text[0], "Planning");
    state.detail_view_event_id = Some("gone".to_string());
    refresh_detail_view_lines(&mut state);
    assert!(state.detail_view_line_text.is_empty());
}
