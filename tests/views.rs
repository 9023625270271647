use chrono::{Datelike, Local, Utc, Weekday};
use gcal_imp::date::Date;
use gcal_imp::event::{DateTime, Event, EventStatus};
use gcal_imp::session::AppState;
use gcal_imp::week_view::WeekLayout;
use gcal_imp::{day_view, month_view, week_view, year_view};

fn date(year: i32, month: u32, day: u32) -> Date {
    Date::from_ymd(year, month, day).unwrap()
}

fn chrono_weekday(d: Date) -> Weekday {
    chrono::NaiveDate::from_ymd_opt(d.year, d.month, d.day).unwrap().weekday()
}

fn create_event(id: &str, title: &str, date: Date, hour: u32, minute: u32, duration_minutes: u32) -> Event {
    let start = DateTime { date, minute: hour * 60 + minute };
    let end_total = hour * 60 + minute + duration_minutes;
    let end = DateTime {
        date: date.checked_add_days(end_total / 1440).unwrap(),
        minute: end_total % 1440,
    };
    Event {
        id: id.to_string(),
        calendar_id: "primary".to_string(),
        title: title.to_string(),
        description: None,
        location: None,
        start,
        end,
        all_day: false,
        attendees: vec![],
        reminders: vec![],
        status: EventStatus::Confirmed,
        last_modified: Utc::now().timestamp(),
        html_link: None,
    }
}

fn state_on(d: Date) -> AppState {
    let mut state = AppState::new();
    state.selected_date = d;
    state
}

#[test]
fn day_layout_has_date() {
    let layout = day_view::calculate_layout(&state_on(date(2025, 1, 15)));
    assert_eq!(layout.date, date(2025, 1, 15));
}

#[test]
fn day_layout_has_24_hours() {
    let layout = day_view::calculate_layout(&state_on(date(2025, 1, 15)));
    assert_eq!(layout.hours.len(), 24);
}

#[test]
fn hours_are_in_order() {
    let layout = day_view::calculate_layout(&state_on(date(2025, 1, 15)));
    for (i, hour_block) in layout.hours.iter().enumerate() {
        assert_eq!(hour_block.hour, i as u32);
    }
}

#[test]
fn events_are_placed_in_correct_hour() {
    let mut state = state_on(date(2025, 1, 15));
    state.add_event(create_event("e1", "Morning Meeting", date(2025, 1, 15), 9, 30, 60));
    let layout = day_view::calculate_layout(&state);
    let hour_9 = &layout.hours[9];
    assert_eq!(hour_9.events.len(), 1);
    assert_eq!(hour_9.events[0].title, "Morning Meeting");
}

#[test]
fn event_entry_includes_start_minute() {
    let mut state = state_on(date(2025, 1, 15));
    state.add_event(create_event("e1", "Meeting", date(2025, 1, 15), 10, 45, 60));
    let layout = day_view::calculate_layout(&state);
    assert_eq!(layout.hours[10].events[0].start_minute, 45);
}

#[test]
fn event_entry_includes_duration() {
    let mut state = state_on(date(2025, 1, 15));
    state.add_event(create_event("e1", "Long Meeting", date(2025, 1, 15), 14, 0, 120));
    let layout = day_view::calculate_layout(&state);
    assert_eq!(layout.hours[14].events[0].duration_minutes, 120);
}

#[test]
fn day_view_multiple_events_in_same_hour() {
    let mut state = state_on(date(2025, 1, 15));
    state.add_event(create_event("e1", "Meeting A", date(2025, 1, 15), 10, 0, 30));
    state.add_event(create_event("e2", "Meeting B", date(2025, 1, 15), 10, 30, 30));
    let layout = day_view::calculate_layout(&state);
    assert_eq!(layout.hours[10].events.len(), 2);
}

#[test]
fn empty_hours_have_no_events() {
    let layout = day_view::calculate_layout(&state_on(date(2025, 1, 15)));
    assert_eq!(layout.hours[0].events.len(), 0);
}

#[test]
fn is_today_flag_set_correctly() {
    let today = Local::now().date_naive();
    let layout = day_view::calculate_layout(&state_on(date(today.year(), today.month(), today.day())));
    assert!(layout.is_today);
}

#[test]
fn is_today_flag_false_for_other_days() {
    let layout = day_view::calculate_layout(&state_on(date(2025, 1, 1)));
    assert!(!layout.is_today);
}

#[test]
fn month_layout_has_correct_year_and_month() {
    let layout = month_view::calculate_layout(&state_on(date(2025, 1, 15)));
    assert_eq!(layout.year, 2025);
    assert_eq!(layout.month, 1);
}

#[test]
fn month_layout_has_weeks() {
    let layout = month_view::calculate_layout(&state_on(date(2025, 1, 15)));
    assert!(!layout.weeks.is_empty());
}

#[test]
fn selected_date_is_marked_in_layout() {
    let layout = month_view::calculate_layout(&state_on(date(2025, 1, 15)));
    let selected_cells: Vec<_> = layout.weeks.iter().flat_map(|w| &w.days).filter(|c| c.is_selected).collect();
    assert_eq!(selected_cells.len(), 1);
    assert_eq!(selected_cells[0].date, Some(date(2025, 1, 15)));
}

#[test]
fn cells_with_events_are_marked() {
    let mut state = state_on(date(2025, 1, 15));
    let event_date = date(2025, 1, 10);
    state.add_event(create_event("event1", "Event", event_date, 10, 0, 60));
    let layout = month_view::calculate_layout(&state);
    let event_cells: Vec<_> = layout
        .weeks
        .iter()
        .flat_map(|w| &w.days)
        .filter(|c| c.has_events && c.date == Some(event_date))
        .collect();
    assert_eq!(event_cells.len(), 1);
}

#[test]
fn each_week_has_seven_days() {
    let layout = month_view::calculate_layout(&state_on(date(2025, 1, 15)));
    for week in &layout.weeks {
        assert_eq!(week.days.len(), 7);
    }
}

#[test]
fn previous_month_days_marked_as_not_current() {
    let layout = month_view::calculate_layout(&state_on(date(2025, 1, 15)));
    let first_week = &layout.weeks[0];
    let prev_month_days: Vec<_> = first_week.days.iter().filter(|c| !c.is_current_month).collect();
    assert!(!prev_month_days.is_empty());
}

#[test]
fn month_grid_rows_run_monday_to_sunday() {
    for (y, m) in [(2025, 1), (2025, 2), (2024, 2), (2025, 6), (2026, 3), (1900, 2), (2000, 2)] {
        let layout = month_view::calculate_layout(&state_on(date(y, m, 1)));
        let cells: Vec<_> = layout.weeks.iter().flat_map(|w| &w.days).collect();
        assert_eq!(cells.len(), layout.weeks.len() * 7);
        for (i, c) in cells.iter().enumerate() {
            let d = c.date.unwrap();
            let expected = [Weekday::Mon, Weekday::Tue, Weekday::Wed, Weekday::Thu, Weekday::Fri, Weekday::Sat, Weekday::Sun][i % 7];
            assert_eq!(chrono_weekday(d), expected);
            assert_eq!(c.is_current_month, d.month == m);
            if i > 0 {
                assert_eq!(cells[i - 1].date.unwrap().checked_add_days(1).unwrap(), d);
            }
        }
        assert_eq!(cells.iter().filter(|c| c.date == Some(date(y, m, 1))).count(), 1);
    }
}

#[test]
fn week_of_date_returns_monday() {
    let monday = WeekLayout::week_of_date(date(2025, 1, 15));
    assert_eq!(monday, date(2025, 1, 13));
    assert_eq!(chrono_weekday(monday), Weekday::Mon);
}

#[test]
fn week_of_date_for_monday_returns_same_date() {
    let monday = date(2025, 1, 13);
    assert_eq!(WeekLayout::week_of_date(monday), monday);
}

#[test]
fn week_of_date_for_sunday_returns_previous_monday() {
    assert_eq!(WeekLayout::week_of_date(date(2025, 1, 19)), date(2025, 1, 13));
}

#[test]
fn week_layout_has_seven_days() {
    let layout = week_view::calculate_layout(&state_on(date(2025, 1, 15)));
    assert_eq!(layout.days.len(), 7);
}

#[test]
fn week_layout_starts_on_monday() {
    let layout = week_view::calculate_layout(&state_on(date(2025, 1, 15)));
    assert_eq!(chrono_weekday(layout.days[0].date), Weekday::Mon);
}

#[test]
fn week_layout_ends_on_sunday() {
    let layout = week_view::calculate_layout(&state_on(date(2025, 1, 15)));
    assert_eq!(chrono_weekday(layout.days[6].date), Weekday::Sun);
}

#[test]
fn week_view_selected_date_is_marked() {
    let layout = week_view::calculate_layout(&state_on(date(2025, 1, 15)));
    let selected_days: Vec<_> = layout.days.iter().filter(|d| d.is_selected).collect();
    assert_eq!(selected_days.len(), 1);
    assert_eq!(selected_days[0].date, date(2025, 1, 15));
}

#[test]
fn events_are_organized_by_hour() {
    let mut state = state_on(date(2025, 1, 15));
    state.add_event(create_event("e1", "Morning", date(2025, 1, 15), 9, 0, 60));
    state.add_event(create_event("e2", "Afternoon", date(2025, 1, 15), 14, 0, 120));
    let layout = week_view::calculate_layout(&state);
    let time_slots = &layout.days[2].events;
    assert_eq!(time_slots.len(), 2);
    assert_eq!(time_slots[0].hour, 9);
    assert_eq!(time_slots[1].hour, 14);
}

#[test]
fn event_block_includes_duration() {
    let mut state = state_on(date(2025, 1, 15));
    state.add_event(create_event("e1", "Long Meeting", date(2025, 1, 15), 10, 0, 120));
    let layout = week_view::calculate_layout(&state);
    assert_eq!(layout.days[2].events[0].events[0].duration_minutes, 120);
}

#[test]
fn week_view_multiple_events_in_same_hour() {
    let mut state = state_on(date(2025, 1, 15));
    state.add_event(create_event("e1", "Meeting A", date(2025, 1, 15), 10, 0, 60));
    state.add_event(create_event("e2", "Meeting B", date(2025, 1, 15), 10, 0, 60));
    let layout = week_view::calculate_layout(&state);
    assert_eq!(layout.days[2].events[0].events.len(), 2);
}

#[test]
fn year_layout_has_twelve_months() {
    let layout = year_view::calculate_layout(&state_on(date(2025, 6, 15)));
    assert_eq!(layout.months.len(), 12);
    assert_eq!(layout.year, 2025);
}

#[test]
fn january_has_31_days() {
    let layout = year_view::calculate_layout(&state_on(date(2025, 1, 1)));
    assert_eq!(layout.months[0].days.len(), 31);
}

#[test]
fn february_2024_has_29_days() {
    let layout = year_view::calculate_layout(&state_on(date(2024, 2, 1)));
    assert_eq!(layout.months[1].days.len(), 29);
}

#[test]
fn year_view_selected_date_is_marked() {
    let layout = year_view::calculate_layout(&state_on(date(2025, 6, 15)));
    let june = &layout.months[5];
    let selected_days: Vec<_> = june.days.iter().filter(|d| d.is_selected).collect();
    assert_eq!(selected_days.len(), 1);
    assert_eq!(selected_days[0].day, 15);
}

#[test]
fn year_grid_first_weekdays_match_the_calendar() {
    let layout = year_view::calculate_layout(&state_on(date(2025, 6, 15)));
    for (i, g) in layout.months.iter().enumerate() {
        let first = date(2025, i as u32 + 1, 1);
        assert_eq!(g.first_weekday, chrono_weekday(first).num_days_from_monday());
    }
    assert_eq!(layout.months[1].days.len(), 28);
}

#[test]
fn year_grid_week_rows() {
    let layout = year_view::calculate_layout(&state_on(date(2025, 6, 15)));
    let rows: Vec<u32> = layout.months.iter().map(|g| g.week_rows()).collect();
    assert_eq!(rows, vec![5, 5, 6, 5, 5, 6, 5, 5, 5, 5, 5, 5]);
}
