use vstd::prelude::*;
use vstd::string::StringExecFns;
use crate::date::{Date, today_local};
use crate::form::EventForm;
use crate::key::Key;
use crate::session::{AppState, Mode, ViewType, lists_day};

verus! {

/// The date after moving by `delta` days where that date exists, else the
/// date unchanged.
pub open spec fn moved_or_kept(d: Option<Date>, old_date: Date) -> Date {
    match d {
        Some(n) => n,
        None => old_date,
    }
}

/// Whether `j`/`k` move through the day's events rather than by weeks.
pub open spec fn moves_through_events(s: &AppState) -> bool {
    s.view == ViewType::Day || s.day_count() > 0
}

/// `f` is `o` with the calendar cursor on `target`, the event selection reset
/// where the date changed, and nothing else changed.
pub open spec fn moved(o: AppState, f: AppState, target: Date) -> bool {
    f == (AppState {
        selected_date: target,
        selected_event_index: if target != o.selected_date { 0 } else { o.selected_event_index },
        ..o
    })
}

/// The keys that Normal mode binds.
pub open spec fn normal_bound(key: Key) -> bool {
    key == Key::Enter || (key matches Key::Char(c) && (c == 'h' || c == 'j' || c == 'k' || c == 'l'
        || c == 't' || c == 'm' || c == 'w' || c == 'd' || c == 'y' || c == 'a' || c == 'E' || c
        == 'x' || c == 'v' || c == 'i' || c == ':' || c == '?' || c == 'g' || c == 'G' || c == '{'
        || c == '}'))
}

pub(crate) fn move_to(state: &mut AppState, target: Option<Date>)
    requires
        old(state).wf(),
        target matches Some(d) ==> d.valid(),
    ensures
        final(state).wf(),
        moved(*old(state), *final(state), moved_or_kept(target, old(state).selected_date)),
{
    if let Some(d) = target {
        state.set_selected_date(d);
    }
}

fn enter_edit_mode(state: &mut AppState)
    requires
        old(state).wf(),
        old(state).mode == Mode::Normal,
    ensures
        final(state).wf(),
        final(state).events@ == old(state).events@,
        final(state).selected_date == old(state).selected_date,
        final(state).view == old(state).view,
        old(state).selected_event_index < old(state).day_count() ==> {
            &&& final(state).mode == Mode::Insert
            &&& (final(state).event_form matches Some(f) && exists|idx: Seq<usize>|
                lists_day(old(state).events@, old(state).selected_date, idx) && f.event_id == Some(
                    old(state).events@[idx[old(state).selected_event_index as int] as int].id,
                ))
        },
        old(state).selected_event_index >= old(state).day_count() ==> *final(state) == *old(state),
{
    let form = match state.get_selected_event() {
        Some(event) => {
            proof {
                let idx = choose|idx: Seq<usize>|
                    lists_day(state.events@, state.selected_date, idx) && *event == state.events@[idx[state.selected_event_index as int] as int];
                assert(state.events@[idx[state.selected_event_index as int] as int].valid());
            }
            Some(EventForm::for_event(event))
        },
        None => None,
    };
    if let Some(f) = form {
        state.event_form = Some(f);
        state.mode = Mode::Insert;
    }
}

/// Handles one key in Normal mode; keys without a binding change nothing.
pub fn handle_key(key: Key, state: &mut AppState)
    requires
        old(state).wf(),
        old(state).mode == Mode::Normal,
    ensures
        final(state).wf(),
        final(state).events@ == old(state).events@,
        final(state).selected_date != old(state).selected_date ==> final(state).selected_event_index == 0,
        !normal_bound(key) ==> *final(state) == *old(state),
        key == Key::Char('h') ==> moved(*old(state), *final(state), moved_or_kept(
            old(state).selected_date.prev(),
            old(state).selected_date,
        )),
        key == Key::Char('l') ==> moved(*old(state), *final(state), moved_or_kept(
            old(state).selected_date.next(),
            old(state).selected_date,
        )),
        key == Key::Char('j') && !moves_through_events(old(state)) ==> moved(*old(state), *final(state), moved_or_kept(
            old(state).selected_date.plus_days(7),
            old(state).selected_date,
        )),
        key == Key::Char('k') && !moves_through_events(old(state)) ==> moved(*old(state), *final(state), moved_or_kept(
            old(state).selected_date.minus_days(7),
            old(state).selected_date,
        )),
        key == Key::Char('j') && moves_through_events(old(state)) ==> *final(state) == (AppState {
            selected_event_index: (if old(state).day_count() > 0 && old(state).selected_event_index
                < old(state).day_count() - 1 {
                old(state).selected_event_index + 1
            } else {
                old(state).selected_event_index as int
            }) as usize,
            ..*old(state)
        }),
        key == Key::Char('k') && moves_through_events(old(state)) ==> *final(state) == (AppState {
            selected_event_index: (if old(state).selected_event_index > 0 {
                old(state).selected_event_index - 1
            } else {
                0int
            }) as usize,
            ..*old(state)
        }),
        key == Key::Char('g') ==> moved(*old(state), *final(state), old(state).selected_date.first_of_month()),
        key == Key::Char('G') ==> moved(*old(state), *final(state), old(state).selected_date.last_of_month()),
        key == Key::Char('{') ==> moved(*old(state), *final(state), moved_or_kept(
            old(state).selected_date.month_shifted(false),
            old(state).selected_date,
        )),
        key == Key::Char('}') ==> moved(*old(state), *final(state), moved_or_kept(
            old(state).selected_date.month_shifted(true),
            old(state).selected_date,
        )),
        key == Key::Char('t') ==> final(state).selected_event_index == 0 && final(state).mode == Mode::Normal,
        key == Key::Char('m') ==> *final(state) == (AppState { view: ViewType::Month, ..*old(state) }),
        key == Key::Char('w') ==> *final(state) == (AppState { view: ViewType::Week, ..*old(state) }),
        key == Key::Char('d') ==> *final(state) == (AppState { view: ViewType::Day, ..*old(state) }),
        key == Key::Char('y') ==> *final(state) == (AppState { view: ViewType::Year, ..*old(state) }),
        key == Key::Char('a') ==> final(state).mode == Mode::Insert && (final(state).event_form matches Some(
            f,
        ) && f.date == old(state).selected_date && f.event_id is None && f.title@.len() == 0)
            && final(state).selected_date == old(state).selected_date,
        key == Key::Char('E') && old(state).selected_event_index < old(state).day_count() ==> final(state).mode == Mode::Insert
            && final(state).event_form is Some,
        key == Key::Char('E') && old(state).selected_event_index >= old(state).day_count() ==> *final(state) == *old(state),
        key == Key::Char('x') && old(state).selected_event_index < old(state).day_count() ==> final(state).mode == Mode::Visual
            && final(state).delete_confirmation_event_id is Some && final(state).selected_date == old(state).selected_date,
        key == Key::Char('v') ==> *final(state) == (AppState {
            mode: Mode::Visual,
            visual_selection_start: Some(old(state).selected_date),
            ..*old(state)
        }),
        key == Key::Char(':') ==> final(state).mode == Mode::Command && final(state).command_buffer@ == ":"@,
        key == Key::Char('?') ==> final(state).mode == Mode::Command && final(state).command_buffer@ == ":help"@,
        key == Key::Enter && (old(state).view == ViewType::Month || old(state).view == ViewType::Week)
            ==> *final(state) == (AppState { view: ViewType::Day, ..*old(state) }),
{
    match key {
        Key::Char('h') => {
            let d = state.selected_date.pred();
            move_to(state, d);
        },
        Key::Char('l') => {
            let d = state.selected_date.succ();
            move_to(state, d);
        },
        Key::Char('j') => {
            if state.view == ViewType::Day || state.has_events_on_selected_date() {
                state.move_event_selection_down();
            } else {
                let d = state.selected_date.checked_add_days(7);
                move_to(state, d);
            }
        },
        Key::Char('k') => {
            if state.view == ViewType::Day || state.has_events_on_selected_date() {
                state.move_event_selection_up();
            } else {
                let d = state.selected_date.checked_sub_days(7);
                move_to(state, d);
            }
        },
        Key::Char('t') => {
            state.selected_date = today_local();
            state.selected_event_index = 0;
        },
        Key::Char('m') => state.view = ViewType::Month,
        Key::Char('w') => state.view = ViewType::Week,
        Key::Char('d') => state.view = ViewType::Day,
        Key::Char('y') => state.view = ViewType::Year,
        Key::Char('a') => {
            state.event_form = Some(EventForm::new(state.selected_date, String::new()));
            state.mode = Mode::Insert;
        },
        Key::Char('E') => enter_edit_mode(state),
        Key::Char('x') => {
            let id = match state.get_selected_event() {
                Some(event) => Some(event.id.clone()),
                None => None,
            };
            if let Some(id) = id {
                state.delete_confirmation_event_id = Some(id);
                state.mode = Mode::Visual;
            }
        },
        Key::Char('v') => {
            state.visual_selection_start = Some(state.selected_date);
            state.mode = Mode::Visual;
        },
        Key::Char('i') => {
            let id = match state.get_selected_event() {
                Some(event) => Some(event.id.clone()),
                None => None,
            };
            if let Some(id) = id {
                state.detail_view_event_id = Some(id);
                state.detail_view_scroll = 0;
                state.detail_view_cursor_line = 0;
                state.detail_view_cursor_col = 0;
            }
        },
        Key::Enter => {
            match state.view {
                ViewType::Month | ViewType::Week => state.view = ViewType::Day,
                ViewType::Day => enter_edit_mode(state),
                ViewType::Year => {},
            }
        },
        Key::Char(':') => {
            state.mode = Mode::Command;
            state.command_buffer = String::from_str(":");
        },
        Key::Char('?') => {
            state.mode = Mode::Command;
            state.command_buffer = String::from_str(":help");
        },
        Key::Char('g') => {
            let d = state.selected_date.first_day_of_month();
            move_to(state, Some(d));
        },
        Key::Char('G') => {
            let d = state.selected_date.last_day_of_month();
            move_to(state, Some(d));
        },
        Key::Char('{') => {
            let d = state.selected_date.shift_month(false);
            move_to(state, d);
        },
        Key::Char('}') => {
            let d = state.selected_date.shift_month(true);
            move_to(state, d);
        },
        _ => {},
    }
}

} // verus!
