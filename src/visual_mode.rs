use vstd::prelude::*;
use vstd::string::StringExecFns;
use crate::date::Date;
use crate::event::MINUTES_PER_DAY;
use crate::form::{EventForm, decimal};
use crate::key::Key;
use crate::normal_mode::{moved, moved_or_kept};
use crate::session::{AppState, Mode};

verus! {

/// Days covered by an inclusive date range.
pub open spec fn span_days(start: Date, end: Date) -> int {
    end.day_number() - start.day_number() + 1
}

/// The longest range, in days, whose all-day form duration fits in minutes.
pub const MAX_SPAN_DAYS: u32 = 2982616;

/// Handles one key in Visual (date range) mode.
pub fn handle_key(key: Key, state: &mut AppState)
    requires
        old(state).wf(),
        old(state).mode == Mode::Visual,
        (key == Key::Char('a') || key == Key::Enter) ==> (old(state).visual_range() matches Some(
            (s, e),
        ) ==> span_days(s, e) <= MAX_SPAN_DAYS),
    ensures
        final(state).wf(),
        final(state).events@ == old(state).events@,
        key == Key::Char('h') ==> moved(*old(state), *final(state), moved_or_kept(
            old(state).selected_date.prev(),
            old(state).selected_date,
        )),
        key == Key::Char('l') ==> moved(*old(state), *final(state), moved_or_kept(
            old(state).selected_date.next(),
            old(state).selected_date,
        )),
        key == Key::Char('j') ==> moved(*old(state), *final(state), moved_or_kept(
            old(state).selected_date.plus_days(7),
            old(state).selected_date,
        )),
        key == Key::Char('k') ==> moved(*old(state), *final(state), moved_or_kept(
            old(state).selected_date.minus_days(7),
            old(state).selected_date,
        )),
        (key == Key::Char('a') || key == Key::Enter) ==> match old(state).visual_range() {
            Some((s, e)) => {
                &&& final(state).mode == Mode::Insert
                &&& final(state).visual_selection_start is None
                &&& final(state).selected_date == old(state).selected_date
                &&& final(state).selected_event_index == old(state).selected_event_index
                &&& (final(state).event_form matches Some(f) && f.date == s && f.event_id is None
                    && if span_days(s, e) == 1 {
                    !f.all_day && f.title@ == "New Event"@
                } else {
                    f.all_day && f.duration_minutes == span_days(s, e) * MINUTES_PER_DAY
                        && f.title@ == decimal(span_days(s, e) as nat) + "-day Event"@
                })
            },
            None => final(state).mode == old(state).mode && final(state).event_form
                == old(state).event_form,
        },
        !(key == Key::Char('h') || key == Key::Char('l') || key == Key::Char('j') || key == Key::Char('k')
            || key == Key::Char('a') || key == Key::Enter || key == Key::Esc) ==> *final(state) == *old(state),
        key == Key::Esc ==> *final(state) == (AppState {
            mode: Mode::Normal,
            visual_selection_start: None,
            ..*old(state)
        }),
{
    match key {
        Key::Char('h') => {
            let d = state.selected_date.pred();
            crate::normal_mode::move_to(state, d);
        },
        Key::Char('l') => {
            let d = state.selected_date.succ();
            crate::normal_mode::move_to(state, d);
        },
        Key::Char('j') => {
            let d = state.selected_date.checked_add_days(7);
            crate::normal_mode::move_to(state, d);
        },
        Key::Char('k') => {
            let d = state.selected_date.checked_sub_days(7);
            crate::normal_mode::move_to(state, d);
        },
        Key::Char('a') | Key::Enter => {
            if let Some((start, end)) = state.get_visual_selection_range() {
                proof {
                    crate::event::lemma_day_number_bounds(start);
                    crate::event::lemma_day_number_bounds(end);
                    assert(start.on_or_before(end));
                    crate::date::lemma_day_number_monotone(start, end);
                }
                let days = (end.ordinal() - start.ordinal() + 1) as u32;
                let form = if days == 1 {
                    EventForm::new(start, String::from_str("New Event"))
                } else {
                    let mut title = crate::form::decimal_string(days as u64);
                    title.append("-day Event");
                    EventForm::new_all_day(start, title, days)
                };
                state.event_form = Some(form);
                state.visual_selection_start = None;
                state.mode = Mode::Insert;
            }
        },
        Key::Esc => {
            state.visual_selection_start = None;
            state.mode = Mode::Normal;
        },
        _ => {},
    }
}

} // verus!
