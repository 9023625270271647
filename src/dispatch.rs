use vstd::prelude::*;
use vstd::string::StringExecFns;
use crate::command::{Command, CommandModel, command_spec, parse_command};
use crate::event::{DateTime, Event, EventStatus, MINUTES_PER_DAY};
use crate::form::EventForm;
use crate::key::Key;
use crate::navigation::{last_char_index, find_first_non_whitespace, next_word_position, prev_word_position, word_end_position, selected_text};
use crate::session::{AppState, Mode, SyncStatus, Theme};

verus! {

/// Line index the `G` motion jumps to in the detail view.
pub const DETAIL_BOTTOM_LINE: usize = 999;

/// What the server answers to a created event.
#[derive(Clone, Debug)]
pub struct CreatedEventInfo {
    pub id: String,
    pub html_link: Option<String>,
}

/// An event to hand to the sync collaborator.
#[derive(Clone, Debug)]
pub struct PendingSave {
    pub event: Event,
    /// Whether the event exists already (update) or is new (create; the
    /// collaborator assigns it an id).
    pub is_update: bool,
}

/// Outside work that a key press asks of the host.
#[derive(Clone, Debug)]
pub enum Action {
    /// Nothing to do outside.
    Idle,
    Quit,
    /// Fetch the events around the selected date, then `apply_sync`.
    Sync,
    /// Create or update the event, then `apply_save`.
    Save(PendingSave),
    /// Delete the event with this id, then `apply_delete`.
    Delete(String),
    /// Put the text on the clipboard.
    Copy(String),
    /// Read the clipboard.
    Paste,
    /// Open this address in a browser.
    OpenBrowser(String),
}

/// Relies on `chrono::Utc::now` and `DateTime::timestamp`: seconds since the
/// Unix epoch, now.
#[verifier::external_body]
fn now_unix_seconds() -> (r: i64) {
    chrono::Utc::now().timestamp()
}

fn text_with(prefix: &str, detail: &String) -> (r: String)
    ensures
        r@ == prefix@ + detail@,
{
    let mut s = String::from_str(prefix);
    s.append(detail.as_str());
    s
}

/// The instants an event edited in `form` spans: all-day events run whole
/// days from midnight; timed ones start at the form's time.
pub open spec fn form_span(form: EventForm) -> Option<(DateTime, DateTime)> {
    if form.all_day {
        let days = form.duration_minutes / MINUTES_PER_DAY;
        match form.date.plus_days(days as nat) {
            Some(end) => Some((DateTime { date: form.date, minute: 0 }, DateTime { date: end, minute: 0 })),
            None => None,
        }
    } else {
        let start = form.start_hour * 60 + form.start_minute;
        let total = start + form.duration_minutes;
        match form.date.plus_days((total / MINUTES_PER_DAY as int) as nat) {
            Some(end) => Some(
                (
                    DateTime { date: form.date, minute: start as u32 },
                    DateTime { date: end, minute: (total % MINUTES_PER_DAY as int) as u32 },
                ),
            ),
            None => None,
        }
    }
}

fn form_instants(form: &EventForm) -> (r: Option<(DateTime, DateTime)>)
    requires
        form.wf(),
    ensures
        r == form_span(*form),
        r matches Some((s, e)) ==> s.valid() && e.valid(),
{
    if form.all_day {
        let days = form.duration_minutes / MINUTES_PER_DAY;
        match form.date.checked_add_days(days) {
            Some(end) => Some((DateTime { date: form.date, minute: 0 }, DateTime { date: end, minute: 0 })),
            None => None,
        }
    } else {
        let start = form.start_hour * 60 + form.start_minute;
        let total: u64 = start as u64 + form.duration_minutes as u64;
        let days = (total / 1440) as u32;
        match form.date.checked_add_days(days) {
            Some(end) => Some(
                (DateTime { date: form.date, minute: start }, DateTime { date: end, minute: (total % 1440) as u32 }),
            ),
            None => None,
        }
    }
}

fn nonempty(s: &String) -> (r: Option<String>)
    ensures
        s@.len() == 0 ==> r is None,
        s@.len() > 0 ==> (r matches Some(t) && t@ == s@),
{
    if crate::text::chars_of(s.as_str()).len() == 0 {
        None
    } else {
        Some(s.clone())
    }
}

/// `e` is the event that `form` describes, with id `id`, in calendar
/// `calendar`, linking to `link`.
pub open spec fn built_from(e: Event, form: EventForm, id: Seq<char>, calendar: Seq<char>, link: Option<String>) -> bool {
    &&& form_span(form) matches Some(span) && (e.start, e.end) == span
    &&& e.valid()
    &&& e.id@ == id
    &&& e.title@ == form.title@
    &&& e.all_day == form.all_day
    &&& e.calendar_id@ == calendar
    &&& e.html_link == link
    &&& e.status == EventStatus::Confirmed
    &&& crate::day_view::opt_view(e.description) == if form.description@.len() == 0 {
        None
    } else {
        Some(form.description@)
    }
    &&& crate::day_view::opt_view(e.location) == if form.location@.len() == 0 {
        None
    } else {
        Some(form.location@)
    }
    &&& e.attendees@.len() == 0 && e.reminders@.len() == 0
}

/// The event that committing `form` produces, with id `id`, or `None` where
/// its end falls past the supported dates.
pub fn build_event_from_form(form: &EventForm, id: String, calendar_id: &String, html_link: Option<String>) -> (r: Option<Event>)
    requires
        form.wf(),
    ensures
        r is Some <==> form_span(*form) is Some,
        r matches Some(e) ==> built_from(e, *form, id@, calendar_id@, html_link),
{
    match form_instants(form) {
        Some((start, end)) => Some(
            Event {
                id,
                calendar_id: calendar_id.clone(),
                title: form.title.clone(),
                description: nonempty(&form.description),
                location: nonempty(&form.location),
                start,
                end,
                all_day: form.all_day,
                attendees: Vec::new(),
                reminders: Vec::new(),
                status: EventStatus::Confirmed,
                last_modified: now_unix_seconds(),
                html_link,
            },
        ),
        None => None,
    }
}

/// Relies on `uuid::Uuid::new_v4` and `Uuid`'s `Display`, which writes the
/// hyphenated form: a fresh random id of 36 characters.
#[verifier::external_body]
fn new_event_id() -> (r: String)
    ensures
        r@.len() == 36,
{
    uuid::Uuid::new_v4().to_string()
}

/// `g` is form `f` after its time and duration buffers were read.
pub open spec fn committed_form(f: EventForm, g: EventForm) -> bool {
    &&& g.wf()
    &&& g.title@ == f.title@ && g.location@ == f.location@ && g.description@ == f.description@
    &&& g.date == f.date && g.all_day == f.all_day && g.event_id == f.event_id
    &&& match crate::form::time_buffer_value(f.time_input_buffer@) {
        Some((h, m)) => g.start_hour == h && g.start_minute == m,
        None => g.start_hour == f.start_hour && g.start_minute == f.start_minute,
    }
    &&& match crate::form::duration_buffer_value(f.duration_input_buffer@, f.all_day) {
        Some(d) => g.duration_minutes == d,
        None => g.duration_minutes == f.duration_minutes,
    }
}

/// The link an edited event keeps: that of the known event with its id.
pub open spec fn kept_link(events: Seq<Event>, id: Seq<char>, link: Option<String>) -> bool {
    &&& forall|i: int|
        0 <= i < events.len() && (#[trigger] events[i]).id@ == id ==> crate::day_view::opt_view(link)
            == crate::day_view::opt_view(events[i].html_link)
    &&& (forall|i: int| 0 <= i < events.len() ==> (#[trigger] events[i]).id@ != id) ==> link is None
}

/// What committing form `f` (read into `g`) in session `o` hands over: a save
/// of the event `g` describes (an update under the form's id keeping the
/// event's link, or a creation under a fresh 36-character id), or, where the
/// event would end past the supported dates, nothing and an error status.
pub open spec fn commit_outcome(o: AppState, fin: AppState, f: EventForm, g: EventForm, r: Action) -> bool {
    match form_span(g) {
        Some(_) => r matches Action::Save(p) && {
            &&& p.is_update == (f.event_id is Some)
            &&& fin.sync_status == SyncStatus::Syncing
            &&& match f.event_id {
                Some(id) => built_from(p.event, g, id@, o.active_calendar@, p.event.html_link)
                    && kept_link(o.events@, id@, p.event.html_link),
                None => built_from(p.event, g, p.event.id@, o.active_calendar@, None) && p.event.id@.len() == 36,
            }
        },
        None => r is Idle && fin.sync_status is Error,
    }
}

/// Enter in Insert mode: reads the buffers, builds the event and asks for it
/// to be saved; the mode returns to Normal whatever the save's outcome.
pub fn commit_form(state: &mut AppState) -> (r: Action)
    requires
        old(state).wf(),
        old(state).mode == Mode::Insert,
    ensures
        final(state).wf(),
        final(state).event_form is None,
        final(state).events@ == old(state).events@,
        final(state).selected_date == old(state).selected_date,
        final(state).mode == if old(state).event_form is Some { Mode::Normal } else { Mode::Insert },
        old(state).event_form is None ==> r is Idle && *final(state) == *old(state),
        old(state).event_form matches Some(f) ==> exists|g: EventForm|
            committed_form(f, g) && commit_outcome(*old(state), *final(state), f, g, r),
{
    let taken = state.event_form.take();
    match taken {
        Some(mut form) => {
            let ghost f = form;
            form.parse_time_input();
            form.parse_duration_input();
            let ghost g = form;
            let is_update = form.event_id.is_some();
            let (id, html_link) = match &form.event_id {
                Some(id) => {
                    let link = match state.find_event(id) {
                        Some(i) => match &state.events[i].html_link {
                            Some(l) => Some(l.clone()),
                            None => None,
                        },
                        None => None,
                    };
                    (id.clone(), link)
                },
                None => (new_event_id(), None),
            };
            state.mode = Mode::Normal;
            let result = match build_event_from_form(&form, id, &state.active_calendar, html_link) {
                Some(event) => {
                    state.sync_status = SyncStatus::Syncing;
                    Action::Save(PendingSave { event, is_update })
                },
                None => {
                    state.sync_status = SyncStatus::Error(String::from_str("Event ends past the supported dates"));
                    Action::Idle
                },
            };
            assert(committed_form(f, g));
            result
        },
        None => Action::Idle,
    }
}

/// Applies the outcome of a save: on success the event (with the id the
/// server gave a new one) is stored; on failure the reason is shown and the
/// events stay as they were.
pub fn apply_save(state: &mut AppState, pending: PendingSave, outcome: Result<Option<CreatedEventInfo>, String>)
    requires
        old(state).wf(),
        pending.event.valid(),
    ensures
        final(state).wf(),
        final(state).mode == old(state).mode,
        final(state).selected_date == old(state).selected_date,
        match outcome {
            Err(e) => final(state).events@ == old(state).events@ && (final(state).sync_status matches SyncStatus::Error(m)
                && m@ == (if pending.is_update { "Failed to update: "@ } else { "Failed to create: "@ }) + e@),
            Ok(created) => {
                let stored = match created {
                    Some(info) if !pending.is_update => Event { id: info.id, html_link: info.html_link, ..pending.event },
                    _ => pending.event,
                };
                &&& final(state).sync_status == SyncStatus::Synced
                &&& final(state).events@.contains(stored)
                &&& forall|x: Event| #[trigger] final(state).events@.contains(x) ==> old(state).events@.contains(x) || x == stored
                &&& forall|i: int| 0 <= i < old(state).events@.len() && (#[trigger] old(state).events@[i]).id@ != stored.id@
                    ==> final(state).events@.contains(old(state).events@[i])
            },
        },
{
    match outcome {
        Ok(created) => {
            if pending.is_update {
                state.add_event(pending.event);
            } else {
                let mut event = pending.event;
                if let Some(info) = created {
                    event.id = info.id;
                    event.html_link = info.html_link;
                }
                state.add_event(event);
            }
            state.sync_status = SyncStatus::Synced;
        },
        Err(e) => {
            let msg = if pending.is_update {
                text_with("Failed to update: ", &e)
            } else {
                text_with("Failed to create: ", &e)
            };
            state.sync_status = SyncStatus::Error(msg);
        },
    }
}

/// Applies the outcome of a delete: on success the event goes and the
/// selection moves up one; on failure the reason is shown.
pub fn apply_delete(state: &mut AppState, id: &String, outcome: Result<(), String>)
    requires
        old(state).wf(),
    ensures
        final(state).wf(),
        final(state).mode == old(state).mode,
        outcome matches Err(e) ==> final(state).events@ == old(state).events@ && (final(state).sync_status matches SyncStatus::Error(m)
            && m@ == "Failed to delete event: "@ + e@)
            && final(state).selected_event_index == old(state).selected_event_index,
        outcome is Ok ==> forall|i: int| 0 <= i < old(state).events@.len() && (#[trigger] old(state).events@[i]).id@
            != id@ ==> final(state).events@.contains(old(state).events@[i]),
        outcome is Ok ==> forall|x: Event| #[trigger] final(state).events@.contains(x) ==> old(state).events@.contains(x),
        outcome is Ok ==> final(state).sync_status == SyncStatus::Synced && forall|i: int|
            0 <= i < final(state).events@.len() ==> (#[trigger] final(state).events@[i]).id@ != id@,
        outcome is Ok ==> final(state).selected_event_index == if old(state).selected_event_index > 0 {
            old(state).selected_event_index - 1
        } else {
            0int
        },
{
    match outcome {
        Ok(()) => {
            state.remove_event(id);
            state.sync_status = SyncStatus::Synced;
            if state.selected_event_index > 0 {
                state.selected_event_index = state.selected_event_index - 1;
            }
        },
        Err(e) => {
            state.sync_status = SyncStatus::Error(text_with("Failed to delete event: ", &e));
        },
    }
}

/// Some event of `events` has id `id`.
pub open spec fn has_id(events: Seq<Event>, id: Seq<char>) -> bool {
    exists|e: Event| events.contains(e) && e.id@ == id
}

/// Applies the outcome of a sync: on success the fetched events replace the
/// known ones; on failure the reason is shown.
pub fn apply_sync(state: &mut AppState, outcome: Result<Vec<Event>, String>)
    requires
        old(state).wf(),
        outcome matches Ok(v) ==> forall|i: int| 0 <= i < v@.len() ==> (#[trigger] v@[i]).valid(),
    ensures
        final(state).wf(),
        final(state).mode == old(state).mode,
        outcome matches Err(e) ==> final(state).events@ == old(state).events@ && (final(state).sync_status matches SyncStatus::Error(m)
            && m@ == "Sync failed: "@ + e@),
        outcome matches Ok(v) ==> forall|x: Event| #[trigger] final(state).events@.contains(x) ==> v@.contains(x),
        outcome matches Ok(v) ==> final(state).sync_status == SyncStatus::Synced
            && forall|i: int| 0 <= i < v@.len() ==> has_id(final(state).events@, (#[trigger] v@[i]).id@),
{
    match outcome {
        Ok(events) => {
            let ghost orig = events@;
            let mut rest = events;
            state.events = Vec::new();
            while rest.len() > 0
                invariant
                    state.wf(),
                    state.mode == old(state).mode,
                    rest@.len() <= orig.len(),
                    rest@ == orig.subrange(orig.len() - rest@.len(), orig.len() as int),
                    forall|j: int| 0 <= j < orig.len() ==> (#[trigger] orig[j]).valid(),
                    forall|x: Event| #[trigger] state.events@.contains(x) ==> orig.contains(x),
                    forall|j: int|
                        0 <= j < orig.len() - rest@.len() ==> has_id(state.events@, (#[trigger] orig[j]).id@),
                decreases rest@.len(),
            {
                let ghost k = orig.len() - rest@.len();
                let e = rest.remove(0);
                assert(e == orig[k as int]);
                let ghost before = state.events@;
                state.add_event(e);
                proof {
                    assert(orig.contains(e)) by {
                        assert(orig[k as int] == e);
                    }
                    assert(rest@ =~= orig.subrange(orig.len() - rest@.len(), orig.len() as int));
                    assert forall|j: int|
                        0 <= j < orig.len() - rest@.len() implies has_id(state.events@, (#[trigger] orig[j]).id@) by {
                        if j < k {
                            let x = choose|x: Event| before.contains(x) && x.id@ == orig[j].id@;
                            if x.id@ != e.id@ {
                                let q = choose|q: int| 0 <= q < before.len() && before[q] == x;
                                assert(state.events@.contains(before[q]));
                            } else {
                                assert(state.events@.contains(e));
                            }
                        } else {
                            assert(state.events@.contains(e));
                        }
                    }
                }
            }
            state.sync_status = SyncStatus::Synced;
        },
        Err(e) => {
            state.sync_status = SyncStatus::Error(text_with("Sync failed: ", &e));
        },
    }
}

/// Keys while the help overlay is shown.
pub fn handle_help_keys(key: Key, state: &mut AppState)
    requires
        old(state).wf(),
        old(state).mode == Mode::Normal,
    ensures
        final(state).wf(),
        final(state).mode == old(state).mode,
        final(state).events@ == old(state).events@,
        key == Key::Char('j') ==> final(state).help_scroll == if old(state).help_scroll < usize::MAX {
            old(state).help_scroll + 1
        } else {
            old(state).help_scroll as int
        },
        key == Key::Char('k') ==> final(state).help_scroll == if old(state).help_scroll > 0 {
            old(state).help_scroll - 1
        } else {
            0int
        },
        (key == Key::Char('q') || key == Key::Esc) ==> !final(state).show_help && final(state).help_scroll == 0,
{
    match key {
        Key::Char('j') => {
            if state.help_scroll < usize::MAX {
                state.help_scroll = state.help_scroll + 1;
            }
        },
        Key::Char('k') => {
            if state.help_scroll > 0 {
                state.help_scroll = state.help_scroll - 1;
            }
        },
        Key::Char('q') | Key::Esc => {
            state.show_help = false;
            state.help_scroll = 0;
        },
        _ => {},
    }
}

fn close_detail(state: &mut AppState)
    requires
        old(state).wf(),
    ensures
        final(state).wf(),
        *final(state) == (AppState {
            detail_view_event_id: None,
            detail_view_scroll: 0,
            detail_view_cursor_line: 0,
            detail_view_cursor_col: 0,
            ..*old(state)
        }),
{
    state.detail_view_event_id = None;
    state.detail_view_scroll = 0;
    state.detail_view_cursor_line = 0;
    state.detail_view_cursor_col = 0;
}

/// The address of an event in the calendar's web interface.
pub fn browser_url(state: &AppState) -> (r: Option<String>)
    ensures
        r is Some ==> state.detail_view_event_id is Some,
{
    match &state.detail_view_event_id {
        Some(id) => match state.event_by_id(id) {
            Some(event) => match &event.html_link {
                Some(link) => Some(link.clone()),
                None => Some(text_with("https://calendar.google.com/calendar/u/0/r/eventedit/", &event.id)),
            },
            None => None,
        },
        None => None,
    }
}

/// The text that `y` yanks in the detail view: the visual selection, else the
/// cursor's line (nothing where the panel has no text).
pub open spec fn yank_spec(state: AppState) -> Seq<char> {
    let lines = state.detail_view_line_text@;
    if lines.len() == 0 {
        Seq::empty()
    } else {
        match state.detail_view_visual_start {
            Some((l, c)) => crate::navigation::selection_spec(
                crate::navigation::text_of(lines),
                (l as int, c as int),
                (state.detail_view_cursor_line as int, state.detail_view_cursor_col as int),
            ),
            None => if state.detail_view_cursor_line < lines.len() {
                lines[state.detail_view_cursor_line as int]@
            } else {
                Seq::empty()
            },
        }
    }
}

/// The text that `y` yanks in the detail view.
pub fn yank_text(state: &AppState) -> (r: String)
    ensures
        r@ == yank_spec(*state),
{
    let lines = &state.detail_view_line_text;
    if lines.len() == 0 {
        return String::new();
    }
    match state.detail_view_visual_start {
        Some(anchor) => selected_text(
            lines.as_slice(),
            anchor,
            (state.detail_view_cursor_line, state.detail_view_cursor_col),
        ),
        None => if state.detail_view_cursor_line < lines.len() {
            lines[state.detail_view_cursor_line].clone()
        } else {
            String::new()
        },
    }
}

/// Keys while an event's detail panel is open.
pub fn handle_detail_view_keys(key: Key, state: &mut AppState) -> (r: Action)
    requires
        old(state).wf(),
        old(state).mode == Mode::Normal,
    ensures
        final(state).wf(),
        final(state).events@ == old(state).events@,
        key == Key::Esc ==> final(state).detail_view_event_id is None,
        key == Key::Char('0') ==> final(state).detail_view_cursor_col == 0,
        key == Key::Char('w') && old(state).detail_view_line_text@.len() > 0 ==> (
        final(state).detail_view_cursor_line as int,
        final(state).detail_view_cursor_col as int,
        ) == crate::navigation::next_word_spec(
            crate::navigation::text_of(old(state).detail_view_line_text@),
            old(state).detail_view_cursor_line as int,
            old(state).detail_view_cursor_col as int,
        ),
        key == Key::Char('b') && old(state).detail_view_line_text@.len() > 0 ==> (
        final(state).detail_view_cursor_line as int,
        final(state).detail_view_cursor_col as int,
        ) == crate::navigation::prev_word_spec(
            crate::navigation::text_of(old(state).detail_view_line_text@),
            old(state).detail_view_cursor_line as int,
            old(state).detail_view_cursor_col as int,
        ),
        key == Key::Char('e') && old(state).detail_view_line_text@.len() > 0 ==> (
        final(state).detail_view_cursor_line as int,
        final(state).detail_view_cursor_col as int,
        ) == crate::navigation::word_end_spec(
            crate::navigation::text_of(old(state).detail_view_line_text@),
            old(state).detail_view_cursor_line as int,
            old(state).detail_view_cursor_col as int,
        ),
        key == Key::Char('q') ==> r is Quit && *final(state) == *old(state),
        key == Key::Char('j') ==> *final(state) == (AppState {
            detail_view_cursor_line: if old(state).detail_view_cursor_line < usize::MAX {
                (old(state).detail_view_cursor_line + 1) as usize
            } else {
                old(state).detail_view_cursor_line
            },
            ..*old(state)
        }),
        key == Key::Char('k') ==> *final(state) == (AppState {
            detail_view_cursor_line: if old(state).detail_view_cursor_line > 0 {
                (old(state).detail_view_cursor_line - 1) as usize
            } else {
                0
            },
            ..*old(state)
        }),
        key == Key::Char('h') ==> *final(state) == (AppState {
            detail_view_cursor_col: if old(state).detail_view_cursor_col > 0 {
                (old(state).detail_view_cursor_col - 1) as usize
            } else {
                0
            },
            ..*old(state)
        }),
        key == Key::Char('l') ==> *final(state) == (AppState {
            detail_view_cursor_col: if old(state).detail_view_cursor_col < usize::MAX {
                (old(state).detail_view_cursor_col + 1) as usize
            } else {
                old(state).detail_view_cursor_col
            },
            ..*old(state)
        }),
        key == Key::Char('$') ==> final(state).detail_view_cursor_col == if old(state).detail_view_cursor_line
            < old(state).detail_view_line_text@.len() {
            crate::navigation::last_index(old(state).detail_view_line_text@[old(state).detail_view_cursor_line as int]@)
        } else {
            0
        },
        key == Key::Char('^') && old(state).detail_view_cursor_line < old(state).detail_view_line_text@.len()
            ==> final(state).detail_view_cursor_col == match crate::navigation::first_non_space(
            old(state).detail_view_line_text@[old(state).detail_view_cursor_line as int]@,
        ) {
            Some(i) => i,
            None => 0,
        },
        key == Key::Char('g') ==> *final(state) == (AppState {
            detail_view_cursor_line: 0,
            detail_view_scroll: 0,
            ..*old(state)
        }),
        key == Key::Char('G') ==> *final(state) == (AppState {
            detail_view_cursor_line: DETAIL_BOTTOM_LINE,
            ..*old(state)
        }),
        key == Key::Char('E') ==> match old(state).detail_view_event_id {
            Some(id) => (exists|i: int|
                0 <= i < old(state).events@.len() && (#[trigger] old(state).events@[i]).id@ == id@)
                ==> final(state).mode == Mode::Insert && (final(state).event_form matches Some(f)
                && f.event_id matches Some(fid) && fid@ == id@) && final(state).detail_view_event_id is None,
            None => *final(state) == *old(state),
        },
        key == Key::Char('a') ==> final(state).mode == Mode::Insert && (final(state).event_form matches Some(f)
            && f.date == old(state).selected_date && f.event_id is None && f.title@.len() == 0)
            && final(state).detail_view_event_id is None && final(state).detail_view_visual_start is None,
        key == Key::Char('B') ==> match r {
            Action::OpenBrowser(_) => old(state).detail_view_event_id is Some,
            Action::Idle => true,
            _ => false,
        },
        key == Key::Char('o') ==> match r {
            Action::OpenBrowser(u) => old(state).detail_view_cursor_line < old(state).detail_view_line_text@.len()
                && crate::links::link_in(old(state).detail_view_line_text@[old(state).detail_view_cursor_line as int]@)
                == Some(u@),
            Action::Idle => old(state).detail_view_cursor_line >= old(state).detail_view_line_text@.len()
                || crate::links::link_in(old(state).detail_view_line_text@[old(state).detail_view_cursor_line as int]@) is None,
            _ => false,
        },
        key == Key::Char('y') ==> if old(state).detail_view_line_text@.len() == 0 {
            r is Idle && *final(state) == *old(state)
        } else {
            &&& *final(state) == (AppState { detail_view_visual_start: None, ..*old(state) })
            &&& if yank_spec(*old(state)).len() > 0 {
                r matches Action::Copy(t) && t@ == yank_spec(*old(state))
            } else {
                r is Idle
            }
        },
        key == Key::Char('v') ==> final(state).detail_view_visual_start == if old(state).detail_view_visual_start is Some {
            None
        } else {
            Some((old(state).detail_view_cursor_line, old(state).detail_view_cursor_col))
        },
{
    match key {
        Key::Esc => {
            close_detail(state);
            Action::Idle
        },
        Key::Char('j') => {
            if state.detail_view_cursor_line < usize::MAX {
                state.detail_view_cursor_line = state.detail_view_cursor_line + 1;
            }
            Action::Idle
        },
        Key::Char('k') => {
            if state.detail_view_cursor_line > 0 {
                state.detail_view_cursor_line = state.detail_view_cursor_line - 1;
            }
            Action::Idle
        },
        Key::Char('h') => {
            if state.detail_view_cursor_col > 0 {
                state.detail_view_cursor_col = state.detail_view_cursor_col - 1;
            }
            Action::Idle
        },
        Key::Char('l') => {
            if state.detail_view_cursor_col < usize::MAX {
                state.detail_view_cursor_col = state.detail_view_cursor_col + 1;
            }
            Action::Idle
        },
        Key::Char('0') => {
            state.detail_view_cursor_col = 0;
            Action::Idle
        },
        Key::Char('$') => {
            let line = state.detail_view_cursor_line;
            state.detail_view_cursor_col = if line < state.detail_view_line_text.len() {
                last_char_index(state.detail_view_line_text[line].as_str())
            } else {
                0
            };
            Action::Idle
        },
        Key::Char('^') => {
            let line = state.detail_view_cursor_line;
            if line < state.detail_view_line_text.len() {
                state.detail_view_cursor_col = find_first_non_whitespace(state.detail_view_line_text[line].as_str());
            }
            Action::Idle
        },
        Key::Char('w') => {
            if state.detail_view_line_text.len() > 0 {
                let (l, c) = next_word_position(
                    state.detail_view_line_text.as_slice(),
                    state.detail_view_cursor_line,
                    state.detail_view_cursor_col,
                );
                state.detail_view_cursor_line = l;
                state.detail_view_cursor_col = c;
            }
            Action::Idle
        },
        Key::Char('b') => {
            if state.detail_view_line_text.len() > 0 {
                let (l, c) = prev_word_position(
                    state.detail_view_line_text.as_slice(),
                    state.detail_view_cursor_line,
                    state.detail_view_cursor_col,
                );
                state.detail_view_cursor_line = l;
                state.detail_view_cursor_col = c;
            }
            Action::Idle
        },
        Key::Char('e') => {
            if state.detail_view_line_text.len() > 0 {
                let (l, c) = word_end_position(
                    state.detail_view_line_text.as_slice(),
                    state.detail_view_cursor_line,
                    state.detail_view_cursor_col,
                );
                state.detail_view_cursor_line = l;
                state.detail_view_cursor_col = c;
            }
            Action::Idle
        },
        Key::Char('g') => {
            state.detail_view_cursor_line = 0;
            state.detail_view_scroll = 0;
            Action::Idle
        },
        Key::Char('G') => {
            state.detail_view_cursor_line = DETAIL_BOTTOM_LINE;
            Action::Idle
        },
        Key::Char('E') => {
            let form = match &state.detail_view_event_id {
                Some(id) => match state.find_event(id) {
                    Some(i) => {
                        assert(state.events@[i as int].valid());
                        Some(EventForm::for_event(&state.events[i]))
                    },
                    None => None,
                },
                None => None,
            };
            if let Some(f) = form {
                close_detail(state);
                state.event_form = Some(f);
                state.mode = Mode::Insert;
            }
            Action::Idle
        },
        Key::Char('a') => {
            close_detail(state);
            state.detail_view_visual_start = None;
            state.event_form = Some(EventForm::new(state.selected_date, String::new()));
            state.mode = Mode::Insert;
            Action::Idle
        },
        Key::Char('o') => {
            let line = state.detail_view_cursor_line;
            if line < state.detail_view_line_text.len() {
                match crate::links::find_link(state.detail_view_line_text[line].as_str()) {
                    Some(url) => Action::OpenBrowser(url),
                    None => Action::Idle,
                }
            } else {
                Action::Idle
            }
        },
        Key::Char('y') => {
            if state.detail_view_line_text.len() == 0 {
                return Action::Idle;
            }
            let text = yank_text(state);
            if state.detail_view_visual_start.is_some() {
                state.detail_view_visual_start = None;
            }
            if crate::text::chars_of(text.as_str()).len() > 0 {
                Action::Copy(text)
            } else {
                Action::Idle
            }
        },
        Key::Char('p') => Action::Paste,
        Key::Char('q') => Action::Quit,
        Key::Char('v') => {
            if state.detail_view_visual_start.is_some() {
                state.detail_view_visual_start = None;
            } else {
                state.detail_view_visual_start = Some((state.detail_view_cursor_line, state.detail_view_cursor_col));
            }
            Action::Idle
        },
        Key::Char('B') => match browser_url(state) {
            Some(url) => Action::OpenBrowser(url),
            None => Action::Idle,
        },
        _ => Action::Idle,
    }
}

/// Keys in Command mode; Enter runs the buffered command and clears the
/// buffer, except that `:q` ends the session.
pub fn handle_command_key(key: Key, state: &mut AppState) -> (r: Action)
    requires
        old(state).wf(),
        old(state).mode == Mode::Command,
    ensures
        final(state).wf(),
        final(state).events@ == old(state).events@,
        key == Key::Enter ==> match command_spec(old(state).command_buffer@) {
            CommandModel::Quit => r is Quit && *final(state) == *old(state),
            CommandModel::Sync => r is Sync && final(state).mode == Mode::Normal
                && final(state).command_buffer@.len() == 0 && final(state).sync_status == SyncStatus::Syncing
                && final(state).selected_date == old(state).selected_date,
            CommandModel::Goto(d) => final(state).selected_date == d && final(state).mode
                == Mode::Normal && final(state).command_buffer@.len() == 0 && (d != old(state).selected_date
                ==> final(state).selected_event_index == 0),
            CommandModel::Help => final(state).show_help == !old(state).show_help && final(state).mode
                == Mode::Normal && final(state).command_buffer@.len() == 0
                && final(state).selected_date == old(state).selected_date,
            CommandModel::Theme(name) => final(state).theme == crate::theme::theme_named(
                crate::theme::lower_of(name),
            ) && final(state).mode == Mode::Normal && final(state).command_buffer@.len() == 0
                && final(state).selected_date == old(state).selected_date,
            CommandModel::NewEvent(t) => final(state).mode == Mode::Insert && (final(state).event_form matches Some(f)
                && f.date == old(state).selected_date && f.title@ == match t {
                Some(t) => t,
                None => Seq::empty(),
            }) && final(state).command_buffer@.len() == 0 && final(state).selected_date == old(state).selected_date,
            CommandModel::Error(msg) => final(state).mode == Mode::Normal && (final(state).sync_status matches SyncStatus::Error(s) && s@ == msg)
                && final(state).command_buffer@.len() == 0 && final(state).selected_date == old(state).selected_date,
            CommandModel::SwitchCalendar(name) => final(state).mode == Mode::Normal
                && final(state).command_buffer@.len() == 0 && final(state).active_calendar@ == name
                && final(state).selected_date == old(state).selected_date,
        },
        key == Key::Esc ==> final(state).mode == Mode::Normal && final(state).command_buffer@.len() == 0,
        key matches Key::Char(c) ==> final(state).command_buffer@ == old(state).command_buffer@.push(c),
        key == Key::Enter ==> (command_spec(old(state).command_buffer@) is Quit <==> r is Quit),
        key == Key::Enter ==> (command_spec(old(state).command_buffer@) is Sync <==> r is Sync),
        key != Key::Enter ==> r is Idle,
{
    match key {
        Key::Enter => {
            let cmd = parse_command(state.command_buffer.as_str());
            match cmd {
                Command::Quit => {
                    return Action::Quit;
                },
                Command::Sync => {
                    state.command_buffer = String::new();
                    state.mode = Mode::Normal;
                    state.sync_status = SyncStatus::Syncing;
                    return Action::Sync;
                },
                Command::Goto(d) => {
                    state.set_selected_date(d);
                },
                Command::Help => {
                    state.show_help = !state.show_help;
                },
                Command::Theme(name) => {
                    state.theme = Theme::get_by_name(name.as_str());
                },
                Command::NewEvent(title) => {
                    let t = match title {
                        Some(t) => t,
                        None => String::new(),
                    };
                    state.event_form = Some(EventForm::new(state.selected_date, t));
                    state.command_buffer = String::new();
                    state.mode = Mode::Insert;
                    return Action::Idle;
                },
                Command::Error(msg) => {
                    state.sync_status = SyncStatus::Error(msg);
                },
                Command::SwitchCalendar(name) => {
                    state.active_calendar = name;
                },
            }
            state.command_buffer = String::new();
            state.mode = Mode::Normal;
            Action::Idle
        },
        Key::Esc => {
            state.command_buffer = String::new();
            state.mode = Mode::Normal;
            Action::Idle
        },
        Key::Backspace => {
            crate::text::pop_char(&mut state.command_buffer);
            Action::Idle
        },
        Key::Char(c) => {
            crate::text::push_char(&mut state.command_buffer, c);
            Action::Idle
        },
        _ => Action::Idle,
    }
}

/// Keys in Insert mode: Escape discards the form, Enter commits it, other
/// keys edit it.
pub fn handle_insert_key(key: Key, state: &mut AppState) -> (r: Action)
    requires
        old(state).wf(),
        old(state).mode == Mode::Insert,
    ensures
        final(state).wf(),
        final(state).events@ == old(state).events@,
        key == Key::Esc ==> *final(state) == (AppState { event_form: None, mode: Mode::Normal, ..*old(state) })
            && r is Idle,
        key == Key::Enter ==> final(state).event_form is None && (old(state).event_form matches Some(f)
            ==> final(state).mode == Mode::Normal && exists|g: EventForm|
            committed_form(f, g) && commit_outcome(*old(state), *final(state), f, g, r)),
        key != Key::Enter && key != Key::Esc ==> r is Idle && *final(state) == (AppState {
            event_form: final(state).event_form,
            ..*old(state)
        }) && (old(state).event_form matches Some(f) ==> (final(state).event_form matches Some(g)
            && crate::form::key_step(f, g, key))),
{
    match key {
        Key::Esc => {
            state.event_form = None;
            state.mode = Mode::Normal;
            Action::Idle
        },
        Key::Enter => commit_form(state),
        _ => {
            crate::insert_mode::handle_key(key, state);
            Action::Idle
        },
    }
}

/// Keys while a deletion waits for confirmation: `y` asks for the deletion,
/// `n` or Escape cancel it; either way the mode returns to Normal.
pub fn handle_delete_confirmation(key: Key, state: &mut AppState) -> (r: Action)
    requires
        old(state).wf(),
        old(state).mode == Mode::Visual,
    ensures
        final(state).wf(),
        final(state).events@ == old(state).events@,
        (key == Key::Char('y') || key == Key::Char('Y')) ==> final(state).mode == Mode::Normal
            && final(state).delete_confirmation_event_id is None && match old(state).delete_confirmation_event_id {
            Some(id) => (r matches Action::Delete(d) && d@ == id@),
            None => r is Idle,
        },
        (key == Key::Char('n') || key == Key::Char('N') || key == Key::Esc) ==> final(state).mode
            == Mode::Normal && final(state).delete_confirmation_event_id is None && r is Idle,
        !(key == Key::Char('y') || key == Key::Char('Y') || key == Key::Char('n') || key
            == Key::Char('N') || key == Key::Esc) ==> *final(state) == *old(state) && r is Idle,
{
    match key {
        Key::Char('y') | Key::Char('Y') => {
            let taken = state.delete_confirmation_event_id.take();
            state.visual_selection_start = None;
            state.mode = Mode::Normal;
            match taken {
                Some(id) => {
                    state.sync_status = SyncStatus::Syncing;
                    Action::Delete(id)
                },
                None => Action::Idle,
            }
        },
        Key::Char('n') | Key::Char('N') | Key::Esc => {
            state.delete_confirmation_event_id = None;
            state.visual_selection_start = None;
            state.mode = Mode::Normal;
            Action::Idle
        },
        _ => Action::Idle,
    }
}

/// Dispatches one key press against the session according to its mode, and
/// says what outside work the host must do next.
pub fn handle_input(key: Key, state: &mut AppState) -> (r: Action)
    requires
        old(state).wf(),
    ensures
        final(state).wf(),
        old(state).mode == Mode::Normal && !old(state).show_help && old(state).detail_view_event_id is None
            && key == Key::Char('q') ==> r is Quit,
        old(state).mode == Mode::Visual && old(state).delete_confirmation_event_id is None
            && key == Key::Esc ==> final(state).mode == Mode::Normal,
        old(state).mode == Mode::Insert && key == Key::Esc ==> final(state).mode == Mode::Normal
            && final(state).event_form is None,
        old(state).mode == Mode::Command && key == Key::Esc ==> final(state).mode == Mode::Normal,
        old(state).mode == Mode::Command && key == Key::Enter ==> (command_spec(
            old(state).command_buffer@,
        ) is Quit <==> r is Quit),
        old(state).mode == Mode::Normal && !old(state).show_help && old(state).detail_view_event_id is None
            && key == Key::Char('h') ==> final(state).selected_date == crate::normal_mode::moved_or_kept(
            old(state).selected_date.prev(),
            old(state).selected_date,
        ),
        old(state).mode == Mode::Normal && !old(state).show_help && old(state).detail_view_event_id is None
            && key == Key::Char('l') ==> final(state).selected_date == crate::normal_mode::moved_or_kept(
            old(state).selected_date.next(),
            old(state).selected_date,
        ),
        old(state).mode == Mode::Normal && !old(state).show_help && old(state).detail_view_event_id is None
            && key == Key::Char('v') ==> final(state).mode == Mode::Visual
            && final(state).visual_selection_start == Some(old(state).selected_date),
        old(state).mode == Mode::Visual && old(state).delete_confirmation_event_id is Some
            ==> final(state).events@ == old(state).events@ && (key == Key::Char('y') || key == Key::Char('Y') || key
            == Key::Char('n') || key == Key::Char('N') || key == Key::Esc ==> final(state).mode
            == Mode::Normal),
        old(state).mode == Mode::Insert && key == Key::Enter && old(state).event_form is Some
            ==> final(state).mode == Mode::Normal && final(state).event_form is None,
{
    match state.mode {
        Mode::Normal => {
            if state.show_help {
                handle_help_keys(key, state);
                Action::Idle
            } else if state.detail_view_event_id.is_some() {
                handle_detail_view_keys(key, state)
            } else if key == Key::Char('q') {
                Action::Quit
            } else {
                crate::normal_mode::handle_key(key, state);
                Action::Idle
            }
        },
        Mode::Command => handle_command_key(key, state),
        Mode::Insert => handle_insert_key(key, state),
        Mode::Visual => {
            if state.delete_confirmation_event_id.is_some() {
                handle_delete_confirmation(key, state)
            } else {
                let fits = match state.get_visual_selection_range() {
                    Some((s, e)) => {
                        proof {
                            crate::event::lemma_day_number_bounds(s);
                            crate::event::lemma_day_number_bounds(e);
                        }
                        e.ordinal() - s.ordinal() + 1 <= crate::visual_mode::MAX_SPAN_DAYS as i64
                    },
                    None => true,
                };
                if fits || !(key == Key::Char('a') || key == Key::Enter) {
                    crate::visual_mode::handle_key(key, state);
                } else {
                    state.sync_status = SyncStatus::Error(String::from_str("Selected range is too long"));
                }
                Action::Idle
            }
        },
    }
}

} // verus!
