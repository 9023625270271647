use vstd::prelude::*;
use vstd::string::StringExecFns;
use crate::date::{Date, today_local};
use crate::event::Event;
use crate::form::EventForm;
pub use crate::theme::Theme;

verus! {

/// The calendar that new events go to until another is chosen.
pub const DEFAULT_CALENDAR_ID: &'static str = "primary";

/// The four mutually exclusive interaction modes.
#[derive(Clone, Copy, Debug, PartialEq, Eq, Structural)]
pub enum Mode {
    Normal,
    Insert,
    Visual,
    Command,
}

#[derive(Clone, Copy, Debug, PartialEq, Eq, Structural)]
pub enum ViewType {
    Month,
    Week,
    Day,
    Year,
}

#[derive(Clone, Debug, PartialEq)]
pub enum SyncStatus {
    Synced,
    Syncing,
    Offline,
    Error(String),
}

#[derive(Clone, Copy, Debug, PartialEq, Eq, Structural)]
pub struct Position {
    pub x: usize,
    pub y: usize,
}

/// The session: the single mutable root of the interaction core.
pub struct AppState {
    pub mode: Mode,
    pub view: ViewType,
    pub selected_date: Date,
    /// The known events; no two share an id.
    pub events: Vec<Event>,
    pub cursor_position: Position,
    pub sync_status: SyncStatus,
    pub command_buffer: String,
    /// The calendar that new events go to.
    pub active_calendar: String,
    pub search_query: Option<String>,
    pub show_help: bool,
    pub help_scroll: usize,
    pub theme: Theme,
    pub event_form: Option<EventForm>,
    pub selected_event_index: usize,
    pub delete_confirmation_event_id: Option<String>,
    pub visual_selection_start: Option<Date>,
    pub detail_view_event_id: Option<String>,
    pub detail_view_scroll: usize,
    pub detail_view_cursor_line: usize,
    pub detail_view_cursor_col: usize,
    pub detail_view_line_text: Vec<String>,
    pub detail_view_visual_start: Option<(usize, usize)>,
}

/// Ids are unique and every event has valid instants.
pub open spec fn events_wf(events: Seq<Event>) -> bool {
    &&& forall|i: int| 0 <= i < events.len() ==> (#[trigger] events[i]).valid()
    &&& forall|i: int, j: int|
        0 <= i < j < events.len() ==> (#[trigger] events[i]).id@ != (#[trigger] events[j]).id@
}

/// How many events start on `date`.
pub open spec fn count_on(events: Seq<Event>, date: Date) -> nat
    decreases events.len(),
{
    if events.len() == 0 {
        0
    } else {
        count_on(events.drop_last(), date) + if events.last().start.date == date {
            1nat
        } else {
            0nat
        }
    }
}

/// The earlier and the later of two dates.
pub open spec fn date_range(a: Date, b: Date) -> (Date, Date) {
    if a.on_or_before(b) { (a, b) } else { (b, a) }
}

/// `idx` lists, in order of start time (ties by position), exactly the
/// positions of `events` whose event starts on `date`.
pub open spec fn lists_day(events: Seq<Event>, date: Date, idx: Seq<usize>) -> bool {
    &&& idx.len() == count_on(events, date)
    &&& idx.no_duplicates()
    &&& forall|k: int|
        0 <= k < idx.len() ==> #[trigger] idx[k] < events.len() && events[idx[k] as int].start.date
            == date
    &&& forall|j: int|
        0 <= j < events.len() && (#[trigger] events[j]).start.date == date ==> idx.contains(
            j as usize,
        )
    &&& forall|a: int, b: int|
        0 <= a < b < idx.len() ==> #[trigger] starts_before(events, idx[a], idx[b])
}

/// The event at position `i` starts before the one at `j`, or at the same
/// minute and earlier in the list.
pub open spec fn starts_before(events: Seq<Event>, i: usize, j: usize) -> bool {
    let ei = events[i as int];
    let ej = events[j as int];
    ei.start.minute < ej.start.minute || (ei.start.minute == ej.start.minute && i < j)
}

#[verifier::rlimit(80)]
proof fn lemma_list_insert(events: Seq<Event>, date: Date, j: usize, old_idx: Seq<usize>, idx: Seq<usize>, pos: usize, m: u32)
    requires
        j < events.len(),
        events[j as int].start.date == date,
        m == events[j as int].start.minute,
        lists_day(events.take(j as int), date, old_idx),
        forall|k: int| 0 <= k < old_idx.len() ==> #[trigger] old_idx[k] < j,
        pos <= old_idx.len(),
        forall|k: int| 0 <= k < pos ==> events[#[trigger] old_idx[k] as int].start.minute <= m,
        pos < old_idx.len() ==> events[old_idx[pos as int] as int].start.minute > m,
        idx == old_idx.insert(pos as int, j),
    ensures
        lists_day(events.take(j + 1), date, idx),
        forall|k: int| 0 <= k < idx.len() ==> #[trigger] idx[k] < j + 1,
{
    let pre = events.take(j as int);
    let nxt = events.take(j + 1);
    assert(nxt.drop_last() =~= pre);
    assert(nxt.last() == events[j as int]);
    assert(idx == old_idx.insert(pos as int, j));
    assert forall|k: int| 0 <= k < idx.len() implies #[trigger] idx[k] < j + 1 by {
        if k < pos {
            assert(idx[k] == old_idx[k]);
        } else if k > pos {
            assert(idx[k] == old_idx[k - 1]);
        }
    }
    // entries after the insertion point start later
    assert forall|k: int| pos <= k < old_idx.len() implies events[#[trigger] old_idx[k] as int].start.minute > m by {
        if pos < old_idx.len() {
            assert(events[old_idx[pos as int] as int].start.minute > m);
            if k > pos {
                assert(starts_before(pre, old_idx[pos as int], old_idx[k]));
                assert(pre[old_idx[pos as int] as int] == events[old_idx[pos as int] as int]);
                assert(pre[old_idx[k] as int] == events[old_idx[k] as int]);
            }
        }
    }
    assert(idx.no_duplicates()) by {
        assert forall|a: int, b: int| 0 <= a < b < idx.len() implies idx[a] != idx[b] by {
            if a < pos && b < pos {
            } else if a < pos && b == pos {
                assert(old_idx[a] < j);
            } else if a < pos {
                assert(idx[b] == old_idx[b - 1]);
            } else if a == pos {
                assert(idx[b] == old_idx[b - 1]);
                assert(old_idx[b - 1] < j);
            } else {
                assert(idx[a] == old_idx[a - 1]);
                assert(idx[b] == old_idx[b - 1]);
            }
        }
    }
    assert forall|k: int| 0 <= k < idx.len() implies #[trigger] idx[k] < nxt.len()
        && nxt[idx[k] as int].start.date == date by {
        if k < pos {
            assert(idx[k] == old_idx[k]);
        } else if k > pos {
            assert(idx[k] == old_idx[k - 1]);
        }
    }
    assert forall|i: int| 0 <= i < nxt.len() && (#[trigger] nxt[i]).start.date == date implies idx.contains(i as usize) by {
        if i < j {
            assert(pre[i] == nxt[i]);
            assert(old_idx.contains(i as usize));
            let k = choose|k: int| 0 <= k < old_idx.len() && old_idx[k] == i as usize;
            if k < pos {
                assert(idx[k] == i as usize);
            } else {
                assert(idx[k + 1] == i as usize);
            }
        } else {
            assert(idx[pos as int] == j);
        }
    }
    lemma_list_insert_order(events, date, j, old_idx, idx, pos, m);
}

proof fn lemma_list_insert_order(events: Seq<Event>, date: Date, j: usize, old_idx: Seq<usize>, idx: Seq<usize>, pos: usize, m: u32)
    requires
        j < events.len(),
        events[j as int].start.date == date,
        m == events[j as int].start.minute,
        lists_day(events.take(j as int), date, old_idx),
        forall|k: int| 0 <= k < old_idx.len() ==> #[trigger] old_idx[k] < j,
        pos <= old_idx.len(),
        forall|k: int| 0 <= k < pos ==> events[#[trigger] old_idx[k] as int].start.minute <= m,
        pos < old_idx.len() ==> events[old_idx[pos as int] as int].start.minute > m,
        idx == old_idx.insert(pos as int, j),
    ensures
        forall|a: int, b: int|
            0 <= a < b < idx.len() ==> #[trigger] starts_before(events.take(j + 1), idx[a], idx[b]),
{
    let pre = events.take(j as int);
    let nxt = events.take(j + 1);
    assert(nxt.drop_last() =~= pre);
    // entries after the insertion point start later
    assert forall|k: int| pos <= k < old_idx.len() implies events[#[trigger] old_idx[k] as int].start.minute > m by {
        if pos < old_idx.len() {
            assert(events[old_idx[pos as int] as int].start.minute > m);
            if k > pos {
                assert(starts_before(pre, old_idx[pos as int], old_idx[k]));
                assert(pre[old_idx[pos as int] as int] == events[old_idx[pos as int] as int]);
                assert(pre[old_idx[k] as int] == events[old_idx[k] as int]);
            }
        }
    }
    assert forall|a: int, b: int| 0 <= a < b < idx.len() implies starts_before(nxt, idx[a], idx[b]) by {
        if a < pos && b < pos {
            assert(idx[a] == old_idx[a] && idx[b] == old_idx[b]);
            assert(starts_before(pre, old_idx[a], old_idx[b]));
            assert(pre[old_idx[a] as int] == nxt[old_idx[a] as int]);
            assert(pre[old_idx[b] as int] == nxt[old_idx[b] as int]);
        } else if a < pos && b == pos {
            assert(idx[a] == old_idx[a]);
            assert(old_idx[a] < j);
            assert(events[old_idx[a] as int].start.minute <= m);
            assert(nxt[old_idx[a] as int] == events[old_idx[a] as int]);
            assert(nxt[j as int] == events[j as int]);
        } else if a < pos {
            assert(idx[a] == old_idx[a]);
            assert(idx[b] == old_idx[b - 1]);
            assert(starts_before(pre, old_idx[a], old_idx[b - 1]));
            assert(pre[old_idx[a] as int] == nxt[old_idx[a] as int]);
            assert(pre[old_idx[b - 1] as int] == nxt[old_idx[b - 1] as int]);
        } else if a == pos {
            assert(idx[a] == j);
            assert(idx[b] == old_idx[b - 1]);
            assert(events[old_idx[b - 1] as int].start.minute > m);
            assert(nxt[old_idx[b - 1] as int] == events[old_idx[b - 1] as int]);
            assert(nxt[j as int] == events[j as int]);
        } else {
            assert(idx[a] == old_idx[a - 1]);
            assert(idx[b] == old_idx[b - 1]);
            assert(starts_before(pre, old_idx[a - 1], old_idx[b - 1]));
            assert(pre[old_idx[a - 1] as int] == nxt[old_idx[a - 1] as int]);
            assert(pre[old_idx[b - 1] as int] == nxt[old_idx[b - 1] as int]);
        }
    }
}

proof fn lemma_list_skip(events: Seq<Event>, date: Date, j: usize, idx: Seq<usize>)
    requires
        j < events.len(),
        events[j as int].start.date != date,
        lists_day(events.take(j as int), date, idx),
        forall|k: int| 0 <= k < idx.len() ==> #[trigger] idx[k] < j,
    ensures
        lists_day(events.take(j + 1), date, idx),
        forall|k: int| 0 <= k < idx.len() ==> #[trigger] idx[k] < j + 1,
{
    let pre = events.take(j as int);
    let nxt = events.take(j + 1);
    assert(nxt.drop_last() =~= pre);
    assert(nxt.last() == events[j as int]);
    assert forall|k: int| 0 <= k < idx.len() implies #[trigger] idx[k] < nxt.len()
        && nxt[idx[k] as int].start.date == date by {
        assert(pre[idx[k] as int] == nxt[idx[k] as int]);
    }
    assert forall|i: int| 0 <= i < nxt.len() && (#[trigger] nxt[i]).start.date == date implies idx.contains(i as usize) by {
        assert(pre[i] == nxt[i]);
    }
    assert forall|a: int, b: int| 0 <= a < b < idx.len() implies starts_before(nxt, idx[a], idx[b]) by {
        assert(starts_before(pre, idx[a], idx[b]));
        assert(pre[idx[a] as int] == nxt[idx[a] as int]);
        assert(pre[idx[b] as int] == nxt[idx[b] as int]);
    }
}

/// Positions of the events that start on `date`, in order of start time.
pub fn day_indices(events: &Vec<Event>, date: Date) -> (r: Vec<usize>)
    ensures
        lists_day(events@, date, r@),
{
    let mut idx: Vec<usize> = Vec::new();
    let mut j: usize = 0;
    while j < events.len()
        invariant
            j <= events@.len(),
            lists_day(events@.take(j as int), date, idx@),
            forall|k: int| 0 <= k < idx@.len() ==> #[trigger] idx@[k] < j,
        decreases events@.len() - j,
    {
        if events[j].start.date == date {
            let m = events[j].start.minute;
            let mut pos: usize = 0;
            while pos < idx.len() && events[idx[pos]].start.minute <= m
                invariant
                    pos <= idx@.len(),
                    forall|k: int| 0 <= k < idx@.len() ==> #[trigger] idx@[k] < j,
                    j < events@.len(),
                    m == events@[j as int].start.minute,
                    forall|k: int| 0 <= k < pos ==> events@[#[trigger] idx@[k] as int].start.minute <= m,
                decreases idx@.len() - pos,
            {
                pos = pos + 1;
            }
            let ghost old_idx = idx@;
            idx.insert(pos, j);
            proof {
                lemma_list_insert(events@, date, j, old_idx, idx@, pos, m);
            }
        } else {
            proof {
                lemma_list_skip(events@, date, j, idx@);
            }
        }
        j = j + 1;
    }
    proof {
        assert(events@.take(j as int) =~= events@);
    }
    idx
}

impl AppState {
    pub open spec fn wf(&self) -> bool {
        &&& self.selected_date.valid()
        &&& events_wf(self.events@)
        &&& self.visual_selection_start matches Some(d) ==> d.valid()
        &&& self.event_form matches Some(f) ==> f.wf()
        &&& self.visual_selection_start is Some ==> self.mode == Mode::Visual
        &&& self.event_form is Some ==> self.mode == Mode::Insert
    }

    /// The visual date range, ordered.
    pub open spec fn visual_range(&self) -> Option<(Date, Date)> {
        match self.visual_selection_start {
            Some(start) => Some(date_range(start, self.selected_date)),
            None => None,
        }
    }

    pub open spec fn day_count(&self) -> nat {
        count_on(self.events@, self.selected_date)
    }

    /// A session in Normal mode on `date`, with the Month view and no events.
    pub fn new_on(date: Date) -> (r: AppState)
        requires
            date.valid(),
        ensures
            r.wf(),
            r.mode == Mode::Normal,
            r.view == ViewType::Month,
            r.selected_date == date,
            r.events@.len() == 0,
            r.event_form is None,
            r.selected_event_index == 0,
            r.visual_selection_start is None,
            r.delete_confirmation_event_id is None,
            r.detail_view_event_id is None,
            r.command_buffer@.len() == 0,
            !r.show_help,
            r.theme == Theme::Default,
            r.active_calendar@ == DEFAULT_CALENDAR_ID@,
    {
        AppState {
            mode: Mode::Normal,
            view: ViewType::Month,
            selected_date: date,
            events: Vec::new(),
            cursor_position: Position { x: 0, y: 0 },
            sync_status: SyncStatus::Synced,
            command_buffer: String::new(),
            active_calendar: String::from_str(DEFAULT_CALENDAR_ID),
            search_query: None,
            show_help: false,
            help_scroll: 0,
            theme: Theme::Default,
            event_form: None,
            selected_event_index: 0,
            delete_confirmation_event_id: None,
            visual_selection_start: None,
            detail_view_event_id: None,
            detail_view_scroll: 0,
            detail_view_cursor_line: 0,
            detail_view_cursor_col: 0,
            detail_view_line_text: Vec::new(),
            detail_view_visual_start: None,
        }
    }

    /// A session on today's date.
    pub fn new() -> (r: AppState)
        ensures
            r.wf(),
            r.mode == Mode::Normal,
            r.view == ViewType::Month,
            r.events@.len() == 0,
            r.event_form is None,
            r.selected_event_index == 0,
            r.visual_selection_start is None,
    {
        AppState::new_on(today_local())
    }

    pub fn with_theme(self, theme: Theme) -> (r: AppState)
        ensures
            r.theme == theme,
            r.selected_date == self.selected_date,
            r.events@ == self.events@,
            r.mode == self.mode,
            r.view == self.view,
            r.wf() == self.wf(),
    {
        let mut s = self;
        s.theme = theme;
        s
    }

    /// The position of the event with id `id`, if there is one.
    pub fn find_event(&self, id: &String) -> (r: Option<usize>)
        ensures
            r matches Some(i) ==> i < self.events@.len() && self.events@[i as int].id@ == id@,
            r is None ==> forall|i: int|
                0 <= i < self.events@.len() ==> (#[trigger] self.events@[i]).id@ != id@,
    {
        let mut i: usize = 0;
        while i < self.events.len()
            invariant
                i <= self.events@.len(),
                forall|j: int| 0 <= j < i ==> (#[trigger] self.events@[j]).id@ != id@,
            decreases self.events@.len() - i,
        {
            if self.events[i].id == *id {
                return Some(i);
            }
            i = i + 1;
        }
        None
    }

    /// The event with id `id`, if there is one.
    pub fn event_by_id(&self, id: &String) -> (r: Option<&Event>)
        ensures
            r matches Some(e) ==> e.id@ == id@ && self.events@.contains(*e),
            r is None ==> forall|i: int|
                0 <= i < self.events@.len() ==> (#[trigger] self.events@[i]).id@ != id@,
    {
        match self.find_event(id) {
            Some(i) => Some(&self.events[i]),
            None => None,
        }
    }

    /// Adds `event`, replacing the event with the same id if there is one.
    pub fn add_event(&mut self, event: Event)
        requires
            old(self).wf(),
            event.valid(),
        ensures
            final(self).wf(),
            final(self).selected_date == old(self).selected_date,
            final(self).mode == old(self).mode,
            final(self).selected_event_index == old(self).selected_event_index,
            (exists|i: int|
                0 <= i < old(self).events@.len() && (#[trigger] old(self).events@[i]).id@
                    == event.id@) ==> final(self).events@.len() == old(self).events@.len(),
            !(exists|i: int|
                0 <= i < old(self).events@.len() && (#[trigger] old(self).events@[i]).id@
                    == event.id@) ==> final(self).events@ == old(self).events@.push(event),
            final(self).events@.contains(event),
            forall|e: Event| #[trigger] final(self).events@.contains(e) ==> old(self).events@.contains(e) || e == event,
            forall|i: int|
                0 <= i < old(self).events@.len() && (#[trigger] old(self).events@[i]).id@
                    != event.id@ ==> final(self).events@.contains(old(self).events@[i]),
    {
        let ghost before = self.events@;
        match self.find_event(&event.id) {
            Some(i) => {
                self.events.set(i, event);
                proof {
                    assert(self.events@[i as int] == event);
                    assert forall|j: int|
                        0 <= j < before.len() && (#[trigger] before[j]).id@ != event.id@ implies self.events@.contains(before[j]) by {
                        assert(j != i);
                        assert(self.events@[j] == before[j]);
                    }
                }
            },
            None => {
                self.events.push(event);
                proof {
                    assert(self.events@[before.len() as int] == event);
                    assert forall|j: int|
                        0 <= j < before.len() && (#[trigger] before[j]).id@ != event.id@ implies self.events@.contains(before[j]) by {
                        assert(self.events@[j] == before[j]);
                    }
                }
            },
        }
    }

    /// Removes the event with id `id`, if there is one.
    pub fn remove_event(&mut self, id: &String)
        requires
            old(self).wf(),
        ensures
            final(self).wf(),
            final(self).selected_date == old(self).selected_date,
            final(self).mode == old(self).mode,
            final(self).selected_event_index == old(self).selected_event_index,
            forall|i: int|
                0 <= i < final(self).events@.len() ==> (#[trigger] final(self).events@[i]).id@
                    != id@,
            forall|i: int|
                0 <= i < old(self).events@.len() && (#[trigger] old(self).events@[i]).id@
                    != id@ ==> final(self).events@.contains(old(self).events@[i]),
            forall|e: Event| #[trigger] final(self).events@.contains(e) ==> old(self).events@.contains(e),
    {
        let ghost before = self.events@;
        match self.find_event(id) {
            Some(i) => {
                self.events.remove(i);
                proof {
                    assert forall|j: int|
                        0 <= j < self.events@.len() implies (#[trigger] self.events@[j]).id@ != id@ by {
                        if j < i {
                            assert(self.events@[j] == before[j]);
                        } else {
                            assert(self.events@[j] == before[j + 1]);
                        }
                    }
                    assert forall|j: int|
                        0 <= j < before.len() && (#[trigger] before[j]).id@ != id@ implies self.events@.contains(before[j]) by {
                        if j < i {
                            assert(self.events@[j] == before[j]);
                        } else {
                            assert(self.events@[j - 1] == before[j]);
                        }
                    }
                    assert forall|e: Event| #[trigger] self.events@.contains(e) implies before.contains(e) by {
                        let k = choose|k: int| 0 <= k < self.events@.len() && self.events@[k] == e;
                        if k < i {
                            assert(before[k] == e);
                        } else {
                            assert(before[k + 1] == e);
                        }
                    }
                }
            },
            None => {},
        }
    }

    /// The events that start on `date`, in order of start time.
    pub fn get_events_for_date(&self, date: Date) -> (r: Vec<&Event>)
        ensures
            exists|idx: Seq<usize>|
                lists_day(self.events@, date, idx) && r@.len() == idx.len() && forall|k: int|
                    0 <= k < idx.len() ==> r@[k] == self.events@[#[trigger] idx[k] as int],
            r@.len() == count_on(self.events@, date),
    {
        let idx = day_indices(&self.events, date);
        let mut out: Vec<&Event> = Vec::new();
        let mut k: usize = 0;
        while k < idx.len()
            invariant
                k <= idx@.len(),
                lists_day(self.events@, date, idx@),
                out@.len() == k,
                forall|q: int| 0 <= q < k ==> out@[q] == self.events@[#[trigger] idx@[q] as int],
            decreases idx@.len() - k,
        {
            out.push(&self.events[idx[k]]);
            k = k + 1;
        }
        out
    }

    /// Whether any event starts on the selected date.
    pub fn has_events_on_selected_date(&self) -> (r: bool)
        ensures
            r == (self.day_count() > 0),
    {
        day_indices(&self.events, self.selected_date).len() > 0
    }

    /// The selected event of the selected date, if the index points at one.
    pub fn get_selected_event(&self) -> (r: Option<&Event>)
        ensures
            r is Some <==> self.selected_event_index < self.day_count(),
            r matches Some(e) ==> exists|idx: Seq<usize>|
                lists_day(self.events@, self.selected_date, idx) && *e == self.events@[idx[self.selected_event_index as int] as int],
    {
        let idx = day_indices(&self.events, self.selected_date);
        if self.selected_event_index < idx.len() {
            Some(&self.events[idx[self.selected_event_index]])
        } else {
            None
        }
    }

    /// Moves the event selection one down, stopping at the last event.
    pub fn move_event_selection_down(&mut self)
        ensures
            *final(self) == (AppState { selected_event_index: (if old(self).day_count() > 0
                && old(self).selected_event_index < old(self).day_count() - 1 {
                old(self).selected_event_index + 1
            } else {
                old(self).selected_event_index as int
            }) as usize, ..*old(self) }),
    {
        let count = day_indices(&self.events, self.selected_date).len();
        if count > 0 && self.selected_event_index < count - 1 {
            self.selected_event_index = self.selected_event_index + 1;
        }
    }

    /// Moves the event selection one up, stopping at the first event.
    pub fn move_event_selection_up(&mut self)
        ensures
            *final(self) == (AppState { selected_event_index: (if old(self).selected_event_index > 0 {
                old(self).selected_event_index - 1
            } else {
                0int
            }) as usize, ..*old(self) }),
    {
        if self.selected_event_index > 0 {
            self.selected_event_index = self.selected_event_index - 1;
        }
    }

    pub fn reset_event_selection(&mut self)
        ensures
            *final(self) == (AppState { selected_event_index: 0, ..*old(self) }),
    {
        self.selected_event_index = 0;
    }

    /// Moves the calendar cursor to `d`; a change of date resets the event
    /// selection.
    pub fn set_selected_date(&mut self, d: Date)
        ensures
            *final(self) == (AppState {
                selected_date: d,
                selected_event_index: if d != old(self).selected_date {
                    0
                } else {
                    old(self).selected_event_index
                },
                ..*old(self)
            }),
    {
        if d != self.selected_date {
            self.selected_event_index = 0;
        }
        self.selected_date = d;
    }

    /// The ordered range of the visual date selection, if one is active.
    pub fn get_visual_selection_range(&self) -> (r: Option<(Date, Date)>)
        ensures
            r == self.visual_range(),
    {
        match self.visual_selection_start {
            Some(start) => {
                let end = self.selected_date;
                if start.is_on_or_before(&end) {
                    Some((start, end))
                } else {
                    Some((end, start))
                }
            },
            None => None,
        }
    }

    /// Whether `date` lies within the visual date selection.
    pub fn is_date_in_visual_selection(&self, date: Date) -> (r: bool)
        ensures
            r == (self.visual_range() matches Some((s, e)) && s.on_or_before(date)
                && date.on_or_before(e)),
    {
        match self.get_visual_selection_range() {
            Some((start, end)) => start.is_on_or_before(&date) && date.is_on_or_before(&end),
            None => false,
        }
    }
}

impl Default for AppState {
    fn default() -> (r: AppState)
        ensures
            r.wf(),
            r.mode == Mode::Normal,
            r.view == ViewType::Month,
            r.events@.len() == 0,
    {
        AppState::new()
    }
}

/// The visual date range is the earlier and the later of anchor and cursor,
/// whichever of the two moved last.
pub proof fn lemma_visual_range_order_free(anchor: Date, cursor: Date)
    requires
        anchor.valid(),
        cursor.valid(),
    ensures
        date_range(anchor, cursor) == date_range(cursor, anchor),
        date_range(anchor, cursor).0.on_or_before(date_range(anchor, cursor).1),
        date_range(anchor, cursor).0.on_or_before(anchor),
        date_range(anchor, cursor).0.on_or_before(cursor),
        anchor.on_or_before(date_range(anchor, cursor).1),
        cursor.on_or_before(date_range(anchor, cursor).1),
        date_range(anchor, cursor).0 == anchor || date_range(anchor, cursor).0 == cursor,
        date_range(anchor, cursor).1 == anchor || date_range(anchor, cursor).1 == cursor,
{
}

} // verus!
