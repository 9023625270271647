use vstd::prelude::*;
use crate::date::{Date, today_local};
use crate::event::Event;
use crate::hours::{hour_list, day_events, positions_at_hour};
use crate::session::{AppState, events_wf, lists_day, day_indices};

verus! {

#[derive(Clone, Debug)]
pub struct EventEntry {
    pub event_id: String,
    pub title: String,
    pub start_minute: u32,
    pub duration_minutes: i64,
    pub location: Option<String>,
    pub description: Option<String>,
}

#[derive(Clone, Debug)]
pub struct HourBlock {
    pub hour: u32,
    pub events: Vec<EventEntry>,
}

#[derive(Clone, Debug)]
pub struct DayLayout {
    pub date: Date,
    pub is_today: bool,
    pub hours: Vec<HourBlock>,
}

pub open spec fn opt_view(o: Option<String>) -> Option<Seq<char>> {
    match o {
        Some(s) => Some(s@),
        None => None,
    }
}

/// `entry` shows event `e`.
pub open spec fn entry_of(entry: EventEntry, e: Event) -> bool {
    &&& entry.event_id@ == e.id@
    &&& entry.title@ == e.title@
    &&& entry.start_minute == e.start.minute % 60
    &&& entry.duration_minutes == e.end.minutes() - e.start.minutes()
    &&& opt_view(entry.location) == opt_view(e.location)
    &&& opt_view(entry.description) == opt_view(e.description)
}

impl DayLayout {
    /// All 24 hours, each with the day's events that start in it, in order.
    pub open spec fn shows(&self, date: Date, today: Date, events: Seq<Event>) -> bool {
        &&& self.date == date
        &&& self.is_today == (date == today)
        &&& self.hours@.len() == 24
        &&& exists|idx: Seq<usize>|
            lists_day(events, date, idx) && forall|h: int|
                0 <= h < 24 ==> {
                    let b = #[trigger] self.hours@[h];
                    let l = hour_list(day_events(events, idx), h);
                    &&& b.hour == h
                    &&& b.events@.len() == l.len()
                    &&& forall|k: int| 0 <= k < l.len() ==> entry_of(#[trigger] b.events@[k], l[k])
                }
    }
}

fn clone_opt(o: &Option<String>) -> (r: Option<String>)
    ensures
        opt_view(r) == opt_view(*o),
{
    match o {
        Some(s) => Some(s.clone()),
        None => None,
    }
}

fn entry(e: &Event) -> (r: EventEntry)
    requires
        e.valid(),
    ensures
        entry_of(r, *e),
{
    EventEntry {
        event_id: e.id.clone(),
        title: e.title.clone(),
        start_minute: e.start.minute_of_hour(),
        duration_minutes: e.duration_minutes(),
        location: clone_opt(&e.location),
        description: clone_opt(&e.description),
    }
}

/// The Day layout of `date`: every hour of the day with its events.
pub fn day_layout(date: Date, today: Date, events: &Vec<Event>) -> (r: DayLayout)
    requires
        events_wf(events@),
    ensures
        r.shows(date, today, events@),
{
    let idx = day_indices(events, date);
    let mut hours: Vec<HourBlock> = Vec::new();
    let mut h: u32 = 0;
    while h < 24
        invariant
            h <= 24,
            events_wf(events@),
            lists_day(events@, date, idx@),
            hours@.len() == h,
            forall|q: int|
                0 <= q < h ==> {
                    let b = #[trigger] hours@[q];
                    let l = hour_list(day_events(events@, idx@), q);
                    &&& b.hour == q
                    &&& b.events@.len() == l.len()
                    &&& forall|k: int| 0 <= k < l.len() ==> entry_of(#[trigger] b.events@[k], l[k])
                },
        decreases 24 - h,
    {
        let pos = positions_at_hour(events, &idx, h);
        let mut entries: Vec<EventEntry> = Vec::new();
        let mut k: usize = 0;
        while k < pos.len()
            invariant
                k <= pos@.len(),
                events_wf(events@),
                pos@.len() == hour_list(day_events(events@, idx@), h as int).len(),
                forall|j: int|
                    0 <= j < pos@.len() ==> #[trigger] pos@[j] < events@.len() && events@[pos@[j] as int]
                        == hour_list(day_events(events@, idx@), h as int)[j],
                entries@.len() == k,
                forall|j: int|
                    0 <= j < k ==> entry_of(#[trigger] entries@[j], hour_list(day_events(events@, idx@), h as int)[j]),
            decreases pos@.len() - k,
        {
            assert(pos@[k as int] < events@.len());
            assert(events@[pos@[k as int] as int].valid());
            entries.push(entry(&events[pos[k]]));
            k = k + 1;
        }
        hours.push(HourBlock { hour: h, events: entries });
        h = h + 1;
    }
    DayLayout { date, is_today: date == today, hours }
}

/// The Day layout of the selected date, marking whether it is today.
pub fn calculate_layout(state: &AppState) -> (r: DayLayout)
    requires
        state.wf(),
    ensures
        exists|today: Date| r.shows(state.selected_date, today, state.events@),
{
    let today = today_local();
    day_layout(state.selected_date, today, &state.events)
}

} // verus!
