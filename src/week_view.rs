use vstd::prelude::*;
use crate::date::{Date, today_local};
use crate::event::Event;
use crate::hours::{hour_list, occupied_hours, day_events, positions_at_hour};
use crate::session::{AppState, events_wf, lists_day, day_indices};

verus! {

#[derive(Clone, Debug)]
pub struct EventBlock {
    pub event_id: String,
    pub title: String,
    pub start_hour: u32,
    pub start_minute: u32,
    pub duration_minutes: i64,
}

#[derive(Clone, Debug)]
pub struct TimeSlot {
    pub hour: u32,
    pub events: Vec<EventBlock>,
}

#[derive(Clone, Debug)]
pub struct DayColumn {
    pub date: Date,
    pub is_selected: bool,
    pub is_today: bool,
    pub events: Vec<TimeSlot>,
}

#[derive(Clone, Debug)]
pub struct WeekLayout {
    pub week_start: Date,
    pub days: Vec<DayColumn>,
}

/// `block` shows event `e`.
pub open spec fn block_of(block: EventBlock, e: Event) -> bool {
    &&& block.event_id@ == e.id@
    &&& block.title@ == e.title@
    &&& block.start_hour == e.start.hour_of()
    &&& block.start_minute == e.start.minute % 60
    &&& block.duration_minutes == e.end.minutes() - e.start.minutes()
}

/// The slots of a day whose events, in order, are `s`: one per hour in which
/// some event starts, ascending, each with those events in order.
pub open spec fn slots_show(slots: Seq<TimeSlot>, s: Seq<Event>) -> bool {
    let hs = occupied_hours(s, 24);
    &&& slots.len() == hs.len()
    &&& forall|i: int|
        0 <= i < slots.len() ==> {
            let slot = #[trigger] slots[i];
            let l = hour_list(s, hs[i]);
            &&& slot.hour == hs[i]
            &&& slot.events@.len() == l.len()
            &&& forall|k: int| 0 <= k < l.len() ==> block_of(#[trigger] slot.events@[k], l[k])
        }
}

/// The Monday on or before `date`.
pub open spec fn monday_of(date: Date) -> Date {
    match date.minus_days(date.weekday() as nat) {
        Some(d) => d,
        None => date,
    }
}

impl WeekLayout {
    pub fn week_of_date(date: Date) -> (r: Date)
        requires
            date.valid(),
        ensures
            r == monday_of(date),
            r.valid(),
    {
        let back = date.weekday_from_monday();
        match date.checked_sub_days(back) {
            Some(d) => d,
            None => date,
        }
    }

    /// A column for each day of the selected date's week that exists.
    pub open spec fn shows(&self, selected: Date, today: Date, events: Seq<Event>) -> bool {
        &&& self.week_start == monday_of(selected)
        &&& self.days@.len() <= 7
        &&& forall|i: int|
            0 <= i < self.days@.len() ==> {
                let col = #[trigger] self.days@[i];
                &&& col.date.valid()
                &&& col.is_selected == (col.date == selected)
                &&& col.is_today == (col.date == today)
                &&& exists|idx: Seq<usize>|
                    lists_day(events, col.date, idx) && slots_show(
                        col.events@,
                        day_events(events, idx),
                    )
            }
        &&& forall|i: int|
            0 <= i < self.days@.len() ==> monday_of(selected).plus_days(i as nat) == Some(
                (#[trigger] self.days@[i]).date,
            )
        &&& self.days@.len() == 7 || monday_of(selected).plus_days(self.days@.len() as nat) is None
    }
}

fn block(e: &Event) -> (r: EventBlock)
    requires
        e.valid(),
    ensures
        block_of(r, *e),
{
    EventBlock {
        event_id: e.id.clone(),
        title: e.title.clone(),
        start_hour: e.start.hour(),
        start_minute: e.start.minute_of_hour(),
        duration_minutes: e.duration_minutes(),
    }
}

fn build_time_slots(events: &Vec<Event>, idx: &Vec<usize>) -> (r: Vec<TimeSlot>)
    requires
        events_wf(events@),
        forall|k: int| 0 <= k < idx@.len() ==> #[trigger] idx@[k] < events@.len(),
    ensures
        slots_show(r@, day_events(events@, idx@)),
{
    let ghost s = day_events(events@, idx@);
    let mut slots: Vec<TimeSlot> = Vec::new();
    let mut h: u32 = 0;
    while h < 24
        invariant
            h <= 24,
            s == day_events(events@, idx@),
            events_wf(events@),
            forall|k: int| 0 <= k < idx@.len() ==> #[trigger] idx@[k] < events@.len(),
            slots@.len() == occupied_hours(s, h as int).len(),
            forall|i: int|
                0 <= i < slots@.len() ==> {
                    let slot = #[trigger] slots@[i];
                    let l = hour_list(s, occupied_hours(s, h as int)[i]);
                    &&& slot.hour == occupied_hours(s, h as int)[i]
                    &&& slot.events@.len() == l.len()
                    &&& forall|k: int| 0 <= k < l.len() ==> block_of(#[trigger] slot.events@[k], l[k])
                },
        decreases 24 - h,
    {
        let pos = positions_at_hour(events, idx, h);
        let mut blocks: Vec<EventBlock> = Vec::new();
        let mut k: usize = 0;
        while k < pos.len()
            invariant
                k <= pos@.len(),
                events_wf(events@),
                pos@.len() == hour_list(s, h as int).len(),
                s == day_events(events@, idx@),
                forall|j: int|
                    0 <= j < pos@.len() ==> #[trigger] pos@[j] < events@.len() && events@[pos@[j] as int]
                        == hour_list(s, h as int)[j],
                blocks@.len() == k,
                forall|j: int| 0 <= j < k ==> block_of(#[trigger] blocks@[j], hour_list(s, h as int)[j]),
            decreases pos@.len() - k,
        {
            assert(pos@[k as int] < events@.len());
            assert(events@[pos@[k as int] as int].valid());
            blocks.push(block(&events[pos[k]]));
            k = k + 1;
        }
        let ghost prev = occupied_hours(s, h as int);
        if blocks.len() > 0 {
            slots.push(TimeSlot { hour: h, events: blocks });
            proof {
                assert(occupied_hours(s, h + 1) == prev.push(h as int));
            }
        } else {
            proof {
                assert(occupied_hours(s, h + 1) == prev);
            }
        }
        h = h + 1;
    }
    slots
}

/// The Week layout of `selected`'s Monday-anchored week.
pub fn week_layout(selected: Date, today: Date, events: &Vec<Event>) -> (r: WeekLayout)
    requires
        selected.valid(),
        events_wf(events@),
    ensures
        r.shows(selected, today, events@),
{
    let week_start = WeekLayout::week_of_date(selected);
    let mut days: Vec<DayColumn> = Vec::new();
    let mut o: u32 = 0;
    while o < 7
        invariant
            o <= 7,
            week_start == monday_of(selected),
            week_start.valid(),
            events_wf(events@),
            days@.len() <= o,
            days@.len() < o ==> week_start.plus_days(days@.len() as nat) is None,
            forall|i: int|
                0 <= i < days@.len() ==> {
                    let col = #[trigger] days@[i];
                    &&& col.date.valid()
                    &&& col.is_selected == (col.date == selected)
                    &&& col.is_today == (col.date == today)
                    &&& exists|idx: Seq<usize>|
                        lists_day(events@, col.date, idx) && slots_show(
                            col.events@,
                            day_events(events@, idx),
                        )
                },
            forall|i: int| 0 <= i < days@.len() ==> week_start.plus_days(i as nat) == Some((#[trigger] days@[i]).date),
        decreases 7 - o,
    {
        let ghost before = days@;
        match week_start.checked_add_days(o) {
            Some(date) => {
                proof {
                    if days@.len() < o {
                        crate::date::lemma_plus_days_none_after(week_start, days@.len() as nat, o as nat);
                    }
                }
                let idx = day_indices(events, date);
                let slots = build_time_slots(events, &idx);
                days.push(
                    DayColumn { date, is_selected: date == selected, is_today: date == today, events: slots },
                );
                proof {
                    assert(days@[days@.len() - 1].date == date);
                    assert forall|i: int| 0 <= i < days@.len() implies week_start.plus_days(i as nat) == Some(
                        (#[trigger] days@[i]).date,
                    ) by {
                        if i < before.len() {
                            assert(days@[i] == before[i]);
                        }
                    }
                }
            },
            None => {},
        }
        o = o + 1;
    }
    WeekLayout { week_start, days }
}

/// The Week layout of the selected date, marking today's date.
pub fn calculate_layout(state: &AppState) -> (r: WeekLayout)
    requires
        state.wf(),
    ensures
        exists|today: Date| r.shows(state.selected_date, today, state.events@),
{
    let today = today_local();
    week_layout(state.selected_date, today, &state.events)
}

} // verus!
