use vstd::prelude::*;
use crate::date::{Date, today_local, month_length};
use crate::event::Event;
use crate::session::AppState;

verus! {

#[derive(Clone, Copy, Debug, PartialEq, Eq, Structural)]
pub struct DayCell {
    pub date: Option<Date>,
    pub is_selected: bool,
    pub is_today: bool,
    pub has_events: bool,
    pub is_current_month: bool,
}

#[derive(Clone, Debug)]
pub struct Week {
    pub days: Vec<DayCell>,
}

#[derive(Clone, Debug)]
pub struct MonthLayout {
    pub year: i32,
    pub month: u32,
    pub weeks: Vec<Week>,
}

/// Whether some event starts on `date`.
pub open spec fn has_event_on(events: Seq<Event>, date: Date) -> bool {
    exists|i: int| 0 <= i < events.len() && (#[trigger] events[i]).start.date == date
}

/// Cells before the first of the month in its first week.
pub open spec fn leading_cells(selected: Date) -> int {
    selected.first_of_month().weekday()
}

/// All cells of the grid of `selected`'s month: whole weeks from Monday.
pub open spec fn grid_cells(selected: Date) -> int {
    let used = leading_cells(selected) + month_length(selected.year as int, selected.month as int);
    used + (7 - used % 7) % 7
}

/// The cell at position `k` of the month grid of `selected`, read row by row.
pub open spec fn month_cell(selected: Date, today: Date, events: Seq<Event>, k: int) -> DayCell {
    let lead = leading_cells(selected);
    let n = month_length(selected.year as int, selected.month as int);
    let blank = DayCell {
        date: None,
        is_selected: false,
        is_today: false,
        has_events: false,
        is_current_month: false,
    };
    if k < lead {
        match selected.first_of_month().prev() {
            Some(p) => flagged(Date { day: (p.day - (lead - 1 - k)) as u32, ..p }, selected, today, events, false),
            None => blank,
        }
    } else if k < lead + n {
        flagged(
            Date { year: selected.year, month: selected.month, day: (k - lead + 1) as u32 },
            selected,
            today,
            events,
            true,
        )
    } else {
        match selected.last_of_month().next() {
            Some(f) => flagged(Date { day: (k - lead - n + 1) as u32, ..f }, selected, today, events, false),
            None => blank,
        }
    }
}

/// The cell of date `d`, flagged as selected, today and having events as it is.
pub open spec fn flagged(d: Date, selected: Date, today: Date, events: Seq<Event>, current: bool) -> DayCell {
    DayCell {
        date: Some(d),
        is_selected: d == selected,
        is_today: d == today,
        has_events: has_event_on(events, d),
        is_current_month: current,
    }
}

impl MonthLayout {
    /// Rows of seven cells, each the month cell at its place.
    pub open spec fn shows(&self, selected: Date, today: Date, events: Seq<Event>) -> bool {
        &&& self.year == selected.year
        &&& self.month == selected.month
        &&& self.weeks@.len() * 7 == grid_cells(selected)
        &&& forall|w: int| 0 <= w < self.weeks@.len() ==> (#[trigger] self.weeks@[w]).days@.len() == 7
        &&& forall|w: int, c: int|
            0 <= w < self.weeks@.len() && 0 <= c < 7 ==> (#[trigger] self.weeks@[w].days@[c])
                == month_cell(selected, today, events, 7 * w + c)
    }
}

impl DayCell {
    pub fn new(date: Option<Date>) -> (r: DayCell)
        ensures
            r == (DayCell {
                date,
                is_selected: false,
                is_today: false,
                has_events: false,
                is_current_month: true,
            }),
    {
        DayCell { date, is_selected: false, is_today: false, has_events: false, is_current_month: true }
    }

    pub fn with_selected(self, selected: bool) -> (r: DayCell)
        ensures
            r == (DayCell { is_selected: selected, ..self }),
    {
        DayCell { is_selected: selected, ..self }
    }

    pub fn with_today(self, today: bool) -> (r: DayCell)
        ensures
            r == (DayCell { is_today: today, ..self }),
    {
        DayCell { is_today: today, ..self }
    }

    pub fn with_events(self, has_events: bool) -> (r: DayCell)
        ensures
            r == (DayCell { has_events, ..self }),
    {
        DayCell { has_events, ..self }
    }

    pub fn with_current_month(self, current_month: bool) -> (r: DayCell)
        ensures
            r == (DayCell { is_current_month: current_month, ..self }),
    {
        DayCell { is_current_month: current_month, ..self }
    }
}

/// Whether some event starts on `date`.
pub fn any_event_on(events: &Vec<Event>, date: Date) -> (r: bool)
    ensures
        r == has_event_on(events@, date),
{
    let mut i: usize = 0;
    while i < events.len()
        invariant
            i <= events@.len(),
            forall|j: int| 0 <= j < i ==> (#[trigger] events@[j]).start.date != date,
        decreases events@.len() - i,
    {
        if events[i].start.date == date {
            return true;
        }
        i = i + 1;
    }
    false
}

fn flagged_cell(d: Date, selected: Date, today: Date, events: &Vec<Event>, current: bool) -> (r: DayCell)
    ensures
        r == flagged(d, selected, today, events@, current),
{
    DayCell::new(Some(d))
        .with_selected(d == selected)
        .with_today(d == today)
        .with_events(any_event_on(events, d))
        .with_current_month(current)
}

fn build_cell(selected: Date, today: Date, events: &Vec<Event>, k: u32, lead: u32, n: u32) -> (r: DayCell)
    requires
        selected.valid(),
        lead as int == leading_cells(selected),
        n as int == month_length(selected.year as int, selected.month as int),
        k < lead + n + 7,
        lead < 7,
    ensures
        r == month_cell(selected, today, events@, k as int),
{
    let blank = DayCell {
        date: None,
        is_selected: false,
        is_today: false,
        has_events: false,
        is_current_month: false,
    };
    if k < lead {
        match selected.first_day_of_month().pred() {
            Some(p) => flagged_cell(Date { year: p.year, month: p.month, day: p.day - (lead - 1 - k) }, selected, today, events, false),
            None => blank,
        }
    } else if k < lead + n {
        flagged_cell(Date { year: selected.year, month: selected.month, day: k - lead + 1 }, selected, today, events, true)
    } else {
        match selected.last_day_of_month().succ() {
            Some(f) => flagged_cell(Date { year: f.year, month: f.month, day: k - lead - n + 1 }, selected, today, events, false),
            None => blank,
        }
    }
}

/// The Month grid of `selected`'s month, weeks from Monday, with `today` and
/// the days that have events marked.
pub fn month_layout(selected: Date, today: Date, events: &Vec<Event>) -> (r: MonthLayout)
    requires
        selected.valid(),
    ensures
        r.shows(selected, today, events@),
{
    let lead = selected.first_day_of_month().weekday_from_monday();
    let n = crate::date::days_in_month(selected.year, selected.month);
    let used = lead + n;
    let total = used + (7 - used % 7) % 7;
    let mut weeks: Vec<Week> = Vec::new();
    let mut cur: Vec<DayCell> = Vec::new();
    let mut k: u32 = 0;
    while k < total
        invariant
            selected.valid(),
            lead as int == leading_cells(selected),
            n as int == month_length(selected.year as int, selected.month as int),
            lead < 7,
            total as int == grid_cells(selected),
            total % 7 == 0,
            total < lead + n + 7,
            k <= total,
            weeks@.len() == k / 7,
            cur@.len() == k % 7,
            forall|w: int| 0 <= w < weeks@.len() ==> (#[trigger] weeks@[w]).days@.len() == 7,
            forall|w: int, c: int|
                0 <= w < weeks@.len() && 0 <= c < 7 ==> (#[trigger] weeks@[w].days@[c])
                    == month_cell(selected, today, events@, 7 * w + c),
            forall|c: int|
                0 <= c < cur@.len() ==> #[trigger] cur@[c] == month_cell(
                    selected,
                    today,
                    events@,
                    7 * (k / 7) + c,
                ),
        decreases total - k,
    {
        let cell = build_cell(selected, today, events, k, lead, n);
        cur.push(cell);
        if cur.len() == 7 {
            let ghost row = cur@;
            weeks.push(Week { days: cur });
            cur = Vec::new();
            proof {
                assert(weeks@[weeks@.len() - 1].days@ == row);
            }
        }
        k = k + 1;
    }
    MonthLayout { year: selected.year, month: selected.month, weeks }
}

/// The Month grid of the selected date, marking today's date.
pub fn calculate_layout(state: &AppState) -> (r: MonthLayout)
    requires
        state.wf(),
    ensures
        exists|today: Date| r.shows(state.selected_date, today, state.events@),
{
    let today = today_local();
    month_layout(state.selected_date, today, &state.events)
}

/// In a Month grid, the rows all have seven cells, and the selected date
/// stands in exactly one of them, the one marked selected.
pub proof fn lemma_month_grid_shape(selected: Date, today: Date, events: Seq<Event>, layout: MonthLayout)
    requires
        selected.valid(),
        layout.shows(selected, today, events),
    ensures
        forall|w: int| 0 <= w < layout.weeks@.len() ==> (#[trigger] layout.weeks@[w]).days@.len() == 7,
        exists|w: int, c: int|
            0 <= w < layout.weeks@.len() && 0 <= c < 7 && (#[trigger] layout.weeks@[w].days@[c]).date
                == Some(selected) && layout.weeks@[w].days@[c].is_selected,
        forall|w1: int, c1: int, w2: int, c2: int|
            0 <= w1 < layout.weeks@.len() && 0 <= c1 < 7 && 0 <= w2 < layout.weeks@.len() && 0
                <= c2 < 7 && (#[trigger] layout.weeks@[w1].days@[c1]).date == Some(selected)
                && (#[trigger] layout.weeks@[w2].days@[c2]).date == Some(selected) ==> w1 == w2 && c1
                == c2,
        forall|w: int, c: int|
            0 <= w < layout.weeks@.len() && 0 <= c < 7 && (#[trigger] layout.weeks@[w].days@[c]).is_selected
                ==> layout.weeks@[w].days@[c].date == Some(selected),
{
    let lead = leading_cells(selected);
    let n = month_length(selected.year as int, selected.month as int);
    assert(0 <= lead < 7);
    let k = lead + selected.day - 1;
    let w = k / 7;
    let c = k % 7;
    assert(k < grid_cells(selected));
    assert(layout.weeks@[w].days@[c] == month_cell(selected, today, events, 7 * w + c));
    assert forall|w1: int, c1: int|
        0 <= w1 < layout.weeks@.len() && 0 <= c1 < 7 && (#[trigger] layout.weeks@[w1].days@[c1]).date == Some(selected)
        implies 7 * w1 + c1 == k by {
        assert(layout.weeks@[w1].days@[c1] == month_cell(selected, today, events, 7 * w1 + c1));
    }
    assert forall|w1: int, c1: int, w2: int, c2: int|
        0 <= w1 < layout.weeks@.len() && 0 <= c1 < 7 && 0 <= w2 < layout.weeks@.len() && 0 <= c2 < 7
            && (#[trigger] layout.weeks@[w1].days@[c1]).date == Some(selected)
            && (#[trigger] layout.weeks@[w2].days@[c2]).date == Some(selected) implies w1 == w2 && c1 == c2 by {
        assert(7 * w1 + c1 == k);
        assert(7 * w2 + c2 == k);
    }
    assert forall|w1: int, c1: int|
        0 <= w1 < layout.weeks@.len() && 0 <= c1 < 7 && (#[trigger] layout.weeks@[w1].days@[c1]).is_selected
        implies layout.weeks@[w1].days@[c1].date == Some(selected) by {
        assert(layout.weeks@[w1].days@[c1] == month_cell(selected, today, events, 7 * w1 + c1));
    }
}

} // verus!
