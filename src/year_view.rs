use vstd::prelude::*;
use crate::date::{Date, today_local, month_length};
use crate::event::Event;
use crate::month_view::{has_event_on, any_event_on};
use crate::session::AppState;

verus! {

#[derive(Clone, Copy, Debug, PartialEq, Eq, Structural)]
pub struct DayCell {
    pub day: u32,
    pub is_today: bool,
    pub is_selected: bool,
    pub has_events: bool,
}

#[derive(Clone, Debug)]
pub struct MonthGrid {
    pub month: u32,
    pub days: Vec<DayCell>,
    pub is_current_month: bool,
    /// Offset of day 1 from Monday.
    pub first_weekday: u32,
}

#[derive(Clone, Debug)]
pub struct YearLayout {
    pub year: i32,
    pub months: Vec<MonthGrid>,
}

/// The cell of day `d` of month `m` in the year grid of `selected`.
pub open spec fn year_cell(selected: Date, today: Date, events: Seq<Event>, m: int, d: int) -> DayCell {
    let date = Date { year: selected.year, month: m as u32, day: d as u32 };
    DayCell {
        day: d as u32,
        is_today: date == today,
        is_selected: date == selected,
        has_events: has_event_on(events, date),
    }
}

impl MonthGrid {
    /// Rows the month takes in a grid of weeks from Monday:
    /// `ceil((days + first_weekday) / 7)`.
    pub fn week_rows(&self) -> (r: u32)
        requires
            self.days@.len() <= 31,
            self.first_weekday < 7,
        ensures
            r == (self.days@.len() + self.first_weekday + 6) / 7,
    {
        ((self.days.len() as u32) + self.first_weekday + 6) / 7
    }
}

impl YearLayout {
    pub open spec fn shows(&self, selected: Date, today: Date, events: Seq<Event>) -> bool {
        &&& self.year == selected.year
        &&& self.months@.len() == 12
        &&& forall|i: int|
            0 <= i < 12 ==> {
                let g = #[trigger] self.months@[i];
                let first = Date { year: selected.year, month: (i + 1) as u32, day: 1 };
                &&& g.month == i + 1
                &&& g.first_weekday == first.weekday()
                &&& g.is_current_month == (selected.year == today.year && i + 1 == today.month)
                &&& g.days@.len() == month_length(selected.year as int, i + 1)
                &&& forall|d: int|
                    0 <= d < g.days@.len() ==> #[trigger] g.days@[d] == year_cell(
                        selected,
                        today,
                        events,
                        i + 1,
                        d + 1,
                    )
            }
    }
}

fn month_grid(selected: Date, today: Date, events: &Vec<Event>, month: u32) -> (r: MonthGrid)
    requires
        selected.valid(),
        1 <= month <= 12,
    ensures
        ({
            let first = Date { year: selected.year, month, day: 1 };
            &&& r.month == month
            &&& r.first_weekday == first.weekday()
            &&& r.is_current_month == (selected.year == today.year && month == today.month)
            &&& r.days@.len() == month_length(selected.year as int, month as int)
            &&& forall|d: int|
                0 <= d < r.days@.len() ==> #[trigger] r.days@[d] == year_cell(
                    selected,
                    today,
                    events@,
                    month as int,
                    d + 1,
                )
        }),
{
    let n = crate::date::days_in_month(selected.year, month);
    let mut days: Vec<DayCell> = Vec::new();
    let mut day: u32 = 1;
    while day <= n
        invariant
            1 <= day <= n + 1,
            n as int == month_length(selected.year as int, month as int),
            n <= 31,
            days@.len() == day - 1,
            forall|d: int|
                0 <= d < days@.len() ==> #[trigger] days@[d] == year_cell(
                    selected,
                    today,
                    events@,
                    month as int,
                    d + 1,
                ),
        decreases n + 1 - day,
    {
        let date = Date { year: selected.year, month, day };
        days.push(
            DayCell {
                day,
                is_today: date == today,
                is_selected: date == selected,
                has_events: any_event_on(events, date),
            },
        );
        day = day + 1;
    }
    let first = Date { year: selected.year, month, day: 1 };
    MonthGrid {
        month,
        days,
        is_current_month: selected.year == today.year && month == today.month,
        first_weekday: first.weekday_from_monday(),
    }
}

/// The twelve month grids of `selected`'s year.
pub fn year_layout(selected: Date, today: Date, events: &Vec<Event>) -> (r: YearLayout)
    requires
        selected.valid(),
    ensures
        r.shows(selected, today, events@),
{
    let mut months: Vec<MonthGrid> = Vec::new();
    let mut m: u32 = 1;
    while m <= 12
        invariant
            1 <= m <= 13,
            selected.valid(),
            months@.len() == m - 1,
            forall|i: int|
                0 <= i < months@.len() ==> {
                    let g = #[trigger] months@[i];
                    let first = Date { year: selected.year, month: (i + 1) as u32, day: 1 };
                    &&& g.month == i + 1
                    &&& g.first_weekday == first.weekday()
                    &&& g.is_current_month == (selected.year == today.year && i + 1 == today.month)
                    &&& g.days@.len() == month_length(selected.year as int, i + 1)
                    &&& forall|d: int|
                        0 <= d < g.days@.len() ==> #[trigger] g.days@[d] == year_cell(
                            selected,
                            today,
                            events@,
                            i + 1,
                            d + 1,
                        )
                },
        decreases 13 - m,
    {
        months.push(month_grid(selected, today, events, m));
        m = m + 1;
    }
    YearLayout { year: selected.year, months }
}

/// The Year grids of the selected date's year, marking today's date.
pub fn calculate_layout(state: &AppState) -> (r: YearLayout)
    requires
        state.wf(),
    ensures
        exists|today: Date| r.shows(state.selected_date, today, state.events@),
{
    let today = today_local();
    year_layout(state.selected_date, today, &state.events)
}

} // verus!
