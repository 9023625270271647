use vstd::prelude::*;
use crate::date::Date;

verus! {

/// An inclusive span of dates to fetch events for.
#[derive(Clone, Copy, Debug, PartialEq, Eq, Structural)]
pub struct DateRange {
    pub start: Date,
    pub end: Date,
}

impl DateRange {
    pub fn new(start: Date, end: Date) -> (r: DateRange)
        ensures
            r == (DateRange { start, end }),
    {
        DateRange { start, end }
    }

    /// Days from start to end.
    pub fn days(&self) -> (r: i64)
        requires
            self.start.valid(),
            self.end.valid(),
        ensures
            r == self.end.day_number() - self.start.day_number(),
    {
        proof {
            crate::event::lemma_day_number_bounds(self.start);
            crate::event::lemma_day_number_bounds(self.end);
        }
        self.end.ordinal() - self.start.ordinal()
    }

    /// Whether `d` lies within the range, both ends included.
    pub fn contains(&self, d: Date) -> (r: bool)
        ensures
            r == (self.start.on_or_before(d) && d.on_or_before(self.end)),
    {
        self.start.is_on_or_before(&d) && d.is_on_or_before(&self.end)
    }

    /// The dates around `center` that a sync fetches: `past` days before it
    /// to `future` days after it, each end kept at `center` where the
    /// calendar runs out first.
    pub fn around(center: Date, past: u32, future: u32) -> (r: DateRange)
        requires
            center.valid(),
        ensures
            r.start == match center.minus_days(past as nat) {
                Some(d) => d,
                None => center,
            },
            r.end == match center.plus_days(future as nat) {
                Some(d) => d,
                None => center,
            },
            r.start.valid(),
            r.end.valid(),
    {
        let start = match center.checked_sub_days(past) {
            Some(d) => d,
            None => center,
        };
        let end = match center.checked_add_days(future) {
            Some(d) => d,
            None => center,
        };
        DateRange { start, end }
    }
}

} // verus!
