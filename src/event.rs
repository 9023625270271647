use vstd::prelude::*;
use crate::date::Date;

verus! {

pub const MINUTES_PER_DAY: u32 = 1440;

/// A UTC instant at minute precision.
#[derive(Clone, Copy, Debug, PartialEq, Eq, Structural, Hash)]
pub struct DateTime {
    pub date: Date,
    /// Minutes since midnight.
    pub minute: u32,
}

impl DateTime {
    pub open spec fn valid(self) -> bool {
        self.date.valid() && self.minute < MINUTES_PER_DAY
    }

    /// Minutes since the origin of `Date::day_number`.
    pub open spec fn minutes(self) -> int {
        self.date.day_number() * MINUTES_PER_DAY + self.minute as int
    }

    pub open spec fn hour_of(self) -> int {
        (self.minute / 60) as int
    }

    pub fn new(date: Date, hour: u32, minute: u32) -> (r: DateTime)
        requires
            date.valid(),
            hour < 24,
            minute < 60,
        ensures
            r.valid(),
            r.date == date,
            r.minute == hour * 60 + minute,
    {
        DateTime { date, minute: hour * 60 + minute }
    }

    pub fn hour(&self) -> (r: u32)
        ensures
            r == self.hour_of(),
    {
        self.minute / 60
    }

    pub fn minute_of_hour(&self) -> (r: u32)
        ensures
            r == self.minute % 60,
    {
        self.minute % 60
    }

    /// Minutes since the origin of `Date::day_number`.
    pub fn total_minutes(&self) -> (r: i64)
        requires
            self.valid(),
        ensures
            r == self.minutes(),
    {
        let d = self.date.ordinal();
        proof {
            lemma_day_number_bounds(self.date);
        }
        assert(d * 1440 <= 200_000_000 * 1440) by (nonlinear_arith)
            requires
                d == self.date.day_number(),
                0 <= d <= 200_000_000,
        {
        }
        d * 1440 + self.minute as i64
    }

    /// Calendar order of instants.
    pub fn is_before(&self, other: &DateTime) -> (r: bool)
        requires
            self.valid(),
            other.valid(),
        ensures
            r == (self.minutes() < other.minutes()),
    {
        self.total_minutes() < other.total_minutes()
    }
}

pub proof fn lemma_day_number_bounds(d: Date)
    requires
        d.valid(),
    ensures
        0 <= d.day_number() <= 200_000_000,
{
    crate::date::lemma_days_before_month_bounds(d.year as int, d.month as int);
}

#[derive(Clone, Copy, Debug, PartialEq, Eq, Structural)]
pub enum EventStatus {
    Confirmed,
    Tentative,
    Cancelled,
}

#[derive(Clone, Copy, Debug, PartialEq, Eq, Structural)]
pub enum ReminderMethod {
    Email,
    Popup,
}

#[derive(Clone, Copy, Debug, PartialEq, Eq, Structural)]
pub struct Reminder {
    pub method: ReminderMethod,
    pub minutes_before: u32,
}

#[derive(Clone, Copy, Debug, PartialEq, Eq, Structural)]
pub enum AccessRole {
    Owner,
    Writer,
    Reader,
}

/// A calendar the user can see.
#[derive(Clone, Debug)]
pub struct Calendar {
    pub id: String,
    pub name: String,
    pub color: String,
    pub is_primary: bool,
    pub access_role: AccessRole,
}

/// A calendar event.
#[derive(Clone, Debug)]
pub struct Event {
    pub id: String,
    pub calendar_id: String,
    pub title: String,
    pub description: Option<String>,
    pub location: Option<String>,
    pub start: DateTime,
    pub end: DateTime,
    pub all_day: bool,
    pub attendees: Vec<String>,
    pub reminders: Vec<Reminder>,
    pub status: EventStatus,
    /// Seconds since the Unix epoch.
    pub last_modified: i64,
    pub html_link: Option<String>,
}

impl Event {
    pub open spec fn valid(&self) -> bool {
        self.start.valid() && self.end.valid()
    }

    /// Whether both instants name a real date and minute of the day.
    pub fn is_valid(&self) -> (r: bool)
        ensures
            r == self.valid(),
    {
        self.start.date.is_valid() && self.start.minute < MINUTES_PER_DAY && self.end.date.is_valid()
            && self.end.minute < MINUTES_PER_DAY
    }

    /// Minutes from start to end.
    pub fn duration_minutes(&self) -> (r: i64)
        requires
            self.valid(),
        ensures
            r == self.end.minutes() - self.start.minutes(),
    {
        proof {
            lemma_day_number_bounds(self.start.date);
            lemma_day_number_bounds(self.end.date);
        }
        self.end.total_minutes() - self.start.total_minutes()
    }

    /// Whether the two events share some instant.
    pub fn overlaps(&self, other: &Event) -> (r: bool)
        requires
            self.valid(),
            other.valid(),
        ensures
            r == (self.start.minutes() < other.end.minutes() && other.start.minutes()
                < self.end.minutes()),
    {
        self.start.is_before(&other.end) && other.start.is_before(&self.end)
    }
}

} // verus!
