use vstd::prelude::*;
use chrono::Datelike;

verus! {

/// Smallest year a calendar date may carry.
pub const MIN_YEAR: i32 = -262143;

/// Largest year a calendar date may carry.
pub const MAX_YEAR: i32 = 262142;

/// Whole 400-year Gregorian cycles added before counting days, so that every
/// supported year maps to a positive count; a cycle is a whole number of weeks.
pub const YEAR_SHIFT: i64 = 280000;

/// A proleptic Gregorian calendar date.
#[derive(Clone, Copy, Debug, PartialEq, Eq, Structural, PartialOrd, Ord, Hash)]
pub struct Date {
    pub year: i32,
    pub month: u32,
    pub day: u32,
}

pub open spec fn is_leap_year(y: int) -> bool {
    (y % 4 == 0 && y % 100 != 0) || y % 400 == 0
}

pub open spec fn month_length(y: int, m: int) -> int {
    if m == 2 {
        if is_leap_year(y) { 29 } else { 28 }
    } else if m == 4 || m == 6 || m == 9 || m == 11 {
        30
    } else {
        31
    }
}

/// Days in the months of year `y` that precede month `m`.
pub open spec fn days_before_month(y: int, m: int) -> int
    decreases m,
{
    if m <= 1 {
        0
    } else {
        days_before_month(y, m - 1) + month_length(y, m - 1)
    }
}

/// Days in the (shifted) years that precede year `y`.
pub open spec fn days_before_year(y: int) -> int {
    let p = y + YEAR_SHIFT - 1;
    365 * p + p / 4 - p / 100 + p / 400
}

impl Date {
    pub open spec fn valid(self) -> bool {
        &&& MIN_YEAR <= self.year <= MAX_YEAR
        &&& 1 <= self.month <= 12
        &&& 1 <= self.day <= month_length(self.year as int, self.month as int)
    }

    /// Days elapsed since a fixed Monday far in the past.
    pub open spec fn day_number(self) -> int {
        days_before_year(self.year as int) + days_before_month(self.year as int, self.month as int)
            + self.day - 1
    }

    /// Day of the week, counted from Monday (0) to Sunday (6).
    pub open spec fn weekday(self) -> int {
        self.day_number() % 7
    }

    /// Calendar order: by year, then month, then day.
    pub open spec fn on_or_before(self, other: Date) -> bool {
        self.year < other.year || (self.year == other.year && (self.month < other.month || (
        self.month == other.month && self.day <= other.day)))
    }

    pub open spec fn first_of_month(self) -> Date {
        Date { year: self.year, month: self.month, day: 1 }
    }

    pub open spec fn last_of_month(self) -> Date {
        Date {
            year: self.year,
            month: self.month,
            day: month_length(self.year as int, self.month as int) as u32,
        }
    }

    /// The day after `self`, where that day is still in range.
    pub open spec fn next(self) -> Option<Date> {
        if self.day < month_length(self.year as int, self.month as int) {
            Some(Date { day: (self.day + 1) as u32, ..self })
        } else if self.month < 12 {
            Some(Date { year: self.year, month: (self.month + 1) as u32, day: 1 })
        } else if self.year < MAX_YEAR {
            Some(Date { year: (self.year + 1) as i32, month: 1, day: 1 })
        } else {
            None
        }
    }

    /// The day before `self`, where that day is still in range.
    pub open spec fn prev(self) -> Option<Date> {
        if self.day > 1 {
            Some(Date { day: (self.day - 1) as u32, ..self })
        } else if self.month > 1 {
            Some(
                Date {
                    year: self.year,
                    month: (self.month - 1) as u32,
                    day: month_length(self.year as int, self.month - 1) as u32,
                },
            )
        } else if self.year > MIN_YEAR {
            Some(Date { year: (self.year - 1) as i32, month: 12, day: 31 })
        } else {
            None
        }
    }

    /// `n` days after `self`, or `None` where the range of dates ends first.
    pub open spec fn plus_days(self, n: nat) -> Option<Date>
        decreases n,
    {
        if n == 0 {
            Some(self)
        } else {
            match self.plus_days((n - 1) as nat) {
                Some(d) => d.next(),
                None => None,
            }
        }
    }

    /// `n` days before `self`, or `None` where the range of dates ends first.
    pub open spec fn minus_days(self, n: nat) -> Option<Date>
        decreases n,
    {
        if n == 0 {
            Some(self)
        } else {
            match self.minus_days((n - 1) as nat) {
                Some(d) => d.prev(),
                None => None,
            }
        }
    }

    /// The same day-of-month in the next (`forward`) or previous month, clamped
    /// to the length of that month.
    pub open spec fn month_shifted(self, forward: bool) -> Option<Date> {
        let (y, m) = if forward {
            if self.month == 12 { (self.year + 1, 1int) } else { (self.year as int, self.month + 1) }
        } else {
            if self.month == 1 { (self.year - 1, 12int) } else { (self.year as int, self.month - 1) }
        };
        if MIN_YEAR <= y <= MAX_YEAR {
            let len = month_length(y, m);
            Some(Date {
                year: y as i32,
                month: m as u32,
                day: (if self.day <= len { self.day as int } else { len }) as u32,
            })
        } else {
            None
        }
    }
}

pub proof fn lemma_days_before_month_bounds(y: int, m: int)
    requires
        1 <= m <= 13,
    ensures
        0 <= days_before_month(y, m) <= 31 * (m - 1),
    decreases m,
{
    if m > 1 {
        lemma_days_before_month_bounds(y, m - 1);
    }
}

/// Whether `y` is a leap year of the Gregorian calendar.
pub fn is_leap(y: i32) -> (r: bool)
    ensures
        r == is_leap_year(y as int),
{
    (y % 4 == 0 && y % 100 != 0) || y % 400 == 0
}

/// Number of days in month `m` of year `y`.
pub fn days_in_month(y: i32, m: u32) -> (r: u32)
    requires
        1 <= m <= 12,
    ensures
        r as int == month_length(y as int, m as int),
        28 <= r <= 31,
{
    if m == 2 {
        if is_leap(y) {
            29
        } else {
            28
        }
    } else if m == 4 || m == 6 || m == 9 || m == 11 {
        30
    } else {
        31
    }
}

impl Date {
    /// The date with the given fields, where they name a day of the calendar.
    pub fn from_ymd(year: i32, month: u32, day: u32) -> (r: Option<Date>)
        ensures
            r is Some <==> (Date { year, month, day }).valid(),
            r is Some ==> r->0 == (Date { year, month, day }),
    {
        if year < MIN_YEAR || year > MAX_YEAR || month < 1 || month > 12 || day < 1 {
            return None;
        }
        if day > days_in_month(year, month) {
            return None;
        }
        Some(Date { year, month, day })
    }

    /// Whether the fields name a day of the calendar.
    pub fn is_valid(&self) -> (r: bool)
        ensures
            r == self.valid(),
    {
        Date::from_ymd(self.year, self.month, self.day).is_some()
    }

    pub fn first_day_of_month(&self) -> (r: Date)
        requires
            self.valid(),
        ensures
            r == self.first_of_month(),
            r.valid(),
    {
        Date { year: self.year, month: self.month, day: 1 }
    }

    pub fn last_day_of_month(&self) -> (r: Date)
        requires
            self.valid(),
        ensures
            r == self.last_of_month(),
            r.valid(),
    {
        Date { year: self.year, month: self.month, day: days_in_month(self.year, self.month) }
    }

    /// Calendar order, as `self <= other`.
    pub fn is_on_or_before(&self, other: &Date) -> (r: bool)
        ensures
            r == self.on_or_before(*other),
    {
        self.year < other.year || (self.year == other.year && (self.month < other.month || (
        self.month == other.month && self.day <= other.day)))
    }

    /// The following day; `None` only past the last supported date.
    pub fn succ(&self) -> (r: Option<Date>)
        requires
            self.valid(),
        ensures
            r == self.next(),
            r matches Some(d) ==> d.valid(),
    {
        let len = days_in_month(self.year, self.month);
        if self.day < len {
            Some(Date { year: self.year, month: self.month, day: self.day + 1 })
        } else if self.month < 12 {
            Some(Date { year: self.year, month: self.month + 1, day: 1 })
        } else if self.year < MAX_YEAR {
            Some(Date { year: self.year + 1, month: 1, day: 1 })
        } else {
            None
        }
    }

    /// The preceding day; `None` only before the first supported date.
    pub fn pred(&self) -> (r: Option<Date>)
        requires
            self.valid(),
        ensures
            r == self.prev(),
            r matches Some(d) ==> d.valid(),
    {
        if self.day > 1 {
            Some(Date { year: self.year, month: self.month, day: self.day - 1 })
        } else if self.month > 1 {
            let m = self.month - 1;
            Some(Date { year: self.year, month: m, day: days_in_month(self.year, m) })
        } else if self.year > MIN_YEAR {
            Some(Date { year: self.year - 1, month: 12, day: 31 })
        } else {
            None
        }
    }

    /// The date `n` days later, or `None` past the last supported date.
    pub fn checked_add_days(&self, n: u32) -> (r: Option<Date>)
        requires
            self.valid(),
        ensures
            r == self.plus_days(n as nat),
            r matches Some(d) ==> d.valid(),
    {
        let mut cur = *self;
        let mut i: u32 = 0;
        while i < n
            invariant
                i <= n,
                cur.valid(),
                self.plus_days(i as nat) == Some(cur),
            decreases n - i,
        {
            match cur.succ() {
                Some(d) => {
                    cur = d;
                    i = i + 1;
                },
                None => {
                    proof {
                        lemma_plus_days_none_after(*self, (i + 1) as nat, n as nat);
                    }
                    return None;
                },
            }
        }
        Some(cur)
    }

    /// The date `n` days earlier, or `None` before the first supported date.
    pub fn checked_sub_days(&self, n: u32) -> (r: Option<Date>)
        requires
            self.valid(),
        ensures
            r == self.minus_days(n as nat),
            r matches Some(d) ==> d.valid(),
    {
        let mut cur = *self;
        let mut i: u32 = 0;
        while i < n
            invariant
                i <= n,
                cur.valid(),
                self.minus_days(i as nat) == Some(cur),
            decreases n - i,
        {
            match cur.pred() {
                Some(d) => {
                    cur = d;
                    i = i + 1;
                },
                None => {
                    proof {
                        lemma_minus_days_none_after(*self, (i + 1) as nat, n as nat);
                    }
                    return None;
                },
            }
        }
        Some(cur)
    }

    /// The same day in the next (`forward`) or previous month, clamped to that
    /// month's last day; `None` past the supported years.
    pub fn shift_month(&self, forward: bool) -> (r: Option<Date>)
        requires
            self.valid(),
        ensures
            r == self.month_shifted(forward),
            r matches Some(d) ==> d.valid(),
    {
        let (y, m): (i32, u32) = if forward {
            if self.month == 12 {
                if self.year >= MAX_YEAR {
                    return None;
                }
                (self.year + 1, 1)
            } else {
                (self.year, self.month + 1)
            }
        } else {
            if self.month == 1 {
                if self.year <= MIN_YEAR {
                    return None;
                }
                (self.year - 1, 12)
            } else {
                (self.year, self.month - 1)
            }
        };
        let len = days_in_month(y, m);
        let day = if self.day <= len {
            self.day
        } else {
            len
        };
        Some(Date { year: y, month: m, day })
    }

    /// Days elapsed since a fixed Monday far in the past.
    pub fn ordinal(&self) -> (r: i64)
        requires
            self.valid(),
        ensures
            r == self.day_number(),
            r >= 0,
    {
        let p: i64 = self.year as i64 + YEAR_SHIFT - 1;
        let mut before_month: i64 = 0;
        let mut m: u32 = 1;
        while m < self.month
            invariant
                1 <= m <= self.month <= 12,
                before_month == days_before_month(self.year as int, m as int),
                0 <= before_month <= 31 * (m - 1),
            decreases self.month - m,
        {
            before_month = before_month + days_in_month(self.year, m) as i64;
            m = m + 1;
        }
        365 * p + p / 4 - p / 100 + p / 400 + before_month + self.day as i64 - 1
    }

    /// Day of the week counted from Monday (0) to Sunday (6).
    pub fn weekday_from_monday(&self) -> (r: u32)
        requires
            self.valid(),
        ensures
            r == self.weekday(),
            r < 7,
    {
        (self.ordinal() % 7) as u32
    }
}

pub proof fn lemma_plus_days_none_after(d: Date, k: nat, n: nat)
    requires
        k <= n,
        d.plus_days(k) is None,
    ensures
        d.plus_days(n) is None,
    decreases n - k,
{
    if k < n {
        lemma_plus_days_none_after(d, k + 1, n);
    }
}

pub proof fn lemma_minus_days_none_after(d: Date, k: nat, n: nat)
    requires
        k <= n,
        d.minus_days(k) is None,
    ensures
        d.minus_days(n) is None,
    decreases n - k,
{
    if k < n {
        lemma_minus_days_none_after(d, k + 1, n);
    }
}


/// Relies on `chrono::Local::now` and `DateTime::date_naive`: today's date in
/// the local time zone; every `NaiveDate` is a valid date within the years of
/// `Date`.
#[verifier::external_body]
pub(crate) fn today_local() -> (r: Date)
    ensures
        r.valid(),
{
    let d = chrono::Local::now().date_naive();
    Date { year: d.year(), month: d.month(), day: d.day() }
}


proof fn lemma_days_before_month_step(y: int, m: int)
    requires
        1 <= m <= 12,
    ensures
        days_before_month(y, m + 1) == days_before_month(y, m) + month_length(y, m),
{
}

proof fn lemma_days_before_month_mono(y: int, m1: int, m2: int)
    requires
        1 <= m1 <= m2 <= 13,
    ensures
        days_before_month(y, m2) - days_before_month(y, m1) >= 28 * (m2 - m1),
    decreases m2 - m1,
{
    if m1 < m2 {
        lemma_days_before_month_mono(y, m1, m2 - 1);
        lemma_days_before_month_step(y, m2 - 1);
    }
}

proof fn lemma_days_before_year_step(y: int)
    ensures
        days_before_year(y + 1) == days_before_year(y) + 365 + if is_leap_year(y) { 1int } else { 0int },
{
    let p = y + YEAR_SHIFT - 1;
    let q = p + 1;
    assert(q == y + YEAR_SHIFT);
    assert((y + YEAR_SHIFT) % 4 == y % 4) by {
        assert(YEAR_SHIFT % 4 == 0);
    }
    assert((y + YEAR_SHIFT) % 100 == y % 100) by {
        assert(YEAR_SHIFT % 100 == 0);
    }
    assert((y + YEAR_SHIFT) % 400 == y % 400) by {
        assert(YEAR_SHIFT % 400 == 0);
    }
    assert(q / 4 == p / 4 + if q % 4 == 0 { 1int } else { 0int });
    assert(q / 100 == p / 100 + if q % 100 == 0 { 1int } else { 0int });
    assert(q / 400 == p / 400 + if q % 400 == 0 { 1int } else { 0int });
}

proof fn lemma_days_before_year_mono(y1: int, y2: int)
    requires
        y1 <= y2,
    ensures
        days_before_year(y2) - days_before_year(y1) >= 365 * (y2 - y1),
    decreases y2 - y1,
{
    if y1 < y2 {
        lemma_days_before_year_mono(y1, y2 - 1);
        lemma_days_before_year_step(y2 - 1);
    }
}

/// Later dates have larger day numbers.
pub proof fn lemma_day_number_monotone(a: Date, b: Date)
    requires
        a.valid(),
        b.valid(),
        a.on_or_before(b),
    ensures
        a.day_number() <= b.day_number(),
{
    if a.year < b.year {
        lemma_days_before_year_mono(a.year as int, b.year - 1);
        lemma_days_before_year_step(b.year - 1);
        lemma_days_before_month_mono(a.year as int, a.month as int, 13);
        lemma_days_before_month_step(a.year as int, 12);
        lemma_days_before_month_bounds(b.year as int, b.month as int);
        lemma_days_before_month_mono(a.year as int, 1, 13);
        assert(days_before_month(a.year as int, 13) <= 366) by {
            lemma_days_before_month_mono(a.year as int, a.month as int, 13);
            reveal_with_fuel(days_before_month, 13);
        }
    } else if a.month < b.month {
        lemma_days_before_month_mono(a.year as int, a.month + 1, b.month as int);
        lemma_days_before_month_step(a.year as int, a.month as int);
    }
}

} // verus!
