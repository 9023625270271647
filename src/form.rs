use vstd::prelude::*;
use chrono::Timelike;
use crate::date::Date;
use crate::event::{Event, MINUTES_PER_DAY};
use crate::key::Key;
use crate::text::{push_char, pop_char};

verus! {

pub const MAX_BUFFER_LEN: usize = 5;

pub const MAX_ALL_DAY_DAYS: u32 = 365;

pub const MAX_TIMED_MINUTES: u32 = 10080;

#[derive(Clone, Copy, Debug, PartialEq, Eq, Structural)]
pub enum FormField {
    Title,
    StartTime,
    Duration,
    Location,
    Description,
}

/// The field after `f` in the cycle; all-day forms skip the start time.
pub open spec fn field_after(f: FormField, all_day: bool) -> FormField {
    match f {
        FormField::Title => if all_day { FormField::Duration } else { FormField::StartTime },
        FormField::StartTime => FormField::Duration,
        FormField::Duration => FormField::Location,
        FormField::Location => FormField::Description,
        FormField::Description => FormField::Title,
    }
}

/// The field before `f` in the cycle; all-day forms skip the start time.
pub open spec fn field_before(f: FormField, all_day: bool) -> FormField {
    match f {
        FormField::Title => FormField::Description,
        FormField::StartTime => FormField::Title,
        FormField::Duration => if all_day { FormField::Title } else { FormField::StartTime },
        FormField::Location => FormField::Duration,
        FormField::Description => FormField::Location,
    }
}

pub open spec fn is_digit(c: char) -> bool {
    '0' <= c <= '9'
}

pub open spec fn digit_value(c: char) -> int {
    c as int - '0' as int
}

pub open spec fn digit_char(d: int) -> char {
    (d + '0' as int) as char
}

/// The number written by a string of decimal digits.
pub open spec fn digits_value(s: Seq<char>) -> int
    decreases s.len(),
{
    if s.len() == 0 {
        0
    } else {
        digits_value(s.drop_last()) * 10 + digit_value(s.last())
    }
}

pub open spec fn all_digits(s: Seq<char>) -> bool {
    forall|i: int| 0 <= i < s.len() ==> is_digit(#[trigger] s[i])
}

/// The digits part of a number: all of it but a leading `+`.
pub open spec fn unsigned_body(s: Seq<char>) -> Seq<char> {
    if s.len() > 0 && s[0] == '+' { s.drop_first() } else { s }
}

/// What `str::parse::<u32>` accepts: an optional `+`, then at least one
/// decimal digit, with a value that fits in `u32`.
pub open spec fn parse_u32_spec(s: Seq<char>) -> Option<u32> {
    let body = unsigned_body(s);
    if body.len() > 0 && all_digits(body) && digits_value(body) <= u32::MAX {
        Some(digits_value(body) as u32)
    } else {
        None
    }
}

/// The decimal digits of `n`, without leading zeros.
pub open spec fn decimal(n: nat) -> Seq<char>
    decreases n,
{
    if n < 10 {
        seq![digit_char(n as int)]
    } else {
        decimal(n / 10).push(digit_char((n % 10) as int))
    }
}

/// `hh:mm`, each part two digits.
pub open spec fn clock_text(h: int, m: int) -> Seq<char> {
    seq![digit_char(h / 10), digit_char(h % 10), ':', digit_char(m / 10), digit_char(m % 10)]
}

pub open spec fn without_colons(s: Seq<char>) -> Seq<char> {
    s.filter(|c: char| c != ':')
}

pub open spec fn min_of(a: int, b: int) -> int {
    if a <= b { a } else { b }
}

pub open spec fn clamp(v: int, lo: int, hi: int) -> int {
    if v < lo { lo } else if v > hi { hi } else { v }
}

/// The start time that a time buffer stands for: `HMM`/`HHMM` (colons
/// ignored) give hour and minute, one or two digits give the hour alone; each
/// part is clamped to a valid time. Anything else stands for nothing.
pub open spec fn time_buffer_value(buffer: Seq<char>) -> Option<(int, int)> {
    let input = without_colons(buffer);
    match parse_u32_spec(input) {
        Some(num) => if input.len() == 3 || input.len() == 4 {
            Some((min_of((num / 100) as int, 23), min_of((num % 100) as int, 59)))
        } else if input.len() <= 2 {
            Some((min_of(num as int, 23), 0))
        } else {
            None
        },
        None => None,
    }
}

/// The duration in minutes that a duration buffer stands for: days, clamped to
/// a year, for all-day events; minutes, clamped to a week, otherwise.
pub open spec fn duration_buffer_value(buffer: Seq<char>, all_day: bool) -> Option<int> {
    match parse_u32_spec(buffer) {
        Some(v) => if all_day {
            Some(clamp(v as int, 1, MAX_ALL_DAY_DAYS as int) * MINUTES_PER_DAY)
        } else {
            Some(clamp(v as int, 1, MAX_TIMED_MINUTES as int))
        },
        None => None,
    }
}

pub open spec fn is_time_input_char(c: char) -> bool {
    is_digit(c) || c == ':'
}

/// What typing `c` does to a numeric buffer: the first keystroke replaces the
/// untouched content; accepted characters are appended up to the length limit.
pub open spec fn typed_into(buffer: Seq<char>, touched: bool, c: char) -> Seq<char> {
    let base = if touched { buffer } else { Seq::<char>::empty() };
    if base.len() < MAX_BUFFER_LEN { base.push(c) } else { base }
}

impl EventForm {
    /// A form whose date and start time name a real instant.
    pub open spec fn wf(self) -> bool {
        self.date.valid() && self.start_hour < 24 && self.start_minute < 60
    }

    /// The fields a time or duration parse leaves alone.
    pub open spec fn same_text(self, other: EventForm) -> bool {
        &&& self.title@ == other.title@
        &&& self.location@ == other.location@
        &&& self.description@ == other.description@
        &&& self.date == other.date
        &&& self.event_id == other.event_id
        &&& self.all_day == other.all_day
        &&& self.active_field == other.active_field
        &&& self.time_buffer_touched == other.time_buffer_touched
        &&& self.duration_buffer_touched == other.duration_buffer_touched
    }
}

/// The text that field `which` shows.
pub open spec fn field_text(f: EventForm, which: FormField) -> Seq<char> {
    match which {
        FormField::Title => f.title@,
        FormField::StartTime => f.time_input_buffer@,
        FormField::Duration => f.duration_input_buffer@,
        FormField::Location => f.location@,
        FormField::Description => f.description@,
    }
}

/// A text without its last character, if it has one.
pub open spec fn without_last(t: Seq<char>) -> Seq<char> {
    if t.len() == 0 { t } else { t.drop_last() }
}

/// `g` is `f` with the text of the active field replaced by `t`; where `touch`,
/// a numeric buffer so edited is marked touched. Nothing else changes.
pub open spec fn field_edited(f: EventForm, g: EventForm, t: Seq<char>, touch: bool) -> bool {
    let a = f.active_field;
    &&& g.active_field == a
    &&& field_text(g, a) == t
    &&& forall|w: FormField| w != a ==> field_text(g, w) == field_text(f, w)
    &&& g.date == f.date && g.event_id == f.event_id && g.all_day == f.all_day
    &&& g.start_hour == f.start_hour && g.start_minute == f.start_minute
    &&& g.duration_minutes == f.duration_minutes
    &&& g.time_buffer_touched == (if a == FormField::StartTime && touch { true } else { f.time_buffer_touched })
    &&& g.duration_buffer_touched == (if a == FormField::Duration && touch { true } else { f.duration_buffer_touched })
}

/// `g` is `f` after the buffer of its active field was read: the start time
/// from the time buffer (rewritten as `hh:mm`), or the duration from the
/// duration buffer; malformed buffers and other fields change nothing. The
/// active field itself is not compared.
pub open spec fn parsed_into(f: EventForm, g: EventForm) -> bool {
    &&& g.title@ == f.title@ && g.location@ == f.location@ && g.description@ == f.description@
    &&& g.date == f.date && g.event_id == f.event_id && g.all_day == f.all_day
    &&& g.time_buffer_touched == f.time_buffer_touched
    &&& g.duration_buffer_touched == f.duration_buffer_touched
    &&& g.duration_input_buffer@ == f.duration_input_buffer@
    &&& if f.active_field == FormField::StartTime {
        &&& g.duration_minutes == f.duration_minutes
        &&& match time_buffer_value(f.time_input_buffer@) {
            Some((h, m)) => g.start_hour == h && g.start_minute == m && g.time_input_buffer@
                == clock_text(h, m),
            None => g.start_hour == f.start_hour && g.start_minute == f.start_minute
                && g.time_input_buffer@ == f.time_input_buffer@,
        }
    } else if f.active_field == FormField::Duration {
        &&& g.start_hour == f.start_hour && g.start_minute == f.start_minute
        &&& g.time_input_buffer@ == f.time_input_buffer@
        &&& match duration_buffer_value(f.duration_input_buffer@, f.all_day) {
            Some(d) => g.duration_minutes == d,
            None => g.duration_minutes == f.duration_minutes,
        }
    } else {
        &&& g.start_hour == f.start_hour && g.start_minute == f.start_minute
        &&& g.time_input_buffer@ == f.time_input_buffer@
        &&& g.duration_minutes == f.duration_minutes
    }
}

/// What one key press does to a form: Tab and Shift-Tab read the active
/// buffer and move to the next or previous field; a character is typed into
/// the active field (numeric buffers take only digits, and `:` for the time,
/// up to their length limit, the first keystroke replacing untouched
/// content); Backspace deletes the active field's last character; other keys
/// change nothing.
pub open spec fn key_step(f: EventForm, g: EventForm, key: Key) -> bool {
    match key {
        Key::Tab => parsed_into(f, g) && g.active_field == field_after(f.active_field, f.all_day),
        Key::BackTab => parsed_into(f, g) && g.active_field == field_before(f.active_field, f.all_day),
        Key::Char(c) => {
            let a = f.active_field;
            if a == FormField::StartTime {
                if is_time_input_char(c) {
                    field_edited(f, g, typed_into(f.time_input_buffer@, f.time_buffer_touched, c), true)
                } else {
                    field_edited(f, g, f.time_input_buffer@, false)
                }
            } else if a == FormField::Duration {
                if is_digit(c) {
                    field_edited(f, g, typed_into(f.duration_input_buffer@, f.duration_buffer_touched, c), true)
                } else {
                    field_edited(f, g, f.duration_input_buffer@, false)
                }
            } else {
                field_edited(f, g, field_text(f, a).push(c), false)
            }
        },
        Key::Backspace => field_edited(f, g, without_last(field_text(f, f.active_field)), true),
        _ => g == f,
    }
}

/// A transient edit buffer for one event.
#[derive(Clone, Debug)]
pub struct EventForm {
    pub title: String,
    pub date: Date,
    pub start_hour: u32,
    pub start_minute: u32,
    pub duration_minutes: u32,
    pub location: String,
    pub description: String,
    pub active_field: FormField,
    pub event_id: Option<String>,
    pub time_input_buffer: String,
    pub duration_input_buffer: String,
    pub time_buffer_touched: bool,
    pub duration_buffer_touched: bool,
    pub all_day: bool,
}

/// Relies on `chrono::Local::now` and `Timelike::hour`: the hour of the local
/// time now, from 0 to 23.
#[verifier::external_body]
fn current_local_hour() -> (r: u32)
    ensures
        r < 24,
{
    chrono::Local::now().hour()
}

fn digit(d: u32) -> (c: char)
    requires
        d < 10,
    ensures
        c == digit_char(d as int),
{
    let c = (d + 48) as u8 as char;
    assert(c == digit_char(d as int));
    c
}

/// `hh:mm` with two digits for each part.
pub fn clock_string(h: u32, m: u32) -> (r: String)
    requires
        h < 100,
        m < 100,
    ensures
        r@ == clock_text(h as int, m as int),
{
    let mut s = String::new();
    push_char(&mut s, digit(h / 10));
    push_char(&mut s, digit(h % 10));
    push_char(&mut s, ':');
    push_char(&mut s, digit(m / 10));
    push_char(&mut s, digit(m % 10));
    assert(s@ =~= clock_text(h as int, m as int));
    s
}

/// The decimal form of `n`.
pub fn decimal_string(n: u64) -> (r: String)
    ensures
        r@ == decimal(n as nat),
    decreases n,
{
    if n < 10 {
        let mut s = String::new();
        push_char(&mut s, digit(n as u32));
        assert(s@ =~= decimal(n as nat));
        s
    } else {
        let mut s = decimal_string(n / 10);
        push_char(&mut s, digit((n % 10) as u32));
        s
    }
}

proof fn lemma_digits_value_nonneg(s: Seq<char>)
    requires
        forall|i: int| 0 <= i < s.len() ==> is_digit(#[trigger] s[i]),
    ensures
        digits_value(s) >= 0,
    decreases s.len(),
{
    if s.len() > 0 {
        lemma_digits_value_nonneg(s.drop_last());
    }
}

/// Parses a decimal `u32` as `str::parse` does.
pub fn parse_u32(s: &Vec<char>) -> (r: Option<u32>)
    ensures
        r == parse_u32_spec(s@),
{
    let ghost body = unsigned_body(s@);
    let start: usize = if s.len() > 0 && s[0] == '+' {
        1
    } else {
        0
    };
    if start >= s.len() {
        return None;
    }
    let mut acc: u64 = 0;
    let mut overflow = false;
    let mut i = start;
    while i < s.len()
        invariant
            start <= i <= s@.len(),
            start == (if s@.len() > 0 && s@[0] == '+' { 1int } else { 0int }),
            body == s@.subrange(start as int, s@.len() as int),
            body == unsigned_body(s@),
            forall|j: int| start <= j < i ==> is_digit(#[trigger] s@[j]),
            !overflow ==> acc == digits_value(s@.subrange(start as int, i as int)),
            !overflow ==> acc <= u32::MAX,
            overflow ==> digits_value(s@.subrange(start as int, i as int)) > u32::MAX,
        decreases s@.len() - i,
    {
        let c = s[i];
        if !('0' <= c && c <= '9') {
            proof {
                assert(body[i - start] == c);
                assert(!is_digit(body[i - start]));
            }
            return None;
        }
        let ghost prefix = s@.subrange(start as int, i + 1);
        proof {
            assert(prefix.drop_last() =~= s@.subrange(start as int, i as int));
        }
        if !overflow {
            let next = acc * 10 + (c as u64 - 48);
            if next > 4294967295 {
                overflow = true;
            } else {
                acc = next;
            }
        } else {
            proof {
                assert(forall|j: int| 0 <= j < prefix.drop_last().len() ==> is_digit(#[trigger] prefix.drop_last()[j]));
                lemma_digits_value_nonneg(prefix.drop_last());
            }
        }
        i = i + 1;
    }
    proof {
        assert(body =~= s@.subrange(start as int, i as int));
        assert forall|j: int| 0 <= j < body.len() implies is_digit(#[trigger] body[j]) by {
            assert(body[j] == s@[j + start]);
        }
    }
    if overflow {
        None
    } else {
        Some(acc as u32)
    }
}

fn chars_without_colons(s: &String) -> (r: Vec<char>)
    ensures
        r@ == without_colons(s@),
{
    let cs = crate::text::chars_of(s.as_str());
    let mut out: Vec<char> = Vec::new();
    let mut i: usize = 0;
    while i < cs.len()
        invariant
            cs@ == s@,
            i <= cs@.len(),
            out@ == without_colons(cs@.subrange(0, i as int)),
        decreases cs@.len() - i,
    {
        proof {
            let pre = cs@.subrange(0, i as int);
            let nxt = cs@.subrange(0, i + 1);
            assert(nxt.drop_last() =~= pre);
            reveal(Seq::filter);
        }
        if cs[i] != ':' {
            out.push(cs[i]);
        }
        i = i + 1;
    }
    assert(cs@.subrange(0, i as int) =~= cs@);
    out
}

impl EventForm {
    /// A blank timed form starting at `hour`:00 and lasting an hour.
    pub fn new_at_hour(date: Date, title: String, hour: u32) -> (r: EventForm)
        requires
            hour < 24,
        ensures
            date.valid() ==> r.wf(),
            r.title@ == title@,
            r.date == date,
            r.start_hour == hour,
            r.start_minute == 0,
            r.duration_minutes == 60,
            r.location@.len() == 0,
            r.description@.len() == 0,
            r.active_field == FormField::Title,
            r.event_id is None,
            r.time_input_buffer@ == clock_text(hour as int, 0),
            r.duration_input_buffer@ == decimal(60),
            !r.time_buffer_touched,
            !r.duration_buffer_touched,
            !r.all_day,
    {
        EventForm {
            title,
            date,
            start_hour: hour,
            start_minute: 0,
            duration_minutes: 60,
            location: String::new(),
            description: String::new(),
            active_field: FormField::Title,
            event_id: None,
            time_input_buffer: clock_string(hour, 0),
            duration_input_buffer: decimal_string(60u64),
            time_buffer_touched: false,
            duration_buffer_touched: false,
            all_day: false,
        }
    }

    /// A blank timed form starting at the current local hour.
    pub fn new(date: Date, title: String) -> (r: EventForm)
        ensures
            date.valid() ==> r.wf(),
            r.title@ == title@,
            r.date == date,
            r.start_hour < 24,
            r.start_minute == 0,
            r.duration_minutes == 60,
            r.active_field == FormField::Title,
            r.event_id is None,
            r.time_input_buffer@ == clock_text(r.start_hour as int, 0),
            r.duration_input_buffer@ == decimal(60),
            !r.all_day,
    {
        let hour = current_local_hour();
        EventForm::new_at_hour(date, title, hour)
    }

    /// A form pre-filled from an existing event.
    pub fn for_event(event: &Event) -> (r: EventForm)
        requires
            event.valid(),
        ensures
            r.wf(),
            r.title@ == event.title@,
            r.date == event.start.date,
            r.start_hour == event.start.hour_of(),
            r.start_minute == event.start.minute % 60,
            r.duration_minutes == event.end.minutes() - event.start.minutes() || !(0
                <= event.end.minutes() - event.start.minutes() <= u32::MAX),
            r.event_id == Some(event.id),
            r.active_field == FormField::Title,
            r.time_input_buffer@ == clock_text(r.start_hour as int, r.start_minute as int),
            r.duration_input_buffer@ == if event.all_day {
                decimal((r.duration_minutes / MINUTES_PER_DAY) as nat)
            } else {
                decimal(r.duration_minutes as nat)
            },
            r.all_day == event.all_day,
            r.location@ == match event.location {
                Some(l) => l@,
                None => Seq::empty(),
            },
            r.description@ == match event.description {
                Some(d) => d@,
                None => Seq::empty(),
            },
            r.event_id is Some,
            !r.time_buffer_touched && !r.duration_buffer_touched,
    {
        let start_hour = event.start.hour();
        let start_minute = event.start.minute_of_hour();
        let d = event.duration_minutes();
        let duration_minutes = d as u32;
        let location = match &event.location {
            Some(l) => l.clone(),
            None => String::new(),
        };
        let description = match &event.description {
            Some(d) => d.clone(),
            None => String::new(),
        };
        EventForm {
            title: event.title.clone(),
            date: event.start.date,
            start_hour,
            start_minute,
            duration_minutes,
            location,
            description,
            active_field: FormField::Title,
            event_id: Some(event.id.clone()),
            time_input_buffer: clock_string(start_hour, start_minute),
            duration_input_buffer: if event.all_day {
                decimal_string((duration_minutes / MINUTES_PER_DAY) as u64)
            } else {
                decimal_string(duration_minutes as u64)
            },
            time_buffer_touched: false,
            duration_buffer_touched: false,
            all_day: event.all_day,
        }
    }

    /// A blank all-day form spanning `duration_days` days.
    pub fn new_all_day(date: Date, title: String, duration_days: u32) -> (r: EventForm)
        requires
            duration_days * MINUTES_PER_DAY <= u32::MAX,
        ensures
            date.valid() ==> r.wf(),
            r.title@ == title@,
            r.date == date,
            r.start_hour == 0,
            r.start_minute == 0,
            r.duration_minutes == duration_days * MINUTES_PER_DAY,
            r.location@.len() == 0,
            r.description@.len() == 0,
            r.active_field == FormField::Title,
            r.event_id is None,
            r.time_input_buffer@.len() == 0,
            r.duration_input_buffer@ == decimal(duration_days as nat),
            !r.time_buffer_touched,
            !r.duration_buffer_touched,
            r.all_day,
    {
        EventForm {
            title,
            date,
            start_hour: 0,
            start_minute: 0,
            duration_minutes: duration_days * MINUTES_PER_DAY,
            location: String::new(),
            description: String::new(),
            active_field: FormField::Title,
            event_id: None,
            time_input_buffer: String::new(),
            duration_input_buffer: decimal_string(duration_days as u64),
            time_buffer_touched: false,
            duration_buffer_touched: false,
            all_day: true,
        }
    }

    /// Whether the form edits an existing event rather than creating one.
    pub fn is_editing(&self) -> (r: bool)
        ensures
            r == self.event_id is Some,
    {
        self.event_id.is_some()
    }

    pub fn next_field(&mut self)
        ensures
            old(self).wf() ==> final(self).wf(),
            *final(self) == (EventForm {
                active_field: field_after(old(self).active_field, old(self).all_day),
                ..*old(self)
            }),
    {
        self.active_field = match self.active_field {
            FormField::Title => if self.all_day {
                FormField::Duration
            } else {
                FormField::StartTime
            },
            FormField::StartTime => FormField::Duration,
            FormField::Duration => FormField::Location,
            FormField::Location => FormField::Description,
            FormField::Description => FormField::Title,
        };
    }

    pub fn prev_field(&mut self)
        ensures
            old(self).wf() ==> final(self).wf(),
            *final(self) == (EventForm {
                active_field: field_before(old(self).active_field, old(self).all_day),
                ..*old(self)
            }),
    {
        self.active_field = match self.active_field {
            FormField::Title => FormField::Description,
            FormField::StartTime => FormField::Title,
            FormField::Duration => if self.all_day {
                FormField::Title
            } else {
                FormField::StartTime
            },
            FormField::Location => FormField::Duration,
            FormField::Description => FormField::Location,
        };
    }
    /// Reads the start time from the time buffer and rewrites the buffer as
    /// `hh:mm`; a buffer that stands for no time changes nothing.
    pub fn parse_time_input(&mut self)
        ensures
            old(self).wf() ==> final(self).wf(),
            final(self).same_text(*old(self)),
            final(self).duration_minutes == old(self).duration_minutes,
            final(self).duration_input_buffer@ == old(self).duration_input_buffer@,
            match time_buffer_value(old(self).time_input_buffer@) {
                Some((h, m)) => {
                    &&& final(self).start_hour == h
                    &&& final(self).start_minute == m
                    &&& final(self).time_input_buffer@ == clock_text(h, m)
                },
                None => {
                    &&& final(self).start_hour == old(self).start_hour
                    &&& final(self).start_minute == old(self).start_minute
                    &&& final(self).time_input_buffer@ == old(self).time_input_buffer@
                },
            },
    {
        let input = chars_without_colons(&self.time_input_buffer);
        if let Some(num) = parse_u32(&input) {
            if input.len() == 3 || input.len() == 4 {
                let h = if num / 100 < 23 {
                    num / 100
                } else {
                    23
                };
                let m = if num % 100 < 59 {
                    num % 100
                } else {
                    59
                };
                self.start_hour = h;
                self.start_minute = m;
                self.time_input_buffer = clock_string(h, m);
            } else if input.len() <= 2 {
                let h = if num < 23 {
                    num
                } else {
                    23
                };
                self.start_hour = h;
                self.start_minute = 0;
                self.time_input_buffer = clock_string(h, 0);
            }
        }
    }

    /// Reads the duration from the duration buffer, clamped to its range; a
    /// buffer that holds no number changes nothing.
    pub fn parse_duration_input(&mut self)
        ensures
            old(self).wf() ==> final(self).wf(),
            final(self).same_text(*old(self)),
            final(self).start_hour == old(self).start_hour,
            final(self).start_minute == old(self).start_minute,
            final(self).time_input_buffer@ == old(self).time_input_buffer@,
            final(self).duration_input_buffer@ == old(self).duration_input_buffer@,
            match duration_buffer_value(old(self).duration_input_buffer@, old(self).all_day) {
                Some(d) => final(self).duration_minutes == d,
                None => final(self).duration_minutes == old(self).duration_minutes,
            },
    {
        let cs = crate::text::chars_of(self.duration_input_buffer.as_str());
        if let Some(value) = parse_u32(&cs) {
            if self.all_day {
                let days = if value < 1 {
                    1
                } else if value > MAX_ALL_DAY_DAYS {
                    MAX_ALL_DAY_DAYS
                } else {
                    value
                };
                self.duration_minutes = days * MINUTES_PER_DAY;
            } else {
                self.duration_minutes = if value < 1 {
                    1
                } else if value > MAX_TIMED_MINUTES {
                    MAX_TIMED_MINUTES
                } else {
                    value
                };
            }
        }
    }

    /// Parses the buffer of the active field, if it has one.
    pub fn parse_active_field(&mut self)
        ensures
            old(self).wf() ==> final(self).wf(),
            parsed_into(*old(self), *final(self)),
            final(self).active_field == old(self).active_field,
    {
        match self.active_field {
            FormField::StartTime => self.parse_time_input(),
            FormField::Duration => self.parse_duration_input(),
            _ => {},
        }
    }

    /// Edits the form for one key press: Tab and Shift-Tab parse the active
    /// field and move to the next or previous one; Backspace and characters
    /// edit the active field's text. Other keys do nothing here.
    pub fn handle_key(&mut self, key: Key)
        ensures
            old(self).wf() ==> final(self).wf(),
            key_step(*old(self), *final(self), key),
    {
        match key {
            Key::Tab => {
                self.parse_active_field();
                self.next_field();
            },
            Key::BackTab => {
                self.parse_active_field();
                self.prev_field();
            },
            Key::Backspace => {
                match self.active_field {
                    FormField::Title => {
                        pop_char(&mut self.title);
                    },
                    FormField::StartTime => {
                        pop_char(&mut self.time_input_buffer);
                        self.time_buffer_touched = true;
                    },
                    FormField::Duration => {
                        pop_char(&mut self.duration_input_buffer);
                        self.duration_buffer_touched = true;
                    },
                    FormField::Location => {
                        pop_char(&mut self.location);
                    },
                    FormField::Description => {
                        pop_char(&mut self.description);
                    },
                }
            },
            Key::Char(c) => {
                match self.active_field {
                    FormField::Title => push_char(&mut self.title, c),
                    FormField::StartTime => {
                        if ('0' <= c && c <= '9') || c == ':' {
                            if !self.time_buffer_touched {
                                self.time_input_buffer = String::new();
                                self.time_buffer_touched = true;
                            }
                            if crate::text::chars_of(self.time_input_buffer.as_str()).len()
                                < MAX_BUFFER_LEN {
                                push_char(&mut self.time_input_buffer, c);
                            }
                        }
                    },
                    FormField::Duration => {
                        if '0' <= c && c <= '9' {
                            if !self.duration_buffer_touched {
                                self.duration_input_buffer = String::new();
                                self.duration_buffer_touched = true;
                            }
                            if crate::text::chars_of(self.duration_input_buffer.as_str()).len()
                                < MAX_BUFFER_LEN {
                                push_char(&mut self.duration_input_buffer, c);
                            }
                        }
                    },
                    FormField::Location => push_char(&mut self.location, c),
                    FormField::Description => push_char(&mut self.description, c),
                }
            },
            _ => {},
        }
    }
}

} // verus!
