use vstd::prelude::*;
use vstd::string::StringExecFns;
use vstd::string::StringSliceAdditionalSpecFns;
use chrono::Timelike;
use crate::date::Date;
use crate::event::{DateTime, Event};
use crate::form::{clock_text, clock_string, digit_char};
use crate::text::{chars_of, push_char, string_of};

verus! {

/// Width of the time column of an agenda line.
pub const LABEL_WIDTH: usize = 13;

/// `line` cut to `width` characters, the last of them an ellipsis, where its
/// UTF-8 length (as `str::len` gives it) exceeds `width` bytes; a zero width
/// keeps the line.
pub open spec fn truncated(line: &str, width: usize) -> Seq<char> {
    if width > 0 && (line.spec_bytes().len() as usize) > width {
        let keep = if width - 1 < line@.len() { width - 1 } else { line@.len() as int };
        line@.take(keep).push('…')
    } else {
        line@
    }
}

/// Cuts a line to a display width, marking the cut with an ellipsis.
pub fn truncate_to_width(line: &str, width: usize) -> (r: String)
    ensures
        r@ == truncated(line, width),
{
    if width > 0 && line.len() > width {
        let cs = chars_of(line);
        let keep = if width - 1 < cs.len() {
            width - 1
        } else {
            cs.len()
        };
        let mut out: Vec<char> = Vec::new();
        let mut i: usize = 0;
        while i < keep
            invariant
                keep <= cs@.len(),
                i <= keep,
                out@ == cs@.take(i as int),
            decreases keep - i,
        {
            out.push(cs[i]);
            proof {
                assert(cs@.take(i as int).push(cs@[i as int]) =~= cs@.take(i + 1));
            }
            i = i + 1;
        }
        let mut s = string_of(&out);
        push_char(&mut s, '…');
        s
    } else {
        String::from_str(line)
    }
}

/// `s` padded with spaces on the right to at least `w` characters.
pub open spec fn padded(s: Seq<char>, w: int) -> Seq<char> {
    if s.len() >= w { s } else { s + Seq::new((w - s.len()) as nat, |i: int| ' ') }
}

/// The time column of an agenda line, from the local start and end minutes.
pub open spec fn agenda_label(all_day: bool, start_min: int, end_min: int) -> Seq<char> {
    if all_day {
        "All Day"@
    } else {
        clock_text(start_min / 60, start_min % 60) + seq!['-'] + clock_text(end_min / 60, end_min % 60)
    }
}

/// One agenda line before it is cut to width: the padded time column, the
/// title, and ` @ location` where the location is not empty.
pub open spec fn agenda_text_of(e: Event, start_min: int, end_min: int) -> Seq<char> {
    let base = padded(agenda_label(e.all_day, start_min, end_min), LABEL_WIDTH as int) + seq![' '] + e.title@;
    match e.location {
        Some(l) if l@.len() > 0 => base + " @ "@ + l@,
        _ => base,
    }
}

/// The agenda line of `event`, given its local start and end minutes.
pub fn agenda_line_at(event: &Event, start_min: u32, end_min: u32, width: usize) -> (r: String)
    requires
        start_min < 1440,
        end_min < 1440,
    ensures
        ({
            let full = agenda_text_of(*event, start_min as int, end_min as int);
            width == usize::MAX ==> r@ == full
        }),
{
    let mut line = if event.all_day {
        String::from_str("All Day")
    } else {
        let mut l = clock_string(start_min / 60, start_min % 60);
        push_char(&mut l, '-');
        let end = clock_string(end_min / 60, end_min % 60);
        l.append(end.as_str());
        l
    };
    let ghost label = line@;
    proof {
        reveal_strlit("All Day");
        assert(label == agenda_label(event.all_day, start_min as int, end_min as int));
    }
    let len = chars_of(line.as_str()).len();
    let mut k = len;
    while k < LABEL_WIDTH
        invariant
            len <= k,
            k <= LABEL_WIDTH || k == len,
            label.len() == len,
            line@ == label + Seq::new((k - len) as nat, |i: int| ' '),
        decreases LABEL_WIDTH - k,
    {
        push_char(&mut line, ' ');
        proof {
            assert(label + Seq::new((k + 1 - len) as nat, |i: int| ' ') =~= (label + Seq::new(
                (k - len) as nat,
                |i: int| ' ',
            )).push(' '));
        }
        k = k + 1;
    }
    proof {
        if len >= LABEL_WIDTH {
            assert(line@ =~= label);
        }
        assert(line@ =~= padded(label, LABEL_WIDTH as int));
    }
    push_char(&mut line, ' ');
    line.append(event.title.as_str());
    if let Some(location) = &event.location {
        if chars_of(location.as_str()).len() > 0 {
            line.append(" @ ");
            line.append(location.as_str());
        }
    }
    assert(line@ =~= agenda_text_of(*event, start_min as int, end_min as int));
    truncate_to_width(line.as_str(), width)
}

/// Relies on `chrono::DateTime::with_timezone` with `chrono::Local`: the local
/// wall-clock hour (0 to 23) and minute (0 to 59) at a UTC date and time.
#[verifier::external_body]
fn local_clock(date: Date, hour: u32, minute: u32) -> (r: (u32, u32))
    requires
        date.valid(),
        hour < 24,
        minute < 60,
    ensures
        r.0 < 24,
        r.1 < 60,
{
    match chrono::NaiveDate::from_ymd_opt(date.year, date.month, date.day)
        .and_then(|d| d.and_hms_opt(hour, minute, 0)) {
        Some(naive) => {
            let local = naive.and_utc().with_timezone(&chrono::Local);
            (local.hour(), local.minute())
        },
        None => (hour, minute),
    }
}

/// The local wall-clock minute of the day at a UTC instant.
fn local_minute_of_day(t: &DateTime) -> (r: u32)
    requires
        t.valid(),
    ensures
        r < 1440,
{
    let (h, m) = local_clock(t.date, t.minute / 60, t.minute % 60);
    h * 60 + m
}

/// `r` is the agenda line of `ev` for local start and end minutes `s` and `e`
/// (uncut where the width is unbounded).
pub open spec fn local_agenda_line(r: Seq<char>, ev: Event, s: int, e: int, width: usize) -> bool {
    0 <= s < 1440 && 0 <= e < 1440 && (width == usize::MAX ==> r == agenda_text_of(ev, s, e))
}

/// The agenda line of `event` in local time, cut to `width`.
pub fn build_agenda_line(event: &Event, width: usize) -> (r: String)
    requires
        event.valid(),
    ensures
        exists|s: int, e: int| #[trigger] local_agenda_line(r@, *event, s, e, width),
{
    let s = local_minute_of_day(&event.start);
    let e = local_minute_of_day(&event.end);
    let r = agenda_line_at(event, s, e, width);
    assert(local_agenda_line(r@, *event, s as int, e as int, width));
    r
}

pub open spec fn weekday_name(w: int) -> Seq<char> {
    if w == 0 {
        "Monday"@
    } else if w == 1 {
        "Tuesday"@
    } else if w == 2 {
        "Wednesday"@
    } else if w == 3 {
        "Thursday"@
    } else if w == 4 {
        "Friday"@
    } else if w == 5 {
        "Saturday"@
    } else {
        "Sunday"@
    }
}

pub open spec fn month_name(m: int) -> Seq<char> {
    if m == 1 {
        "January"@
    } else if m == 2 {
        "February"@
    } else if m == 3 {
        "March"@
    } else if m == 4 {
        "April"@
    } else if m == 5 {
        "May"@
    } else if m == 6 {
        "June"@
    } else if m == 7 {
        "July"@
    } else if m == 8 {
        "August"@
    } else if m == 9 {
        "September"@
    } else if m == 10 {
        "October"@
    } else if m == 11 {
        "November"@
    } else {
        "December"@
    }
}

fn weekday_str(w: u32) -> (r: &'static str)
    ensures
        r@ == weekday_name(w as int),
{
    if w == 0 {
        "Monday"
    } else if w == 1 {
        "Tuesday"
    } else if w == 2 {
        "Wednesday"
    } else if w == 3 {
        "Thursday"
    } else if w == 4 {
        "Friday"
    } else if w == 5 {
        "Saturday"
    } else {
        "Sunday"
    }
}

fn month_str(m: u32) -> (r: &'static str)
    ensures
        r@ == month_name(m as int),
{
    if m == 1 {
        "January"
    } else if m == 2 {
        "February"
    } else if m == 3 {
        "March"
    } else if m == 4 {
        "April"
    } else if m == 5 {
        "May"
    } else if m == 6 {
        "June"
    } else if m == 7 {
        "July"
    } else if m == 8 {
        "August"
    } else if m == 9 {
        "September"
    } else if m == 10 {
        "October"
    } else if m == 11 {
        "November"
    } else {
        "December"
    }
}

/// A number below 10000 in four digits.
pub open spec fn four_digits(n: int) -> Seq<char> {
    seq![digit_char(n / 1000), digit_char(n / 100 % 10), digit_char(n / 10 % 10), digit_char(n % 10)]
}

/// A year as chrono's `%Y` writes it: four digits for 0 to 9999, otherwise a
/// sign and at least four digits.
pub open spec fn year_digits(y: int) -> Seq<char> {
    if 0 <= y <= 9999 {
        four_digits(y)
    } else {
        let a = if y < 0 { -y } else { y };
        seq![if y < 0 { '-' } else { '+' }] + if a < 10000 { four_digits(a) } else { crate::form::decimal(a as nat) }
    }
}

/// A date written out as `Weekday, Month DD, YYYY`.
pub open spec fn long_date(d: Date) -> Seq<char> {
    weekday_name(d.weekday()) + ", "@ + month_name(d.month as int) + seq![' ']
        + seq![digit_char((d.day / 10) as int), digit_char((d.day % 10) as int)] + ", "@
        + year_digits(d.year as int)
}

fn digit(d: u32) -> (c: char)
    requires
        d < 10,
    ensures
        c == digit_char(d as int),
{
    let c = (d + 48) as u8 as char;
    assert(c == digit_char(d as int));
    c
}

fn push_four_digits(s: &mut String, n: u32)
    requires
        n < 10000,
    ensures
        final(s)@ == old(s)@ + four_digits(n as int),
{
    push_char(s, digit(n / 1000));
    push_char(s, digit(n / 100 % 10));
    push_char(s, digit(n / 10 % 10));
    push_char(s, digit(n % 10));
}

/// Writes a date as `Weekday, Month DD, YYYY`.
pub fn format_long_date(d: &Date) -> (r: String)
    requires
        d.valid(),
    ensures
        r@ == long_date(*d),
{
    let mut s = String::from_str(weekday_str(d.weekday_from_monday()));
    s.append(", ");
    s.append(month_str(d.month));
    push_char(&mut s, ' ');
    push_char(&mut s, digit(d.day / 10));
    push_char(&mut s, digit(d.day % 10));
    s.append(", ");
    if 0 <= d.year && d.year <= 9999 {
        push_four_digits(&mut s, d.year as u32);
    } else {
        let a: u32 = if d.year < 0 { (-d.year) as u32 } else { d.year as u32 };
        push_char(&mut s, if d.year < 0 { '-' } else { '+' });
        if a < 10000 {
            push_four_digits(&mut s, a);
        } else {
            let t = crate::form::decimal_string(a as u64);
            s.append(t.as_str());
        }
    }
    assert(s@ =~= long_date(*d));
    s
}

/// The agenda of a day: a heading, a blank line, then one line per event (or
/// a note that there are none), joined by line breaks.
pub fn format_agenda_text(date: &Date, events: &Vec<&Event>) -> (r: String)
    requires
        date.valid(),
        forall|i: int| 0 <= i < events@.len() ==> (#[trigger] events@[i]).valid(),
    ensures
        ({
            let heading = "Agenda – "@ + long_date(*date) + seq!['\n'];
            &&& r@.take(heading.len() as int) == heading
            &&& events@.len() == 0 ==> r@ == heading + seq!['\n'] + "No events scheduled."@
        }),
{
    let ghost heading = "Agenda – "@ + long_date(*date) + seq!['\n'];
    let mut out = String::from_str("Agenda – ");
    let day_text = format_long_date(date);
    out.append(day_text.as_str());
    push_char(&mut out, '\n');
    assert(out@ =~= heading);
    if events.len() == 0 {
        push_char(&mut out, '\n');
        out.append("No events scheduled.");
        assert(out@.take(heading.len() as int) =~= heading);
    } else {
        let mut i: usize = 0;
        while i < events.len()
            invariant
                i <= events@.len(),
                heading.len() <= out@.len(),
                out@.take(heading.len() as int) == heading,
                forall|j: int| 0 <= j < events@.len() ==> (#[trigger] events@[j]).valid(),
            decreases events@.len() - i,
        {
            let ghost before = out@;
            push_char(&mut out, '\n');
            out.append("- ");
            let line = build_agenda_line(events[i], usize::MAX);
            out.append(line.as_str());
            proof {
                assert(out@.take(heading.len() as int) =~= before.take(heading.len() as int));
            }
            i = i + 1;
        }
    }
    out
}

} // verus!
