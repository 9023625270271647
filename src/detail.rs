use vstd::prelude::*;
use vstd::string::StringExecFns;
use crate::agenda::{format_long_date, long_date};
use crate::command::views;
use crate::event::Event;
use crate::form::{clock_string, clock_text, decimal, decimal_string};
use crate::text::{chars_of, string_of};
use crate::session::AppState;

verus! {

pub const MOTION_HELP: &'static str = "hjkl = Move | wbe = Word | 0^$ = Line | gG = Top/Bottom";

pub const ACTION_HELP: &'static str = "o = Open URL | y = Yank line | B = Browser | E = Edit | q/Esc = Close";

/// `n` in decimal, with a minus sign when negative.
pub open spec fn signed_decimal(n: int) -> Seq<char> {
    if n < 0 { seq!['-'] + decimal((-n) as nat) } else { decimal(n as nat) }
}

/// A line without the carriage return that ends it, if any.
pub open spec fn strip_cr(line: Seq<char>) -> Seq<char> {
    if line.len() > 0 && line.last() == '\r' { line.drop_last() } else { line }
}

/// The lines of `s` from index `i` on, where `cur` is the part of a line
/// already read: split at each `\n` (dropping a `\r` just before it), with no
/// empty line after a final `\n`.
pub open spec fn lines_from(s: Seq<char>, i: int, cur: Seq<char>) -> Seq<Seq<char>>
    decreases s.len() - i,
{
    if i < 0 || i >= s.len() {
        if cur.len() > 0 { seq![cur] } else { Seq::empty() }
    } else if s[i] == '\n' {
        seq![strip_cr(cur)] + lines_from(s, i + 1, Seq::empty())
    } else {
        lines_from(s, i + 1, cur.push(s[i]))
    }
}

/// The lines of a text, as `str::lines` gives them.
pub open spec fn text_lines(s: Seq<char>) -> Seq<Seq<char>> {
    lines_from(s, 0, Seq::empty())
}

/// Minutes from an event's start to its end.
pub open spec fn span_minutes(e: Event) -> int {
    e.end.minutes() - e.start.minutes()
}

/// Whole days in `m` minutes, rounded toward zero.
pub open spec fn whole_days(m: int) -> int {
    if m >= 0 { m / 1440 } else { -((-m) / 1440) }
}

pub open spec fn date_line(e: Event) -> Seq<char> {
    if e.all_day {
        "📅 "@ + long_date(e.start.date)
    } else {
        "📅 "@ + long_date(e.start.date) + " at "@ + clock_text(
            (e.start.minute / 60) as int,
            (e.start.minute % 60) as int,
        )
    }
}

pub open spec fn duration_lines(e: Event) -> Seq<Seq<char>> {
    let m = span_minutes(e);
    if e.all_day {
        if whole_days(m) > 1 {
            seq!["⏱  "@ + decimal(whole_days(m) as nat) + " days"@]
        } else {
            Seq::empty()
        }
    } else if m >= 60 {
        seq![
            "⏱  "@ + decimal((m / 60) as nat) + " hour"@ + (if m / 60 > 1 { "s"@ } else { Seq::empty() })
                + " "@ + decimal((m % 60) as nat) + " min"@,
        ]
    } else {
        seq!["⏱  "@ + signed_decimal(m) + " minutes"@]
    }
}

pub open spec fn location_lines(e: Event) -> Seq<Seq<char>> {
    match e.location {
        Some(l) => seq![Seq::empty(), "📍 Location:"@, "   "@ + l@],
        None => Seq::empty(),
    }
}

pub open spec fn description_lines(e: Event) -> Seq<Seq<char>> {
    match e.description {
        Some(d) => seq![Seq::empty(), "📝 Description:"@, Seq::empty()] + text_lines(crate::html::stripped(d@)),
        None => Seq::empty(),
    }
}

pub open spec fn attendee_lines(e: Event) -> Seq<Seq<char>> {
    if e.attendees@.len() > 0 {
        seq![Seq::empty(), "👥 Attendees:"@] + e.attendees@.map_values(|a: String| "   • "@ + a@)
    } else {
        Seq::empty()
    }
}

/// The text of an event's detail panel, line by line.
pub open spec fn detail_lines(e: Event) -> Seq<Seq<char>> {
    seq![e.title@, Seq::empty(), date_line(e)] + duration_lines(e) + location_lines(e)
        + description_lines(e) + attendee_lines(e) + seq![Seq::empty(), MOTION_HELP@, ACTION_HELP@]
}

fn push_line(out: &mut Vec<String>, line: String)
    ensures
        views_of(final(out)@) == views_of(old(out)@).push(line@),
{
    let ghost before = out@;
    out.push(line);
    assert(views_of(out@) =~= views_of(before).push(line@));
}

/// The characters of each string.
pub open spec fn views_of(v: Seq<String>) -> Seq<Seq<char>> {
    v.map_values(|s: String| s@)
}

fn text_with(prefix: &str, rest: &String) -> (r: String)
    ensures
        r@ == prefix@ + rest@,
{
    let mut s = String::from_str(prefix);
    s.append(rest.as_str());
    s
}

fn push_text_lines(out: &mut Vec<String>, text: &String)
    ensures
        views_of(final(out)@) == views_of(old(out)@) + text_lines(text@),
{
    let cs = chars_of(text.as_str());
    let mut cur: Vec<char> = Vec::new();
    let mut i: usize = 0;
    let ghost start = views_of(out@);
    while i < cs.len()
        invariant
            cs@ == text@,
            i <= cs@.len(),
            views_of(out@) + lines_from(cs@, i as int, cur@) == start + text_lines(cs@),
        decreases cs@.len() - i,
    {
        let c = cs[i];
        if c == '\n' {
            let ghost before = views_of(out@);
            let n = cur.len();
            let line = if n > 0 && cur[n - 1] == '\r' {
                let mut t = cur;
                t.pop();
                t
            } else {
                cur
            };
            proof {
                assert(line@ == strip_cr(cur@)) by {
                    if n > 0 && cur@[n - 1] == '\r' {
                        assert(cur@.drop_last() =~= line@);
                    }
                }
            }
            push_line(out, string_of(&line));
            proof {
                assert(before + seq![strip_cr(cur@)] + lines_from(cs@, i + 1, Seq::empty()) =~= before + (
                seq![strip_cr(cur@)] + lines_from(cs@, i + 1, Seq::empty())));
            }
            cur = Vec::new();
            proof {
                assert(cur@ =~= Seq::<char>::empty());
            }
        } else {
            cur.push(c);
        }
        i = i + 1;
    }
    if cur.len() > 0 {
        let ghost before = views_of(out@);
        push_line(out, string_of(&cur));
        assert(views_of(out@) =~= before + seq![cur@]);
    } else {
        assert(views_of(out@) + Seq::<Seq<char>>::empty() =~= views_of(out@));
    }
}

fn signed_decimal_string(n: i64) -> (r: String)
    requires
        n > i64::MIN,
    ensures
        r@ == signed_decimal(n as int),
{
    if n < 0 {
        let mut s = String::from_str("-");
        let d = decimal_string((-n) as u64);
        s.append(d.as_str());
        proof {
            reveal_strlit("-");
        }
        s
    } else {
        decimal_string(n as u64)
    }
}

fn push_duration_lines(out: &mut Vec<String>, event: &Event)
    requires
        event.valid(),
    ensures
        views_of(final(out)@) == views_of(old(out)@) + duration_lines(*event),
{
    let ghost head = views_of(out@);
    let m = event.duration_minutes();
    proof {
        crate::event::lemma_day_number_bounds(event.start.date);
        crate::event::lemma_day_number_bounds(event.end.date);
    }
    if event.all_day {
        let days = if m >= 0 {
            m / 1440
        } else {
            -((-m) / 1440)
        };
        if days > 1 {
            let mut line = text_with("⏱  ", &decimal_string(days as u64));
            line.append(" days");
            push_line(out, line);
        }
    } else if m >= 60 {
        let hours = m / 60;
        let mut line = text_with("⏱  ", &decimal_string(hours as u64));
        line.append(" hour");
        if hours > 1 {
            line.append("s");
        }
        line.append(" ");
        let rest = decimal_string((m % 60) as u64);
        line.append(rest.as_str());
        line.append(" min");
        push_line(out, line);
    } else {
        let mut line = text_with("⏱  ", &signed_decimal_string(m));
        line.append(" minutes");
        push_line(out, line);
    }
    assert(views_of(out@) =~= head + duration_lines(*event));
}

fn push_location_lines(out: &mut Vec<String>, event: &Event)
    ensures
        views_of(final(out)@) == views_of(old(out)@) + location_lines(*event),
{
    let ghost head = views_of(out@);
    if let Some(location) = &event.location {
        push_line(out, String::new());
        push_line(out, String::from_str("📍 Location:"));
        push_line(out, text_with("   ", location));
    }
    assert(views_of(out@) =~= head + location_lines(*event));
}

fn push_description_lines(out: &mut Vec<String>, event: &Event)
    ensures
        views_of(final(out)@) == views_of(old(out)@) + description_lines(*event),
{
    let ghost head = views_of(out@);
    if let Some(description) = &event.description {
        push_line(out, String::new());
        push_line(out, String::from_str("📝 Description:"));
        push_line(out, String::new());
        let ghost mid = views_of(out@);
        assert(mid =~= head + seq![Seq::empty(), "📝 Description:"@, Seq::empty()]);
        let plain = crate::html::strip_html(description.as_str());
        push_text_lines(out, &plain);
    }
    assert(views_of(out@) =~= head + description_lines(*event));
}

fn push_attendee_lines(out: &mut Vec<String>, event: &Event)
    ensures
        views_of(final(out)@) == views_of(old(out)@) + attendee_lines(*event),
{
    let ghost head = views_of(out@);
    if event.attendees.len() > 0 {
        push_line(out, String::new());
        push_line(out, String::from_str("👥 Attendees:"));
        let ghost mid = views_of(out@);
        let mut k: usize = 0;
        while k < event.attendees.len()
            invariant
                k <= event.attendees@.len(),
                views_of(out@) == mid + event.attendees@.take(k as int).map_values(|a: String| "   • "@ + a@),
            decreases event.attendees@.len() - k,
        {
            push_line(out, text_with("   • ", &event.attendees[k]));
            assert(event.attendees@.take(k + 1).map_values(|a: String| "   • "@ + a@) =~= event.attendees@.take(
                k as int,
            ).map_values(|a: String| "   • "@ + a@).push("   • "@ + event.attendees@[k as int]@));
            k = k + 1;
        }
        assert(event.attendees@.take(k as int) =~= event.attendees@);
    }
    assert(views_of(out@) =~= head + attendee_lines(*event));
}

/// The text of an event's detail panel: title, date, duration, location,
/// description lines, attendees and the key help.
pub fn build_event_detail_lines(event: &Event) -> (r: Vec<String>)
    requires
        event.valid(),
    ensures
        views_of(r@) == detail_lines(*event),
{
    let mut out: Vec<String> = Vec::new();
    push_line(&mut out, event.title.clone());
    push_line(&mut out, String::new());
    let day = format_long_date(&event.start.date);
    let mut date_text = text_with("📅 ", &day);
    if !event.all_day {
        date_text.append(" at ");
        let clock = clock_string(event.start.minute / 60, event.start.minute % 60);
        date_text.append(clock.as_str());
    }
    push_line(&mut out, date_text);
    assert(views_of(out@) =~= seq![event.title@, Seq::empty(), date_line(*event)]);
    let ghost a = views_of(out@);
    push_duration_lines(&mut out, event);
    let ghost b = views_of(out@);
    push_location_lines(&mut out, event);
    let ghost c = views_of(out@);
    push_description_lines(&mut out, event);
    let ghost d = views_of(out@);
    push_attendee_lines(&mut out, event);
    let ghost e = views_of(out@);
    push_line(&mut out, String::new());
    push_line(&mut out, String::from_str(MOTION_HELP));
    push_line(&mut out, String::from_str(ACTION_HELP));
    assert(views_of(out@) =~= e + seq![Seq::empty(), MOTION_HELP@, ACTION_HELP@]);
    assert(views_of(out@) =~= detail_lines(*event));
    out
}

/// Brings the detail panel's text in line with the event it shows: the
/// event's detail lines while one is open, no lines where no event is open or
/// the open one is gone. Nothing else changes.
pub fn refresh_detail_view_lines(state: &mut AppState)
    requires
        old(state).wf(),
    ensures
        final(state).wf(),
        *final(state) == (AppState { detail_view_line_text: final(state).detail_view_line_text, ..*old(state) }),
        match old(state).detail_view_event_id {
            Some(id) => {
                &&& forall|i: int|
                    0 <= i < old(state).events@.len() && (#[trigger] old(state).events@[i]).id@ == id@
                        ==> views_of(final(state).detail_view_line_text@) == detail_lines(old(state).events@[i])
                &&& (forall|i: int|
                    0 <= i < old(state).events@.len() ==> (#[trigger] old(state).events@[i]).id@ != id@)
                    ==> final(state).detail_view_line_text@.len() == 0
            },
            None => final(state).detail_view_line_text@.len() == 0,
        },
{
    let lines = match &state.detail_view_event_id {
        Some(id) => match state.find_event(id) {
            Some(i) => {
                assert(state.events@[i as int].valid());
                build_event_detail_lines(&state.events[i])
            },
            None => Vec::new(),
        },
        None => Vec::new(),
    };
    state.detail_view_line_text = lines;
}

} // verus!
