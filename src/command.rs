use vstd::prelude::*;
use vstd::string::StringExecFns;
use chrono::Datelike;
use crate::date::Date;
use crate::navigation::first_non_space;
use crate::text::{white_space, is_whitespace, chars_of, string_of, push_char};

verus! {

/// A parsed colon-command.
#[derive(Debug, PartialEq)]
pub enum Command {
    Quit,
    Sync,
    Goto(Date),
    NewEvent(Option<String>),
    SwitchCalendar(String),
    Theme(String),
    Help,
    Error(String),
}

/// A command with its texts as character sequences.
pub enum CommandModel {
    Quit,
    Sync,
    Goto(Date),
    NewEvent(Option<Seq<char>>),
    SwitchCalendar(Seq<char>),
    Theme(Seq<char>),
    Help,
    Error(Seq<char>),
}

impl Command {
    pub open spec fn model(&self) -> CommandModel {
        match self {
            Command::Quit => CommandModel::Quit,
            Command::Sync => CommandModel::Sync,
            Command::Goto(d) => CommandModel::Goto(*d),
            Command::NewEvent(t) => CommandModel::NewEvent(
                match t {
                    Some(s) => Some(s@),
                    None => None,
                },
            ),
            Command::SwitchCalendar(s) => CommandModel::SwitchCalendar(s@),
            Command::Theme(s) => CommandModel::Theme(s@),
            Command::Help => CommandModel::Help,
            Command::Error(s) => CommandModel::Error(s@),
        }
    }
}

/// What `chrono::NaiveDate::parse_from_str(s, "%Y-%m-%d")` yields for `s`, as
/// year, month and day.
pub uninterp spec fn iso_date_of(s: Seq<char>) -> Option<(int, int, int)>;

/// Relies on `chrono::NaiveDate::parse_from_str` with the format `%Y-%m-%d`:
/// the outcome depends on the text alone, and a parsed `NaiveDate` is a valid
/// calendar date within chrono's years, which are the years of `Date`.
#[verifier::external_body]
fn parse_iso_date(s: &str) -> (r: Option<Date>)
    ensures
        r is None <==> iso_date_of(s@) is None,
        r matches Some(d) ==> d.valid() && iso_date_of(s@) == Some(
            (d.year as int, d.month as int, d.day as int),
        ),
{
    match chrono::NaiveDate::parse_from_str(s, "%Y-%m-%d") {
        Ok(d) => Some(Date { year: d.year(), month: d.month(), day: d.day() }),
        Err(_) => None,
    }
}

pub open spec fn flush(cur: Seq<char>) -> Seq<Seq<char>> {
    if cur.len() > 0 { seq![cur] } else { Seq::empty() }
}

/// The whitespace-separated words of `s` from index `i` on, where `cur` is the
/// part of a word already read.
pub open spec fn words_from(s: Seq<char>, i: int, cur: Seq<char>) -> Seq<Seq<char>>
    decreases s.len() - i,
{
    if i >= s.len() || i < 0 {
        flush(cur)
    } else if white_space(s[i]) {
        flush(cur) + words_from(s, i + 1, Seq::empty())
    } else {
        words_from(s, i + 1, cur.push(s[i]))
    }
}

/// The whitespace-separated words of `s`.
pub open spec fn words(s: Seq<char>) -> Seq<Seq<char>> {
    words_from(s, 0, Seq::empty())
}

/// Words joined by single spaces.
pub open spec fn join_words(ws: Seq<Seq<char>>) -> Seq<char>
    decreases ws.len(),
{
    if ws.len() == 0 {
        Seq::empty()
    } else if ws.len() == 1 {
        ws[0]
    } else {
        join_words(ws.drop_last()) + seq![' '] + ws.last()
    }
}

/// The command that a keyword and its arguments stand for.
pub open spec fn command_of_words(parts: Seq<Seq<char>>) -> CommandModel {
    if parts.len() == 0 {
        CommandModel::Error("Empty command"@)
    } else {
        let w = parts[0];
        if w == "q"@ || w == "quit"@ {
            CommandModel::Quit
        } else if w == "w"@ || w == "write"@ {
            CommandModel::Sync
        } else if w == "help"@ {
            CommandModel::Help
        } else if w == "goto"@ {
            if parts.len() < 2 {
                CommandModel::Error("goto requires a date argument"@)
            } else {
                match iso_date_of(parts[1]) {
                    Some((y, m, d)) => CommandModel::Goto(
                        Date { year: y as i32, month: m as u32, day: d as u32 },
                    ),
                    None => CommandModel::Error("Invalid date format: "@ + parts[1]),
                }
            }
        } else if w == "new"@ {
            if parts.len() < 2 {
                CommandModel::NewEvent(None)
            } else {
                CommandModel::NewEvent(Some(join_words(parts.drop_first())))
            }
        } else if w == "cal"@ || w == "calendar"@ {
            if parts.len() < 2 {
                CommandModel::Error("cal requires a calendar name"@)
            } else {
                CommandModel::SwitchCalendar(parts[1])
            }
        } else if w == "theme"@ {
            if parts.len() < 2 {
                CommandModel::Error("theme requires a theme name"@)
            } else {
                CommandModel::Theme(parts[1])
            }
        } else {
            CommandModel::Error("Unknown command: "@ + w)
        }
    }
}

/// The command that `input` stands for: after leading whitespace a `:`, then
/// whitespace-separated words.
pub open spec fn command_spec(input: Seq<char>) -> CommandModel {
    match first_non_space(input) {
        Some(p) if input[p] == ':' => command_of_words(
            words(input.subrange(p + 1, input.len() as int)),
        ),
        _ => CommandModel::Error("Commands must start with ':'"@),
    }
}

pub open spec fn views(ws: Seq<Vec<char>>) -> Seq<Seq<char>> {
    ws.map_values(|w: Vec<char>| w@)
}

/// The whitespace-separated words of `s[from..]`.
fn split_words(s: &Vec<char>, from: usize) -> (r: Vec<Vec<char>>)
    requires
        from <= s@.len(),
    ensures
        views(r@) == words(s@.subrange(from as int, s@.len() as int)),
{
    let ghost t = s@.subrange(from as int, s@.len() as int);
    let mut out: Vec<Vec<char>> = Vec::new();
    let mut cur: Vec<char> = Vec::new();
    let mut i = from;
    while i < s.len()
        invariant
            from <= i <= s@.len(),
            t == s@.subrange(from as int, s@.len() as int),
            views(out@) + words_from(t, i - from, cur@) == words(t),
        decreases s@.len() - i,
    {
        let c = s[i];
        assert(t[i - from] == c);
        if is_whitespace(c) {
            if cur.len() > 0 {
                let ghost before = views(out@);
                out.push(cur);
                proof {
                    assert(views(out@) =~= before + flush(cur@));
                    assert(before + flush(cur@) + words_from(t, i + 1 - from, Seq::empty()) =~= before
                        + (flush(cur@) + words_from(t, i + 1 - from, Seq::empty())));
                }
                cur = Vec::new();
            } else {
                proof {
                    assert(flush(cur@) =~= Seq::<Seq<char>>::empty());
                    assert(flush(cur@) + words_from(t, i + 1 - from, Seq::empty()) =~= words_from(
                        t,
                        i + 1 - from,
                        Seq::empty(),
                    ));
                    assert(cur@ =~= Seq::<char>::empty());
                }
            }
        } else {
            cur.push(c);
        }
        i = i + 1;
    }
    if cur.len() > 0 {
        let ghost before = views(out@);
        out.push(cur);
        proof {
            assert(views(out@) =~= before + flush(cur@));
        }
    } else {
        proof {
            assert(views(out@) + flush(cur@) =~= views(out@));
        }
    }
    out
}

/// Whether `w` holds exactly the characters of `lit`.
fn word_is(w: &Vec<char>, lit: &str) -> (r: bool)
    ensures
        r == (w@ == lit@),
{
    let l = chars_of(lit);
    if w.len() != l.len() {
        return false;
    }
    let mut i: usize = 0;
    while i < w.len()
        invariant
            w@.len() == l@.len(),
            l@ == lit@,
            i <= w@.len(),
            forall|j: int| 0 <= j < i ==> w@[j] == l@[j],
        decreases w@.len() - i,
    {
        if w[i] != l[i] {
            return false;
        }
        i = i + 1;
    }
    assert(w@ =~= l@);
    true
}

fn join_with_spaces(ws: &Vec<Vec<char>>, from: usize) -> (r: String)
    requires
        from < ws@.len(),
    ensures
        r@ == join_words(views(ws@).subrange(from as int, ws@.len() as int)),
{
    let n = ws.len();
    let mut out = string_of(&ws[from]);
    let mut i = from + 1;
    proof {
        assert(views(ws@).subrange(from as int, i as int) =~= seq![ws@[from as int]@]);
    }
    while i < ws.len()
        invariant
            from < i <= ws@.len(),
            out@ == join_words(views(ws@).subrange(from as int, i as int)),
        decreases ws@.len() - i,
    {
        push_char(&mut out, ' ');
        let word = string_of(&ws[i]);
        out.append(word.as_str());
        proof {
            let pre = views(ws@).subrange(from as int, i as int);
            let nxt = views(ws@).subrange(from as int, i + 1);
            assert(nxt.drop_last() =~= pre);
            assert(nxt.last() == ws@[i as int]@);
            assert(out@ =~= join_words(pre) + seq![' '] + ws@[i as int]@);
        }
        i = i + 1;
    }
    out
}

fn error_with(prefix: &str, word: &Vec<char>) -> (r: Command)
    ensures
        r.model() == CommandModel::Error(prefix@ + word@),
{
    let mut s = String::from_str(prefix);
    let w = string_of(word);
    s.append(w.as_str());
    Command::Error(s)
}

fn error_of(msg: &str) -> (r: Command)
    ensures
        r.model() == CommandModel::Error(msg@),
{
    Command::Error(String::from_str(msg))
}

/// Parses a colon-command: a `:`, a keyword and its arguments, separated by
/// whitespace.
pub fn parse_command(input: &str) -> (r: Command)
    ensures
        r.model() == command_spec(input@),
        r matches Command::Goto(d) ==> d.valid(),
{
    let cs = chars_of(input);
    let p = match crate::navigation::first_non_space_of(&cs) {
        Some(p) => p,
        None => {
            return error_of("Commands must start with ':'");
        },
    };
    let n = cs.len();
    if cs[p] != ':' {
        return error_of("Commands must start with ':'");
    }
    let parts = split_words(&cs, p + 1);
    command_from_words(&parts)
}

#[verifier::rlimit(40)]
fn command_from_words(parts: &Vec<Vec<char>>) -> (r: Command)
    ensures
        r.model() == command_of_words(views(parts@)),
        r matches Command::Goto(d) ==> d.valid(),
{
    proof {
        assert(views(parts@).len() == parts@.len());
    }
    if parts.len() == 0 {
        return error_of("Empty command");
    }
    let w = &parts[0];
    assert(views(parts@)[0] == w@);
    if word_is(w, "q") || word_is(w, "quit") {
        Command::Quit
    } else if word_is(w, "w") || word_is(w, "write") {
        Command::Sync
    } else if word_is(w, "help") {
        Command::Help
    } else if word_is(w, "goto") {
        if parts.len() < 2 {
            error_of("goto requires a date argument")
        } else {
            let arg = string_of(&parts[1]);
            assert(views(parts@)[1] == parts@[1]@);
            match parse_iso_date(arg.as_str()) {
                Some(d) => Command::Goto(d),
                None => error_with("Invalid date format: ", &parts[1]),
            }
        }
    } else if word_is(w, "new") {
        if parts.len() < 2 {
            Command::NewEvent(None)
        } else {
            let title = join_with_spaces(parts, 1);
            proof {
                assert(views(parts@).subrange(1, parts@.len() as int) =~= views(parts@).drop_first());
            }
            Command::NewEvent(Some(title))
        }
    } else if word_is(w, "cal") || word_is(w, "calendar") {
        if parts.len() < 2 {
            error_of("cal requires a calendar name")
        } else {
            assert(views(parts@)[1] == parts@[1]@);
            Command::SwitchCalendar(string_of(&parts[1]))
        }
    } else if word_is(w, "theme") {
        if parts.len() < 2 {
            error_of("theme requires a theme name")
        } else {
            assert(views(parts@)[1] == parts@[1]@);
            Command::Theme(string_of(&parts[1]))
        }
    } else {
        error_with("Unknown command: ", w)
    }
}

} // verus!
