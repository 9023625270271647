use vstd::prelude::*;
use vstd::string::StringExecFns;
use crate::text::{white_space, is_whitespace, chars_of, string_of};

verus! {

/// Anchor tags: the address and the text between `<a ...>` and `</a>`.
pub const ANCHOR_PATTERN: &'static str = r#"(?is)<a\s+[^>]*?href=["']([^"']+)["'][^>]*>(.*?)</a>"#;

/// `s` without its leading whitespace.
pub open spec fn trim_start(s: Seq<char>) -> Seq<char>
    decreases s.len(),
{
    if s.len() > 0 && white_space(s[0]) { trim_start(s.drop_first()) } else { s }
}

/// `s` without its trailing whitespace.
pub open spec fn trim_end(s: Seq<char>) -> Seq<char>
    decreases s.len(),
{
    if s.len() > 0 && white_space(s.last()) { trim_end(s.drop_last()) } else { s }
}

pub open spec fn trimmed(s: Seq<char>) -> Seq<char> {
    trim_end(trim_start(s))
}

pub open spec fn ascii_lower(c: char) -> char {
    if 'A' <= c <= 'Z' { ((c as u32) + 32) as char } else { c }
}

/// Equal but for the case of ASCII letters.
pub open spec fn same_ignoring_ascii_case(a: Seq<char>, b: Seq<char>) -> bool {
    a.len() == b.len() && forall|i: int| 0 <= i < a.len() ==> ascii_lower(#[trigger] a[i]) == ascii_lower(b[i])
}

/// What an anchor with address `url` and text `text` reads as in plain text:
/// the text and then the address in parentheses, or the address alone where
/// the text is empty or is the address.
pub open spec fn anchor_spec(url: Seq<char>, text: Seq<char>) -> Seq<char> {
    let u = trimmed(url);
    let t = trimmed(text);
    if t.len() == 0 || same_ignoring_ascii_case(u, t) { u } else { t + " ("@ + u + ")"@ }
}

fn trim_chars(s: &Vec<char>) -> (r: Vec<char>)
    ensures
        r@ == trimmed(s@),
{
    let mut a: usize = 0;
    assert(s@.subrange(0, s@.len() as int) =~= s@);
    while a < s.len() && is_whitespace(s[a])
        invariant
            a <= s@.len(),
            trim_start(s@.subrange(a as int, s@.len() as int)) == trim_start(s@),
        decreases s@.len() - a,
    {
        assert(s@.subrange(a as int, s@.len() as int).drop_first() =~= s@.subrange(a + 1, s@.len() as int));
        a = a + 1;
    }
    let ghost mid = s@.subrange(a as int, s@.len() as int);
    assert(trim_start(mid) == mid);
    let mut b: usize = s.len();
    while b > a && is_whitespace(s[b - 1])
        invariant
            a <= b <= s@.len(),
            mid == s@.subrange(a as int, s@.len() as int),
            trim_end(s@.subrange(a as int, b as int)) == trim_end(mid),
        decreases b,
    {
        assert(s@.subrange(a as int, b as int).drop_last() =~= s@.subrange(a as int, b - 1));
        b = b - 1;
    }
    let mut out: Vec<char> = Vec::new();
    let mut k = a;
    while k < b
        invariant
            a <= k <= b <= s@.len(),
            out@ == s@.subrange(a as int, k as int),
        decreases b - k,
    {
        out.push(s[k]);
        assert(s@.subrange(a as int, k as int).push(s@[k as int]) =~= s@.subrange(a as int, k + 1));
        k = k + 1;
    }
    assert(trim_end(out@) == out@);
    out
}

fn lower(c: char) -> (r: char)
    ensures
        r == ascii_lower(c),
{
    if 'A' <= c && c <= 'Z' {
        ((c as u32) + 32) as u8 as char
    } else {
        c
    }
}

fn same_case_free(a: &Vec<char>, b: &Vec<char>) -> (r: bool)
    ensures
        r == same_ignoring_ascii_case(a@, b@),
{
    if a.len() != b.len() {
        return false;
    }
    let mut i: usize = 0;
    while i < a.len()
        invariant
            a@.len() == b@.len(),
            i <= a@.len(),
            forall|j: int| 0 <= j < i ==> ascii_lower(#[trigger] a@[j]) == ascii_lower(b@[j]),
        decreases a@.len() - i,
    {
        if lower(a[i]) != lower(b[i]) {
            return false;
        }
        i = i + 1;
    }
    true
}

/// The plain-text reading of an anchor with address `url` and text `text`.
pub fn anchor_text(url: &str, text: &str) -> (r: String)
    ensures
        r@ == anchor_spec(url@, text@),
{
    let u = trim_chars(&chars_of(url));
    let t = trim_chars(&chars_of(text));
    if t.len() == 0 || same_case_free(&u, &t) {
        string_of(&u)
    } else {
        let mut s = string_of(&t);
        s.append(" (");
        let us = string_of(&u);
        s.append(us.as_str());
        s.append(")");
        s
    }
}

/// What replacing every match of `ANCHOR_PATTERN` in `html` by `anchor_text`
/// of its address and text gives.
pub uninterp spec fn anchors_expanded(html: Seq<char>) -> Seq<char>;

/// Relies on `regex::Regex::replace_all` with `ANCHOR_PATTERN`: each match
/// replaced by what the closure returns; the result depends on the text alone.
#[verifier::external_body]
fn expand_anchor_tags(html: &str) -> (r: String)
    ensures
        r@ == anchors_expanded(html@),
{
    match regex::Regex::new(ANCHOR_PATTERN) {
        Ok(re) => re
            .replace_all(html, |caps: &regex::Captures| {
                anchor_text(caps.get(1).map_or("", |m| m.as_str()), caps.get(2).map_or("", |m| m.as_str()))
            })
            .into_owned(),
        Err(_) => html.to_string(),
    }
}

/// What `html2text::from_read(html, 1000)` gives: the plain text, or nothing
/// where it fails.
pub uninterp spec fn html_text_of(html: Seq<char>) -> Option<Seq<char>>;

/// Relies on `html2text::from_read` with a width of 1000 columns: the text
/// rendering of the HTML; the result depends on the HTML alone.
#[verifier::external_body]
fn html_to_text(html: &str) -> (r: Option<String>)
    ensures
        match r {
            Some(t) => html_text_of(html@) == Some(t@),
            None => html_text_of(html@) is None,
        },
{
    html2text::from_read(html.as_bytes(), 1000).ok()
}

/// The plain text of an HTML description, anchors written with their address.
pub open spec fn stripped(html: Seq<char>) -> Seq<char> {
    let expanded = anchors_expanded(html);
    match html_text_of(expanded) {
        Some(t) => t,
        None => expanded,
    }
}

/// Turns an HTML description into plain text, keeping link addresses; where
/// the rendering fails, the anchor-expanded text stands.
pub fn strip_html(html: &str) -> (r: String)
    ensures
        r@ == stripped(html@),
{
    let expanded = expand_anchor_tags(html);
    match html_to_text(expanded.as_str()) {
        Some(t) => t,
        None => expanded,
    }
}

} // verus!
