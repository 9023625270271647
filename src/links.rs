use vstd::prelude::*;
use crate::text::{white_space, is_whitespace, chars_of, string_of};

verus! {

/// Length of `http://` or `https://` where one starts at `p`, else 0.
pub open spec fn scheme_len(s: Seq<char>, p: int) -> int {
    if p + 8 <= s.len() && s.subrange(p, p + 8) == "https://"@ {
        8
    } else if p + 7 <= s.len() && s.subrange(p, p + 7) == "http://"@ {
        7
    } else {
        0
    }
}

/// The first index at or after `from` holding `c`, or the length.
pub open spec fn find_char(s: Seq<char>, from: int, c: char) -> int
    decreases s.len() - from,
{
    if from < 0 || from >= s.len() {
        s.len() as int
    } else if s[from] == c {
        from
    } else {
        find_char(s, from + 1, c)
    }
}

/// The first index at or after `from` holding whitespace or `)`, or the
/// length.
pub open spec fn url_end(s: Seq<char>, from: int) -> int
    decreases s.len() - from,
{
    if from < 0 || from >= s.len() {
        s.len() as int
    } else if white_space(s[from]) || s[from] == ')' {
        from
    } else {
        url_end(s, from + 1)
    }
}

/// The address of a markdown link `[text](http(s)://...)` starting at `i`.
pub open spec fn markdown_at(s: Seq<char>, i: int) -> Option<(int, int)> {
    let j = find_char(s, i + 1, ']');
    let u = j + 2;
    let k = find_char(s, u + scheme_len(s, u), ')');
    if 0 <= i < s.len() && s[i] == '[' && i + 1 < j && j + 1 < s.len() && s[j + 1] == '('
        && scheme_len(s, u) > 0 && u + scheme_len(s, u) < k && k < s.len() {
        Some((u, k))
    } else {
        None
    }
}

/// A bare `http(s)://...` address starting at `i`, up to whitespace or `)`.
pub open spec fn plain_at(s: Seq<char>, i: int) -> Option<(int, int)> {
    let e = url_end(s, i + scheme_len(s, i));
    if 0 <= i < s.len() && scheme_len(s, i) > 0 && i + scheme_len(s, i) < e {
        Some((i, e))
    } else {
        None
    }
}

/// The leftmost markdown link from `i` on.
pub open spec fn first_markdown(s: Seq<char>, i: int) -> Option<(int, int)>
    decreases s.len() - i,
{
    if i < 0 || i >= s.len() {
        None
    } else if markdown_at(s, i) is Some {
        markdown_at(s, i)
    } else {
        first_markdown(s, i + 1)
    }
}

/// The leftmost bare address from `i` on.
pub open spec fn first_plain(s: Seq<char>, i: int) -> Option<(int, int)>
    decreases s.len() - i,
{
    if i < 0 || i >= s.len() {
        None
    } else if plain_at(s, i) is Some {
        plain_at(s, i)
    } else {
        first_plain(s, i + 1)
    }
}

/// The address a line links to: its first markdown link's target, else its
/// first bare address.
pub open spec fn link_in(s: Seq<char>) -> Option<Seq<char>> {
    match first_markdown(s, 0) {
        Some((a, b)) => Some(s.subrange(a, b)),
        None => match first_plain(s, 0) {
            Some((a, b)) => Some(s.subrange(a, b)),
            None => None,
        },
    }
}

fn matches_at(s: &Vec<char>, p: usize, lit: &str) -> (r: bool)
    ensures
        r == (p + lit@.len() <= s@.len() && s@.subrange(p as int, p + lit@.len()) == lit@),
{
    let l = chars_of(lit);
    let n = s.len();
    if p > n || l.len() > n - p {
        return false;
    }
    let mut i: usize = 0;
    while i < l.len()
        invariant
            n == s@.len(),
            l@ == lit@,
            p + l@.len() <= s@.len(),
            i <= l@.len(),
            forall|q: int| 0 <= q < i ==> s@[p + q] == l@[q],
        decreases l@.len() - i,
    {
        if s[p + i] != l[i] {
            proof {
                assert(s@.subrange(p as int, p + l@.len())[i as int] != l@[i as int]);
            }
            return false;
        }
        i = i + 1;
    }
    assert(s@.subrange(p as int, p + l@.len()) =~= l@);
    true
}

fn scheme_length(s: &Vec<char>, p: usize) -> (r: usize)
    ensures
        r == scheme_len(s@, p as int),
{
    proof {
        reveal_strlit("https://");
        reveal_strlit("http://");
    }
    if matches_at(s, p, "https://") {
        8
    } else if matches_at(s, p, "http://") {
        7
    } else {
        0
    }
}

fn find(s: &Vec<char>, from: usize, c: char) -> (r: usize)
    requires
        from <= s@.len(),
    ensures
        r == find_char(s@, from as int, c),
        from <= r <= s@.len(),
{
    let mut k = from;
    while k < s.len() && s[k] != c
        invariant
            from <= k <= s@.len(),
            find_char(s@, k as int, c) == find_char(s@, from as int, c),
        decreases s@.len() - k,
    {
        k = k + 1;
    }
    k
}

fn end_of_url(s: &Vec<char>, from: usize) -> (r: usize)
    requires
        from <= s@.len(),
    ensures
        r == url_end(s@, from as int),
        from <= r <= s@.len(),
{
    let mut k = from;
    while k < s.len() && !is_whitespace(s[k]) && s[k] != ')'
        invariant
            from <= k <= s@.len(),
            url_end(s@, k as int) == url_end(s@, from as int),
        decreases s@.len() - k,
    {
        k = k + 1;
    }
    k
}

fn markdown_link_at(s: &Vec<char>, i: usize) -> (r: Option<(usize, usize)>)
    requires
        i < s@.len(),
    ensures
        match markdown_at(s@, i as int) {
            Some((a, b)) => r == Some((a as usize, b as usize)),
            None => r is None,
        },
{
    let n = s.len();
    if s[i] != '[' {
        return None;
    }
    let j = find(s, i + 1, ']');
    if !(i + 1 < j && j < n - 1 && s[j + 1] == '(') {
        return None;
    }
    let u = j + 2;
    let sl = scheme_length(s, u);
    if sl == 0 || sl > n - u {
        return None;
    }
    let k = find(s, u + sl, ')');
    if u + sl < k && k < s.len() {
        Some((u, k))
    } else {
        None
    }
}

fn plain_link_at(s: &Vec<char>, i: usize) -> (r: Option<(usize, usize)>)
    requires
        i < s@.len(),
    ensures
        match plain_at(s@, i as int) {
            Some((a, b)) => r == Some((a as usize, b as usize)),
            None => r is None,
        },
{
    let n = s.len();
    let sl = scheme_length(s, i);
    if sl == 0 || sl > n - i {
        return None;
    }
    let e = end_of_url(s, i + sl);
    if i + sl < e {
        Some((i, e))
    } else {
        None
    }
}

fn slice_string(s: &Vec<char>, a: usize, b: usize) -> (r: String)
    requires
        a <= b <= s@.len(),
    ensures
        r@ == s@.subrange(a as int, b as int),
{
    let mut out: Vec<char> = Vec::new();
    let mut k = a;
    while k < b
        invariant
            a <= k <= b <= s@.len(),
            out@ == s@.subrange(a as int, k as int),
        decreases b - k,
    {
        out.push(s[k]);
        proof {
            assert(s@.subrange(a as int, k as int).push(s@[k as int]) =~= s@.subrange(a as int, k + 1));
        }
        k = k + 1;
    }
    string_of(&out)
}

/// The address that a line of text links to, if any: the target of its first
/// markdown link, else its first bare `http://` or `https://` address.
pub fn find_link(line: &str) -> (r: Option<String>)
    ensures
        match link_in(line@) {
            Some(u) => r matches Some(t) && t@ == u,
            None => r is None,
        },
{
    let s = chars_of(line);
    let mut i: usize = 0;
    while i < s.len()
        invariant
            s@ == line@,
            i <= s@.len(),
            first_markdown(s@, 0) == first_markdown(s@, i as int),
        decreases s@.len() - i,
    {
        if let Some((a, b)) = markdown_link_at(&s, i) {
            proof {
                let m = markdown_at(s@, i as int)->0;
                assert(0 <= m.0 && m.0 <= m.1 && m.1 <= s@.len()) by {
                    lemma_find_char_bounds(s@, i + 1, ']');
                }
            }
            return Some(slice_string(&s, a, b));
        }
        i = i + 1;
    }
    let mut i: usize = 0;
    while i < s.len()
        invariant
            s@ == line@,
            i <= s@.len(),
            first_markdown(s@, 0) is None,
            first_plain(s@, 0) == first_plain(s@, i as int),
        decreases s@.len() - i,
    {
        if let Some((a, b)) = plain_link_at(&s, i) {
            proof {
                lemma_url_end_bounds(s@, i + scheme_len(s@, i as int));
            }
            return Some(slice_string(&s, a, b));
        }
        i = i + 1;
    }
    None
}

proof fn lemma_find_char_bounds(s: Seq<char>, from: int, c: char)
    ensures
        from >= 0 ==> (from <= find_char(s, from, c) || find_char(s, from, c) == s.len()),
        find_char(s, from, c) <= s.len(),
        0 <= find_char(s, from, c),
    decreases s.len() - from,
{
    if 0 <= from < s.len() && s[from] != c {
        lemma_find_char_bounds(s, from + 1, c);
    }
}

proof fn lemma_url_end_bounds(s: Seq<char>, from: int)
    ensures
        url_end(s, from) <= s.len(),
        0 <= url_end(s, from),
    decreases s.len() - from,
{
    if 0 <= from < s.len() && !(white_space(s[from]) || s[from] == ')') {
        lemma_url_end_bounds(s, from + 1);
    }
}

} // verus!
