use vstd::prelude::*;
use crate::text::{white_space, alphanumeric, is_whitespace, is_alphanumeric, chars_of};

verus! {

/// Character classes of word motions.
pub const CLASS_SPACE: u8 = 0;
pub const CLASS_WORD: u8 = 1;
pub const CLASS_PUNCT: u8 = 2;

pub open spec fn word_char(c: char) -> bool {
    alphanumeric(c) || c == '_'
}

/// Whitespace, word characters and other punctuation: three disjoint classes.
pub open spec fn class_of(c: char) -> u8 {
    if white_space(c) {
        CLASS_SPACE
    } else if word_char(c) {
        CLASS_WORD
    } else {
        CLASS_PUNCT
    }
}

/// The first index at or after `pos` whose character is not of class `k`.
pub open spec fn run_end(s: Seq<char>, pos: int, k: u8) -> int
    decreases s.len() - pos,
{
    if 0 <= pos < s.len() && class_of(s[pos]) == k {
        run_end(s, pos + 1, k)
    } else {
        pos
    }
}

/// The first index of the run of class `k` that ends at `pos` (inclusive).
pub open spec fn run_start(s: Seq<char>, pos: int, k: u8) -> int
    decreases pos,
{
    if 0 < pos < s.len() && class_of(s[pos - 1]) == k {
        run_start(s, pos - 1, k)
    } else {
        pos
    }
}

/// Going back from `pos`, the last index that is not whitespace, or 0.
pub open spec fn back_over_space(s: Seq<char>, pos: int) -> int
    decreases pos,
{
    if 0 < pos < s.len() && white_space(s[pos]) {
        back_over_space(s, pos - 1)
    } else {
        pos
    }
}

/// Index of the last character of a line (0 for an empty line).
pub open spec fn last_index(s: Seq<char>) -> int {
    if s.len() == 0 { 0 } else { s.len() - 1 }
}

/// The first index holding a character that is not whitespace.
pub open spec fn first_non_space(s: Seq<char>) -> Option<int> {
    if exists|i: int| 0 <= i < s.len() && !white_space(s[i]) {
        Some(
            choose|i: int|
                0 <= i < s.len() && !white_space(s[i]) && forall|j: int|
                    0 <= j < i ==> white_space(#[trigger] s[j]),
        )
    } else {
        None
    }
}

/// Within one line: the start of the next word after column `col`.
pub open spec fn line_next_word(s: Seq<char>, col: int) -> Option<int> {
    if s.len() == 0 {
        None
    } else {
        let pos = if col < s.len() - 1 { col } else { s.len() - 1 };
        let past_run = run_end(s, pos, class_of(s[pos]));
        let next = run_end(s, past_run, CLASS_SPACE);
        if next < s.len() { Some(next) } else { None }
    }
}

/// Within one line: the end of the word that follows column `col`.
pub open spec fn line_word_end(s: Seq<char>, col: int) -> Option<int> {
    let start = run_end(s, col + 1, CLASS_SPACE);
    if start >= s.len() {
        None
    } else {
        Some(run_end(s, start, class_of(s[start])) - 1)
    }
}

/// Within one line: the start of the word before column `col`.
pub open spec fn line_prev_word(s: Seq<char>, col: int) -> Option<int> {
    let pos = if col < s.len() { col } else { s.len() as int };
    if s.len() == 0 || pos == 0 {
        None
    } else {
        let p = back_over_space(s, pos - 1);
        if white_space(s[p]) {
            None
        } else {
            Some(run_start(s, p, class_of(s[p])))
        }
    }
}

/// The text of a sequence of lines, as characters.
pub open spec fn text_of(lines: Seq<String>) -> Seq<Seq<char>> {
    lines.map_values(|l: String| l@)
}

/// Next-word motion from line `li`, column `col`, continuing onto later lines.
pub open spec fn next_word_from(t: Seq<Seq<char>>, li: int, col: int) -> (int, int)
    decreases t.len() - li,
{
    if li < 0 || li >= t.len() {
        (li, col)
    } else {
        let s = t[li];
        if col < s.len() && line_next_word(s, col) is Some {
            (li, line_next_word(s, col)->0)
        } else if li + 1 >= t.len() {
            (li, if col < s.len() { last_index(s) } else { 0 })
        } else {
            match first_non_space(t[li + 1]) {
                Some(c) => (li + 1, c),
                None => next_word_from(t, li + 1, 0),
            }
        }
    }
}

/// Word-end motion from line `li`, column `col`, continuing onto later lines.
pub open spec fn word_end_from(t: Seq<Seq<char>>, li: int, col: int) -> (int, int)
    decreases t.len() - li,
{
    if li < 0 || li >= t.len() {
        (li, col)
    } else {
        let s = t[li];
        if col < s.len() && line_word_end(s, col) is Some {
            (li, line_word_end(s, col)->0)
        } else if li + 1 >= t.len() {
            (li, if col < s.len() { last_index(s) } else { 0 })
        } else {
            word_end_from(t, li + 1, 0)
        }
    }
}

/// Previous-word motion from line `li`, column `col`, continuing onto earlier
/// lines.
pub open spec fn prev_word_from(t: Seq<Seq<char>>, li: int, col: int) -> (int, int)
    decreases li,
{
    if li < 0 || li >= t.len() {
        (0, 0)
    } else {
        let s = t[li];
        let safe = if s.len() == 0 { 0 } else if col < s.len() { col } else { s.len() as int };
        if line_prev_word(s, safe) is Some {
            (li, line_prev_word(s, safe)->0)
        } else if li == 0 {
            (0, 0)
        } else {
            prev_word_from(t, li - 1, t[li - 1].len() as int)
        }
    }
}

/// The line a motion starts on: the cursor's, or the last one.
pub open spec fn clamp_line(t: Seq<Seq<char>>, line: int) -> int {
    if line < t.len() - 1 { line } else { t.len() - 1 }
}

pub open spec fn next_word_spec(t: Seq<Seq<char>>, line: int, col: int) -> (int, int) {
    if t.len() == 0 { (0, 0) } else { next_word_from(t, clamp_line(t, line), col) }
}

pub open spec fn word_end_spec(t: Seq<Seq<char>>, line: int, col: int) -> (int, int) {
    if t.len() == 0 { (0, 0) } else { word_end_from(t, clamp_line(t, line), col) }
}

pub open spec fn prev_word_spec(t: Seq<Seq<char>>, line: int, col: int) -> (int, int) {
    if t.len() == 0 { (0, 0) } else { prev_word_from(t, clamp_line(t, line), col) }
}

/// Reading order on `(line, column)` positions.
pub open spec fn before(a: (int, int), b: (int, int)) -> bool {
    a.0 < b.0 || (a.0 == b.0 && a.1 < b.1)
}

/// The last character of the document.
pub open spec fn final_position(t: Seq<Seq<char>>) -> (int, int) {
    (t.len() - 1, last_index(t[t.len() - 1]))
}

/// A cursor that stands on a character, or at column 0 of an empty line.
pub open spec fn on_text(t: Seq<Seq<char>>, line: int, col: int) -> bool {
    0 <= line < t.len() && 0 <= col && (col < t[line].len() || col == 0)
}

fn class(c: char) -> (r: u8)
    ensures
        r == class_of(c),
{
    if is_whitespace(c) {
        0
    } else if is_word_char(c) {
        1
    } else {
        2
    }
}

fn is_word_char(c: char) -> (r: bool)
    ensures
        r == word_char(c),
{
    is_alphanumeric(c) || c == '_'
}

proof fn lemma_run_end_bounds(s: Seq<char>, pos: int, k: u8)
    requires
        0 <= pos,
    ensures
        pos <= run_end(s, pos, k),
        pos <= s.len() ==> run_end(s, pos, k) <= s.len(),
        pos < s.len() && class_of(s[pos]) == k ==> pos < run_end(s, pos, k),
    decreases s.len() - pos,
{
    if 0 <= pos < s.len() && class_of(s[pos]) == k {
        lemma_run_end_bounds(s, pos + 1, k);
    }
}

fn skip_run(s: &Vec<char>, pos: usize, k: u8) -> (r: usize)
    requires
        pos <= s@.len(),
    ensures
        r as int == run_end(s@, pos as int, k),
        pos <= r <= s@.len(),
{
    let mut p = pos;
    while p < s.len() && class(s[p]) == k
        invariant
            pos <= p <= s@.len(),
            run_end(s@, p as int, k) == run_end(s@, pos as int, k),
        decreases s@.len() - p,
    {
        p = p + 1;
    }
    p
}

fn skip_run_back(s: &Vec<char>, pos: usize, k: u8) -> (r: usize)
    requires
        pos < s@.len(),
    ensures
        r as int == run_start(s@, pos as int, k),
        r <= pos,
{
    let mut p = pos;
    while p > 0 && class(s[p - 1]) == k
        invariant
            p <= pos < s@.len(),
            run_start(s@, p as int, k) == run_start(s@, pos as int, k),
        decreases p,
    {
        p = p - 1;
    }
    p
}

fn find_next_word_start(s: &Vec<char>, current_col: usize) -> (r: Option<usize>)
    ensures
        r matches Some(c) ==> line_next_word(s@, current_col as int) == Some(c as int),
        r is None ==> line_next_word(s@, current_col as int) is None,
{
    let len = s.len();
    if len == 0 {
        return None;
    }
    let pos = if current_col < len - 1 {
        current_col
    } else {
        len - 1
    };
    let past_run = skip_run(s, pos, class(s[pos]));
    let next = skip_run(s, past_run, 0);
    if next < len {
        Some(next)
    } else {
        None
    }
}

fn find_word_end(s: &Vec<char>, current_col: usize) -> (r: Option<usize>)
    ensures
        r matches Some(c) ==> line_word_end(s@, current_col as int) == Some(c as int),
        r is None ==> line_word_end(s@, current_col as int) is None,
{
    let len = s.len();
    if current_col >= len {
        proof {
            lemma_run_end_bounds(s@, current_col + 1, CLASS_SPACE);
        }
        return None;
    }
    let start = skip_run(s, current_col + 1, 0);
    if start >= len {
        return None;
    }
    let end = skip_run(s, start, class(s[start]));
    Some(end - 1)
}

fn find_prev_word_start(s: &Vec<char>, current_col: usize) -> (r: Option<usize>)
    ensures
        r matches Some(c) ==> line_prev_word(s@, current_col as int) == Some(c as int),
        r is None ==> line_prev_word(s@, current_col as int) is None,
{
    let len = s.len();
    let pos = if current_col < len {
        current_col
    } else {
        len
    };
    if len == 0 || pos == 0 {
        return None;
    }
    let mut p = pos - 1;
    while p > 0 && is_whitespace(s[p])
        invariant
            p < len == s@.len(),
            back_over_space(s@, p as int) == back_over_space(s@, pos - 1),
        decreases p,
    {
        p = p - 1;
    }
    if is_whitespace(s[p]) {
        return None;
    }
    Some(skip_run_back(s, p, class(s[p])))
}

/// Index of the last character of `text` (0 when it is empty).
pub fn last_char_index(text: &str) -> (r: usize)
    ensures
        r as int == last_index(text@),
{
    let cs = chars_of(text);
    if cs.len() == 0 {
        0
    } else {
        cs.len() - 1
    }
}

pub(crate) fn first_non_space_of(s: &Vec<char>) -> (r: Option<usize>)
    ensures
        r matches Some(i) ==> first_non_space(s@) == Some(i as int) && i < s@.len()
            && !white_space(s@[i as int]),
        r is None ==> first_non_space(s@) is None,
{
    let mut i: usize = 0;
    while i < s.len()
        invariant
            i <= s@.len(),
            forall|j: int| 0 <= j < i ==> white_space(#[trigger] s@[j]),
        decreases s@.len() - i,
    {
        if !is_whitespace(s[i]) {
            proof {
                let w = choose|w: int|
                    0 <= w < s@.len() && !white_space(s@[w]) && forall|j: int|
                        0 <= j < w ==> white_space(#[trigger] s@[j]);
                assert(0 <= i < s@.len() && !white_space(s@[i as int]) && forall|j: int|
                    0 <= j < i ==> white_space(#[trigger] s@[j]));
                if w < i {
                    assert(white_space(s@[w]));
                } else if w > i {
                    assert(white_space(s@[i as int]));
                }
            }
            return Some(i);
        }
        i = i + 1;
    }
    None
}

/// Column of the first character of `text` that is not whitespace (0 when
/// there is none).
pub fn find_first_non_whitespace(text: &str) -> (r: usize)
    ensures
        first_non_space(text@) matches Some(i) ==> r as int == i,
        first_non_space(text@) is None ==> r == 0,
{
    let cs = chars_of(text);
    match first_non_space_of(&cs) {
        Some(i) => i,
        None => 0,
    }
}


fn line_chars(lines: &[String], i: usize) -> (r: Vec<char>)
    requires
        i < lines@.len(),
    ensures
        r@ == text_of(lines@)[i as int],
        r@.len() == text_of(lines@)[i as int].len(),
{
    chars_of(lines[i].as_str())
}

/// Next-word motion (`w`): the start of the next word, moving onto following
/// lines where the current one has no further word.
pub fn next_word_position(lines: &[String], line_idx: usize, col: usize) -> (r: (usize, usize))
    ensures
        (r.0 as int, r.1 as int) == next_word_spec(text_of(lines@), line_idx as int, col as int),
{
    let ghost t = text_of(lines@);
    let n = lines.len();
    if n == 0 {
        return (0, 0);
    }
    let mut li = if line_idx < n - 1 {
        line_idx
    } else {
        n - 1
    };
    let mut c = col;
    loop
        invariant
            n == lines@.len() == t.len(),
            t == text_of(lines@),
            li < n,
            next_word_from(t, li as int, c as int) == next_word_spec(t, line_idx as int, col as int),
        decreases n - li,
    {
        let s = line_chars(lines, li);
        let len = s.len();
        if c < len {
            if let Some(nc) = find_next_word_start(&s, c) {
                return (li, nc);
            }
        }
        if li + 1 >= n {
            return (li, if c < len { len - 1 } else { 0 });
        }
        let following = line_chars(lines, li + 1);
        match first_non_space_of(&following) {
            Some(f) => {
                return (li + 1, f);
            },
            None => {
                li = li + 1;
                c = 0;
            },
        }
    }
}

/// Word-end motion (`e`): the last character of the next word, moving onto
/// following lines where the current one has no further word.
pub fn word_end_position(lines: &[String], line_idx: usize, col: usize) -> (r: (usize, usize))
    ensures
        (r.0 as int, r.1 as int) == word_end_spec(text_of(lines@), line_idx as int, col as int),
{
    let ghost t = text_of(lines@);
    let n = lines.len();
    if n == 0 {
        return (0, 0);
    }
    let mut li = if line_idx < n - 1 {
        line_idx
    } else {
        n - 1
    };
    let mut c = col;
    loop
        invariant
            n == lines@.len() == t.len(),
            t == text_of(lines@),
            li < n,
            word_end_from(t, li as int, c as int) == word_end_spec(t, line_idx as int, col as int),
        decreases n - li,
    {
        let s = line_chars(lines, li);
        let len = s.len();
        if c < len {
            if let Some(ec) = find_word_end(&s, c) {
                return (li, ec);
            }
        }
        if li + 1 >= n {
            return (li, if c < len { len - 1 } else { 0 });
        }
        li = li + 1;
        c = 0;
    }
}

/// Previous-word motion (`b`): the start of the word before the cursor, moving
/// onto earlier lines, and stopping at the start of the text.
pub fn prev_word_position(lines: &[String], line_idx: usize, col: usize) -> (r: (usize, usize))
    ensures
        (r.0 as int, r.1 as int) == prev_word_spec(text_of(lines@), line_idx as int, col as int),
{
    let ghost t = text_of(lines@);
    let n = lines.len();
    if n == 0 {
        return (0, 0);
    }
    let mut li = if line_idx < n - 1 {
        line_idx
    } else {
        n - 1
    };
    let mut c = col;
    loop
        invariant
            n == lines@.len() == t.len(),
            t == text_of(lines@),
            li < n,
            prev_word_from(t, li as int, c as int) == prev_word_spec(t, line_idx as int, col as int),
        decreases li,
    {
        let s = line_chars(lines, li);
        let len = s.len();
        let safe = if len == 0 {
            0
        } else if c < len {
            c
        } else {
            len
        };
        if let Some(pc) = find_prev_word_start(&s, safe) {
            return (li, pc);
        }
        if li == 0 {
            return (0, 0);
        }
        li = li - 1;
        c = line_chars(lines, li).len();
    }
}


proof fn lemma_line_next_word_after(s: Seq<char>, col: int)
    requires
        0 <= col < s.len(),
    ensures
        line_next_word(s, col) matches Some(c) ==> col < c < s.len(),
{
    let pos = if col < s.len() - 1 { col } else { s.len() - 1 };
    assert(pos == col);
    lemma_run_end_bounds(s, pos, class_of(s[pos]));
    let past_run = run_end(s, pos, class_of(s[pos]));
    lemma_run_end_bounds(s, past_run, CLASS_SPACE);
}

proof fn lemma_line_next_word_at_last(s: Seq<char>)
    requires
        s.len() > 0,
    ensures
        line_next_word(s, s.len() - 1) is None,
{
    let pos = s.len() - 1;
    lemma_run_end_bounds(s, pos, class_of(s[pos]));
    let past_run = run_end(s, pos, class_of(s[pos]));
    lemma_run_end_bounds(s, past_run, CLASS_SPACE);
}

proof fn lemma_next_word_from_line(t: Seq<Seq<char>>, li: int, col: int)
    requires
        0 <= li < t.len(),
    ensures
        li <= next_word_from(t, li, col).0 < t.len(),
    decreases t.len() - li,
{
    if li + 1 < t.len() && first_non_space(t[li + 1]) is None {
        lemma_next_word_from_line(t, li + 1, 0);
    }
}

/// Next-word motion from a cursor on the text stays put exactly at the last
/// character of the text; from anywhere else it moves strictly forward in
/// reading order.
pub proof fn lemma_next_word_forward(lines: Seq<String>, line: int, col: int)
    requires
        on_text(text_of(lines), line, col),
    ensures
        ({
            let t = text_of(lines);
            let r = next_word_spec(t, line, col);
            &&& (line, col) == final_position(t) ==> r == (line, col)
            &&& (line, col) != final_position(t) ==> before((line, col), r)
        }),
{
    let t = text_of(lines);
    let s = t[line];
    assert(clamp_line(t, line) == line);
    if col < s.len() {
        lemma_line_next_word_after(s, col);
        if line + 1 >= t.len() && col == s.len() - 1 {
            lemma_line_next_word_at_last(s);
        }
    }
    if line + 1 < t.len() && !(col < s.len() && line_next_word(s, col) is Some) {
        if first_non_space(t[line + 1]) is None {
            lemma_next_word_from_line(t, line + 1, 0);
        }
    }
}


/// The earlier and the later of two `(line, column)` positions.
pub open spec fn ordered(a: (int, int), b: (int, int)) -> ((int, int), (int, int)) {
    if a.0 < b.0 || (a.0 == b.0 && a.1 <= b.1) { (a, b) } else { (b, a) }
}

pub open spec fn min_int(a: int, b: int) -> int {
    if a <= b { a } else { b }
}

/// The characters that a selection from `(sl, sc)` to `(el, ec)` (in reading
/// order, both inclusive) takes from line `i`, with the line break that
/// follows it where the selection goes on.
pub open spec fn selected_piece(s: Seq<char>, i: int, sl: int, sc: int, el: int, ec: int) -> Seq<
    char,
> {
    if i == sl && i == el {
        s.subrange(min_int(sc, s.len() as int), min_int(ec + 1, s.len() as int))
    } else if i == sl {
        s.subrange(min_int(sc, s.len() as int), s.len() as int).push('\n')
    } else if i == el {
        s.subrange(0, min_int(ec + 1, s.len() as int))
    } else {
        s.push('\n')
    }
}

/// The pieces of lines `lo` up to (not including) `hi`, joined.
pub open spec fn selected_lines(
    t: Seq<Seq<char>>,
    lo: int,
    hi: int,
    sl: int,
    sc: int,
    el: int,
    ec: int,
) -> Seq<char>
    decreases hi - lo,
{
    if hi <= lo {
        Seq::empty()
    } else {
        selected_lines(t, lo, hi - 1, sl, sc, el, ec) + selected_piece(t[hi - 1], hi - 1, sl, sc, el, ec)
    }
}

/// The text between two positions of a visual selection, inclusive, whichever
/// was set first; lines past the end of the text contribute nothing.
pub open spec fn selection_spec(t: Seq<Seq<char>>, anchor: (int, int), cursor: (int, int)) -> Seq<
    char,
> {
    let (a, b) = ordered(anchor, cursor);
    let last = min_int(b.0, t.len() - 1);
    selected_lines(t, a.0, last + 1, a.0, a.1, b.0, b.1)
}

fn push_range(out: &mut String, cs: &Vec<char>, from: usize, to: usize)
    requires
        from <= to <= cs@.len(),
    ensures
        final(out)@ == old(out)@ + cs@.subrange(from as int, to as int),
{
    let mut i = from;
    while i < to
        invariant
            from <= i <= to <= cs@.len(),
            out@ == old(out)@ + cs@.subrange(from as int, i as int),
        decreases to - i,
    {
        crate::text::push_char(out, cs[i]);
        proof {
            assert(cs@.subrange(from as int, i as int).push(cs@[i as int]) =~= cs@.subrange(
                from as int,
                i + 1,
            ));
        }
        i = i + 1;
    }
}

/// The text of a visual selection between `anchor` and `cursor`, inclusive at
/// both ends, with a line break at each line boundary crossed.
pub fn selected_text(lines: &[String], anchor: (usize, usize), cursor: (usize, usize)) -> (r:
    String)
    ensures
        r@ == selection_spec(
            text_of(lines@),
            (anchor.0 as int, anchor.1 as int),
            (cursor.0 as int, cursor.1 as int),
        ),
{
    let ghost t = text_of(lines@);
    let (sl, sc, el, ec) = if anchor.0 < cursor.0 || (anchor.0 == cursor.0 && anchor.1
        <= cursor.1) {
        (anchor.0, anchor.1, cursor.0, cursor.1)
    } else {
        (cursor.0, cursor.1, anchor.0, anchor.1)
    };
    let mut out = String::new();
    let n = lines.len();
    if n == 0 {
        return out;
    }
    let last = if el < n - 1 {
        el
    } else {
        n - 1
    };
    let mut i = sl;
    if i > last {
        return out;
    }
    assert(out@ =~= selected_lines(t, sl as int, i as int, sl as int, sc as int, el as int, ec as int));
    while i <= last
        invariant
            n == lines@.len() == t.len(),
            t == text_of(lines@),
            last < n,
            sl <= i <= last + 1,
            sl < el || (sl == el && sc <= ec),
            out@ == selected_lines(t, sl as int, i as int, sl as int, sc as int, el as int, ec as int),
        decreases last + 1 - i,
    {
        let cs = line_chars(lines, i);
        let len = cs.len();
        let end = if ec < len {
            ec + 1
        } else {
            len
        };
        let start = if sc < len {
            sc
        } else {
            len
        };
        let ghost before_out = out@;
        if i == sl && i == el {
            push_range(&mut out, &cs, start, end);
        } else if i == sl {
            push_range(&mut out, &cs, start, len);
            crate::text::push_char(&mut out, '\n');
        } else if i == el {
            push_range(&mut out, &cs, 0, end);
        } else {
            push_range(&mut out, &cs, 0, len);
            crate::text::push_char(&mut out, '\n');
        }
        proof {
            assert(cs@.subrange(0, len as int) =~= cs@);
            assert(out@ =~= before_out + selected_piece(t[i as int], i as int, sl as int, sc as int, el as int, ec as int));
        }
        i = i + 1;
    }
    out
}

/// First visible line of a window of `visible` rows over `total` lines that
/// follows the cursor: it scrolls forward just enough to keep the cursor on the
/// last row, back at once when the cursor goes above it, and never past the
/// point where the last line is the bottom row.
pub open spec fn scroll_spec(scroll: int, cursor: int, total: int, visible: int) -> int {
    let wanted = if visible == 0 {
        0
    } else if cursor >= scroll + visible {
        cursor - (visible - 1)
    } else if cursor < scroll {
        cursor
    } else {
        scroll
    };
    let limit = if total > visible { total - visible } else { 0 };
    min_int(wanted, limit)
}

pub fn scroll_window_start(scroll: usize, cursor_line: usize, total_lines: usize, visible: usize) -> (r: usize)
    ensures
        r as int == scroll_spec(scroll as int, cursor_line as int, total_lines as int, visible as int),
{
    let wanted = if visible == 0 {
        0
    } else if cursor_line as u128 >= scroll as u128 + visible as u128 {
        cursor_line - (visible - 1)
    } else if cursor_line < scroll {
        cursor_line
    } else {
        scroll
    };
    let limit = if total_lines > visible {
        total_lines - visible
    } else {
        0
    };
    if wanted <= limit {
        wanted
    } else {
        limit
    }
}

} // verus!
