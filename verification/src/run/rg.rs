//! Ripgrep output: the sliding window that gives each match its context
//! lines, the splitting of a line into path, location and text, and the
//! grouping of `--heading` output per file.

use ansi_to_tui::IntoText;
use cba::bath::PathExt;
use vstd::prelude::*;

use crate::chars::join;
use crate::text::{from_chars, string_push, to_chars};

verus! {

/// What `ansi_to_tui` reads in `raw`: the text of each line with the escape
/// sequences taken out, or `None` where it reports an error.
pub uninterp spec fn ansi_text(raw: Seq<char>) -> Option<Seq<Seq<char>>>;

/// `IntoText::into_text` on the bytes of `raw`, each line given as the text
/// of its spans in order.
#[verifier::external_body]
fn ansi_lines(raw: &str) -> (r: Option<Vec<String>>)
    ensures
        r.is_some() == ansi_text(raw@).is_some(),
        r matches Some(v) ==> v@.map_values(|l: String| l@) == ansi_text(raw@)->0,
{
    match raw.into_text() {
        Ok(t) => Some(
            t.lines.iter().map(|l| l.spans.iter().map(|s| s.content.as_ref()).collect::<String>()).collect(),
        ),
        Err(_) => None,
    }
}

/// The absolute form of `path` below `base`, as `PathExt::abs` gives it
/// (joined, then normalised).
pub uninterp spec fn abs_path(path: Seq<char>, base: Seq<char>) -> Seq<char>;

/// `PathExt::abs` of `cli_boilerplate_automation`.
#[verifier::external_body]
fn path_abs(path: &str, base: &str) -> (r: String)
    ensures
        r@ == abs_path(path@, base@),
{
    std::path::Path::new(path).abs(base).to_string_lossy().into_owned()
}

/// One line of ripgrep's output, split: the file, the location prefix
/// (`line:col:` for a match, `line-` for a context line) and the text.
#[derive(Debug, Clone, PartialEq, Eq)]
pub struct RgLine {
    pub path: String,
    pub loc: String,
    pub text: String,
    pub is_match: bool,
}

/// The most lines the window holds: the context before, the match and the
/// context after.
pub open spec fn window_cap(before: usize, after: usize) -> int {
    before + after + 1
}

/// The window after `line` comes in: it is appended and, where that makes
/// the window too long, the oldest line leaves.
pub open spec fn pushed_window(old: Seq<RgLine>, line: RgLine, cap: int) -> Seq<RgLine> {
    let s = old.push(line);
    if s.len() > cap {
        s.drop_first()
    } else {
        s
    }
}

/// `a - b`, or 0 where `b` is larger.
pub open spec fn sat_sub(a: int, b: int) -> int {
    if a >= b {
        a - b
    } else {
        0
    }
}

/// The match at `mid` of a window of `len` lines with its context range
/// `start..end`.
pub open spec fn hit_range(mid: int, len: int, before: usize, after: usize) -> (usize, usize, usize) {
    (
        mid as usize,
        sat_sub(mid, before as int) as usize,
        (if len < mid + after + 1 {
            len
        } else {
            mid + after + 1
        }) as usize,
    )
}

/// The match that the window `s` hands out: the line `after` lines from the
/// end, once there are that many lines after it, where it is a match.
pub open spec fn window_emit(s: Seq<RgLine>, before: usize, after: usize) -> Option<(usize, usize, usize)> {
    if s.len() > after && s[s.len() - 1 - after].is_match {
        Some(hit_range(s.len() - 1 - after, s.len() as int, before, after))
    } else {
        None
    }
}

/// Take `line` into the window and hand out the match, if any, that now has
/// all its context after it.
pub fn rg_window_push(buffer: &mut Vec<RgLine>, line: RgLine, before: usize, after: usize) -> (emitted: Option<
    (usize, usize, usize),
>)
    requires
        window_cap(before, after) <= usize::MAX,
    ensures
        final(buffer)@ == pushed_window(old(buffer)@, line, window_cap(before, after)),
        old(buffer)@.len() <= window_cap(before, after) ==> final(buffer)@ == old(buffer)@.push(line).subrange(
            sat_sub(old(buffer)@.len() + 1int, window_cap(before, after)),
            old(buffer)@.len() + 1int,
        ),
        emitted == window_emit(final(buffer)@, before, after),
{
    let ghost s = old(buffer)@.push(line);
    buffer.push(line);
    if buffer.len() > before + after + 1 {
        buffer.remove(0);
        assert(buffer@ =~= s.drop_first());
    }
    assert(buffer@ =~= pushed_window(old(buffer)@, line, window_cap(before, after)));
    proof {
        if old(buffer)@.len() <= window_cap(before, after) {
            assert(buffer@ =~= s.subrange(sat_sub(s.len() as int, window_cap(before, after)), s.len() as int));
        }
    }
    let len = buffer.len();
    if len > after {
        let mid = len - 1 - after;
        if buffer[mid].is_match {
            let start = if mid >= before {
                mid - before
            } else {
                0
            };
            return Some((mid, start, len));
        }
    }
    None
}

/// The matches handed out at the end of the stream, from `lo` up to `hi`:
/// those among the last lines of the window, each with the context it has.
pub open spec fn flush_emits(s: Seq<RgLine>, lo: int, hi: int, before: usize, after: usize) -> Seq<
    (usize, usize, usize),
>
    decreases hi - lo,
{
    if hi <= lo {
        Seq::empty()
    } else {
        let rest = flush_emits(s, lo, hi - 1, before, after);
        if s[hi - 1].is_match {
            rest.push(hit_range(hi - 1, s.len() as int, before, after))
        } else {
            rest
        }
    }
}

/// At the end of the stream: the matches among the last `after` lines of
/// the window, which did not get all their context, in order.
pub fn rg_window_flush(buffer: &Vec<RgLine>, before: usize, after: usize) -> (r: Vec<(usize, usize, usize)>)
    ensures
        r@ == flush_emits(buffer@, sat_sub(buffer@.len() as int, after as int), buffer@.len() as int, before, after),
{
    let len = buffer.len();
    let lo = if len >= after {
        len - after
    } else {
        0
    };
    let mut out: Vec<(usize, usize, usize)> = Vec::new();
    let mut i = lo;
    while i < len
        invariant
            len == buffer@.len(),
            lo <= i <= len,
            lo == sat_sub(len as int, after as int),
            out@ == flush_emits(buffer@, lo as int, i as int, before, after),
        decreases len - i,
    {
        if buffer[i].is_match {
            let start = if i >= before {
                i - before
            } else {
                0
            };
            let end = if after < len - i {
                i + after + 1
            } else {
                len
            };
            out.push((i, start, end));
        }
        i = i + 1;
    }
    out
}

/// Whether `c` is an ASCII digit.
pub open spec fn is_digit(c: char) -> bool {
    '0' <= c && c <= '9'
}

/// The end of the run of digits in `s` that starts at `i`.
pub open spec fn digits_end(s: Seq<char>, i: int) -> int
    decreases s.len() - i,
{
    if 0 <= i < s.len() && is_digit(s[i]) {
        digits_end(s, i + 1)
    } else {
        i
    }
}

/// The index of the first NUL in `s` at or after `i`, or -1.
pub open spec fn first_nul(s: Seq<char>, i: int) -> int
    decreases s.len() - i,
{
    if 0 <= i < s.len() {
        if s[i] == '\0' {
            i
        } else {
            first_nul(s, i + 1)
        }
    } else {
        -1
    }
}

/// The length of the location prefix that starts `rest`, 0 where it has
/// none: a line number and `-` for a context line; a line number and `:`,
/// then a column and `:` unless columns are off, for a match.
pub open spec fn loc_len(rest: Seq<char>, no_column: bool) -> int {
    let a = digits_end(rest, 0);
    if a == 0 || a >= rest.len() {
        0
    } else if rest[a] == '-' {
        a + 1
    } else if rest[a] == ':' {
        let b = digits_end(rest, a + 1);
        if !no_column && b > a + 1 && b < rest.len() && rest[b] == ':' {
            b + 1
        } else {
            a + 1
        }
    } else {
        0
    }
}

/// A line of `rg --null` output split into path, location prefix and text;
/// `None` where it has no NUL after the path or no location after it.
pub open spec fn rg_split(s: Seq<char>, no_column: bool) -> Option<(Seq<char>, Seq<char>, Seq<char>)> {
    let z = first_nul(s, 0);
    if z < 0 {
        None
    } else {
        let rest = s.subrange(z + 1, s.len() as int);
        let k = loc_len(rest, no_column);
        if k == 0 {
            None
        } else {
            Some((s.subrange(0, z), rest.subrange(0, k), rest.subrange(k, rest.len() as int)))
        }
    }
}

/// The index at which the run of digits starting at `i` ends.
fn scan_digits(s: &Vec<char>, i: usize) -> (j: usize)
    requires
        i <= s.len(),
    ensures
        j == digits_end(s@, i as int),
        i <= j <= s.len(),
{
    let mut j = i;
    while j < s.len() && '0' <= s[j] && s[j] <= '9'
        invariant
            i <= j <= s.len(),
            digits_end(s@, j as int) == digits_end(s@, i as int),
        decreases s.len() - j,
    {
        j = j + 1;
    }
    j
}

/// The index of the first NUL of `s`, if any.
fn find_nul(s: &Vec<char>) -> (r: Option<usize>)
    ensures
        first_nul(s@, 0) < 0 <==> r is None,
        r matches Some(z) ==> z == first_nul(s@, 0) && z < s.len(),
{
    let mut i: usize = 0;
    while i < s.len()
        invariant
            i <= s.len(),
            first_nul(s@, i as int) == first_nul(s@, 0),
        decreases s.len() - i,
    {
        if s[i] == '\0' {
            return Some(i);
        }
        i = i + 1;
    }
    None
}

/// The characters of `s` from `lo` up to `hi`.
fn chars_between(s: &Vec<char>, lo: usize, hi: usize) -> (r: String)
    requires
        lo <= hi <= s.len(),
    ensures
        r@ == s@.subrange(lo as int, hi as int),
{
    let mut out = String::new();
    let mut i = lo;
    while i < hi
        invariant
            lo <= i <= hi <= s.len(),
            out@ == s@.subrange(lo as int, i as int),
        decreases hi - i,
    {
        string_push(&mut out, s[i]);
        i = i + 1;
    }
    out
}

/// Split a line of `rg --null` output (styles already taken out) into the
/// path, the location prefix and the text.
pub fn rg_split_line(line: &str, no_column: bool) -> (r: Option<(String, String, String)>)
    ensures
        r is Some == rg_split(line@, no_column) is Some,
        r matches Some((p, l, t)) ==> rg_split(line@, no_column) == Some((p@, l@, t@)),
{
    let s = to_chars(line);
    let z = match find_nul(&s) {
        None => return None,
        Some(z) => z,
    };
    let ghost rest = s@.subrange(z + 1, s@.len() as int);
    let r0 = z + 1;
    let a = scan_digits(&s, r0);
    proof {
        assert forall|i: int| r0 <= i <= s@.len() implies digits_end(s@, i) - r0 == digits_end(rest, i - r0) by {
            lemma_digits_end_shift(s@, r0 as int, i);
        }
    }
    if a == r0 || a >= s.len() {
        return None;
    }
    let k: usize;
    if s[a] == '-' {
        k = a + 1;
    } else if s[a] == ':' {
        let b = scan_digits(&s, a + 1);
        if !no_column && b > a + 1 && b < s.len() && s[b] == ':' {
            k = b + 1;
        } else {
            k = a + 1;
        }
    } else {
        return None;
    }
    let path = chars_between(&s, 0, z);
    let loc = chars_between(&s, r0, k);
    let text = chars_between(&s, k, s.len());
    assert(loc@ =~= rest.subrange(0, k - r0));
    assert(text@ =~= rest.subrange(k - r0, rest.len() as int));
    Some((path, loc, text))
}

/// Digit runs read the same in `s` from `r0` on and in the part of `s`
/// that starts at `r0`.
proof fn lemma_digits_end_shift(s: Seq<char>, r0: int, i: int)
    requires
        0 <= r0 <= i <= s.len(),
    ensures
        digits_end(s, i) - r0 == digits_end(s.subrange(r0, s.len() as int), i - r0),
    decreases s.len() - i,
{
    if i < s.len() {
        lemma_digits_end_shift(s, r0, i + 1);
    }
}

/// The value of the digit `c`.
pub open spec fn digit_val(c: char) -> nat {
    (c as int - '0' as int) as nat
}

/// The number that the digits of `s` from `lo` up to `hi` write.
pub open spec fn digits_value(s: Seq<char>, lo: int, hi: int) -> nat
    decreases hi - lo,
{
    if hi <= lo {
        0
    } else {
        digits_value(s, lo, hi - 1) * 10 + digit_val(s[hi - 1])
    }
}

/// The line and column that a location prefix names; the column is 0
/// where the prefix has none.
pub open spec fn rg_loc(loc: Seq<char>) -> Option<(nat, nat)> {
    let a = digits_end(loc, 0);
    if a == 0 || a >= loc.len() || !(loc[a] == ':' || loc[a] == '-') {
        None
    } else {
        let b = digits_end(loc, a + 1);
        Some(
            (
                digits_value(loc, 0, a),
                if b > a + 1 && b < loc.len() && loc[b] == ':' {
                    digits_value(loc, a + 1, b)
                } else {
                    0
                },
            ),
        )
    }
}

/// `rg_loc` where both numbers fit in a `usize`.
pub open spec fn loc_fits(loc: Seq<char>) -> Option<(usize, usize)> {
    match rg_loc(loc) {
        Some((l, c)) => if l <= usize::MAX && c <= usize::MAX {
            Some((l as usize, c as usize))
        } else {
            None
        },
        None => None,
    }
}

/// A longer run of digits writes a number at least as large.
proof fn lemma_digits_value_grows(s: Seq<char>, lo: int, i: int, j: int)
    requires
        lo <= i <= j,
    ensures
        digits_value(s, lo, i) <= digits_value(s, lo, j),
    decreases j - i,
{
    if i < j {
        lemma_digits_value_grows(s, lo, i, j - 1);
    }
}

/// The number written by the digits of `s` from `lo` up to `hi`, where it
/// fits in a `usize`.
fn digits_to_usize(s: &Vec<char>, lo: usize, hi: usize) -> (r: Option<usize>)
    requires
        lo <= hi <= s.len(),
        forall|i: int| lo <= i < hi ==> is_digit(#[trigger] s@[i]),
    ensures
        r == (if digits_value(s@, lo as int, hi as int) <= usize::MAX {
            Some(digits_value(s@, lo as int, hi as int) as usize)
        } else {
            None::<usize>
        }),
{
    let mut v: usize = 0;
    let mut i = lo;
    while i < hi
        invariant
            lo <= i <= hi <= s.len(),
            forall|k: int| lo <= k < hi ==> is_digit(#[trigger] s@[k]),
            v == digits_value(s@, lo as int, i as int),
        decreases hi - i,
    {
        assert(is_digit(s@[i as int]));
        let d = (s[i] as u32 - '0' as u32) as usize;
        assert(d == digit_val(s@[i as int]));
        proof {
            lemma_digits_value_grows(s@, lo as int, i + 1, hi as int);
        }
        match v.checked_mul(10) {
            None => return None,
            Some(t) => match t.checked_add(d) {
                None => return None,
                Some(n) => {
                    v = n;
                },
            },
        }
        i = i + 1;
    }
    Some(v)
}

/// The line and column of a location prefix (`42:10:` gives `(42, 10)`,
/// `42:` gives `(42, 0)`).
pub fn rg_parse_loc(loc: &str) -> (r: Option<(usize, usize)>)
    ensures
        r == loc_fits(loc@),
{
    let s = to_chars(loc);
    let a = scan_digits(&s, 0);
    if a == 0 || a >= s.len() || !(s[a] == ':' || s[a] == '-') {
        return None;
    }
    let b = scan_digits(&s, a + 1);
    proof {
        lemma_digit_run(s@, 0, a as int);
        lemma_digit_run(s@, a + 1, b as int);
    }
    let line = match digits_to_usize(&s, 0, a) {
        None => return None,
        Some(l) => l,
    };
    let col = if b > a + 1 && b < s.len() && s[b] == ':' {
        match digits_to_usize(&s, a + 1, b) {
            None => return None,
            Some(c) => c,
        }
    } else {
        0
    };
    Some((line, col))
}

/// Every character before the end of a digit run is a digit.
proof fn lemma_digit_run(s: Seq<char>, i: int, e: int)
    requires
        0 <= i,
        e == digits_end(s, i),
    ensures
        i <= e,
        forall|k: int| i <= k < e ==> is_digit(#[trigger] s[k]),
    decreases s.len() - i,
{
    if 0 <= i < s.len() && is_digit(s[i]) {
        lemma_digit_run(s, i + 1, e);
    }
}

/// What a raw line of `rg --null` output with the path parts `prefix` read
/// before it becomes: its styles are taken out, its first line is split,
/// and the path is put after `prefix`.
pub open spec fn rg_entry_spec(raw: Seq<char>, prefix: Seq<char>, no_column: bool) -> Option<
    (Seq<char>, Seq<char>, Seq<char>, bool),
> {
    match ansi_text(raw) {
        None => None,
        Some(ls) => if ls.len() == 0 {
            None
        } else {
            match rg_split(ls[0], no_column) {
                None => None,
                Some((p, l, t)) => Some((prefix + p, l, t, l.len() > 0 && l.last() == ':')),
            }
        },
    }
}

/// The line of ripgrep output that a raw line with the path parts `prefix`
/// read before it gives; `None` where it does not parse.
pub fn rg_entry(raw: &str, prefix: &str, no_column: bool) -> (r: Option<RgLine>)
    ensures
        r is Some == rg_entry_spec(raw@, prefix@, no_column) is Some,
        r matches Some(l) ==> rg_entry_spec(raw@, prefix@, no_column) == Some(
            (l.path@, l.loc@, l.text@, l.is_match),
        ),
{
    let lines = match ansi_lines(raw) {
        None => return None,
        Some(v) => v,
    };
    proof {
        assert(lines@.map_values(|l: String| l@).len() == lines@.len());
    }
    if lines.len() == 0 {
        return None;
    }
    proof {
        assert(lines@.map_values(|l: String| l@)[0] == lines@[0]@);
    }
    match rg_split_line(lines[0].as_str(), no_column) {
        None => None,
        Some((p, loc, text)) => {
            let mut path = String::new();
            path.append(prefix);
            path.append(p.as_str());
            let lc = to_chars(loc.as_str());
            let is_match = lc.len() > 0 && lc[lc.len() - 1] == ':';
            Some(RgLine { path, loc, text, is_match })
        },
    }
}

/// What the stream does with a raw line.
pub enum RgRoute {
    /// `--` between groups: the window's pending matches go out.
    Separator,
    /// A part of a path that holds a newline: kept for the next line.
    PathPart,
    /// A line with a path: it is parsed, after the path parts kept so far.
    Entry(String),
}

/// Route a raw line of `rg --null` output: a line without a NUL is the
/// separator `--` or a part of a path that holds a newline, which is kept
/// (with the newline); a line with one takes the kept parts as its prefix.
pub fn rg_route(path_buffer: &mut String, raw: &str) -> (r: RgRoute)
    ensures
        first_nul(raw@, 0) < 0 && raw@ == "--"@ ==> r is Separator
            && final(path_buffer)@ == old(path_buffer)@,
        first_nul(raw@, 0) < 0 && raw@ != "--"@ ==> r is PathPart
            && final(path_buffer)@ == old(path_buffer)@ + raw@ + seq!['\n'],
        first_nul(raw@, 0) >= 0 ==> (r matches RgRoute::Entry(p) && p@ == old(path_buffer)@),
        first_nul(raw@, 0) >= 0 ==> final(path_buffer)@ == Seq::<char>::empty(),
{
    let s = to_chars(raw);
    match find_nul(&s) {
        None => {
            if crate::text::str_eq(raw, "--") {
                RgRoute::Separator
            } else {
                path_buffer.append(raw);
                string_push(path_buffer, '\n');
                RgRoute::PathPart
            }
        },
        Some(_) => {
            let p = path_buffer.clone();
            *path_buffer = String::new();
            RgRoute::Entry(p)
        },
    }
}

/// A match as the Search pane shows it: the file, its line and column, and
/// the lines shown with it.
pub struct RgHit {
    pub path: String,
    pub loc: Option<(usize, usize)>,
    pub lines: Vec<String>,
}

/// The texts of the lines of `s`.
pub open spec fn texts_of(s: Seq<RgLine>) -> Seq<Seq<char>> {
    s.map_values(|l: RgLine| l.text@)
}

/// The match at `at.0` of the window with the lines `at.1..at.2` around it;
/// its path is made absolute below `cwd`.
pub fn rg_hit(buffer: &Vec<RgLine>, at: (usize, usize, usize), cwd: &str) -> (h: RgHit)
    requires
        at.1 <= at.0 < at.2 <= buffer@.len(),
    ensures
        h.path@ == abs_path(buffer@[at.0 as int].path@, cwd@),
        h.loc == loc_fits(buffer@[at.0 as int].loc@),
        h.lines@.map_values(|l: String| l@) == texts_of(buffer@.subrange(at.1 as int, at.2 as int)),
{
    let (mid, start, end) = at;
    let path = path_abs(buffer[mid].path.as_str(), cwd);
    let loc = rg_parse_loc(buffer[mid].loc.as_str());
    let mut lines: Vec<String> = Vec::new();
    let mut i = start;
    while i < end
        invariant
            start <= i <= end <= buffer@.len(),
            lines@.map_values(|l: String| l@) == texts_of(buffer@.subrange(start as int, i as int)),
        decreases end - i,
    {
        let t = buffer[i].text.clone();
        let ghost prev = lines@;
        lines.push(t);
        assert(lines@ == prev.push(t));
        assert(texts_of(buffer@.subrange(start as int, i + 1)) =~= texts_of(
            buffer@.subrange(start as int, i as int),
        ).push(buffer@[i as int].text@));
        assert(lines@.map_values(|l: String| l@) =~= prev.map_values(|l: String| l@).push(t@));
        i = i + 1;
    }
    RgHit { path, loc, lines }
}

/// The path that the raw path `full` of a `--heading` group names: its
/// lines with the styles taken out, joined by newlines, or `full` itself
/// where `ansi_to_tui` fails.
pub open spec fn converted_path(full: Seq<char>) -> Seq<char> {
    match ansi_text(full) {
        Some(ls) => join(ls, seq!['\n']),
        None => full,
    }
}

/// The lines that the raw text `raw` adds to a group: its lines with the
/// styles taken out, or `raw` itself where `ansi_to_tui` fails.
pub open spec fn converted_lines(raw: Seq<char>) -> Seq<Seq<char>> {
    match ansi_text(raw) {
        Some(ls) => ls,
        None => seq![raw],
    }
}

/// The state of the `--heading` reader: the file of the open group (empty
/// where none is open), the path parts read before its NUL, and the group's
/// lines so far.
pub struct RgHeadingState {
    pub current_path: String,
    pub path_buffer: String,
    pub context: Vec<String>,
}

/// A `--heading` group as a triple of plain values.
pub type HeadingView = (Seq<char>, Seq<char>, Seq<Seq<char>>);

impl RgHeadingState {
    pub open spec fn view_of(&self) -> HeadingView {
        (self.current_path@, self.path_buffer@, self.context@.map_values(|l: String| l@))
    }

    /// No group open and nothing read.
    pub fn new() -> (r: Self)
        ensures
            r.view_of() == (Seq::<char>::empty(), Seq::<char>::empty(), Seq::<Seq<char>>::empty()),
    {
        let r = RgHeadingState { current_path: String::new(), path_buffer: String::new(), context: Vec::new() };
        assert(r.view_of().2 =~= Seq::<Seq<char>>::empty());
        r
    }
}

/// What a raw line does to the `--heading` reader, and the group it closes.
/// With no group open, a line with a NUL opens one: the path is what the
/// kept parts and the text before the NUL name, and the text after it is
/// the group's first line; a line without one is a part of a path that
/// holds a newline. With a group open, an empty line closes it and hands it
/// out; any other line is added to it.
pub open spec fn heading_step(v: HeadingView, line: Seq<char>) -> (HeadingView, Option<
    (Seq<char>, Seq<Seq<char>>),
>) {
    let (cur, pb, ctx) = v;
    if cur.len() == 0 {
        let z = first_nul(line, 0);
        if z >= 0 {
            let rest = line.subrange(z + 1, line.len() as int);
            (
                (
                    converted_path(pb + line.subrange(0, z)),
                    Seq::empty(),
                    if rest.len() > 0 {
                        ctx + converted_lines(rest)
                    } else {
                        ctx
                    },
                ),
                None,
            )
        } else {
            ((cur, pb + line + seq!['\n'], ctx), None)
        }
    } else if line.len() == 0 {
        ((Seq::empty(), pb, Seq::empty()), Some((cur, ctx)))
    } else {
        ((cur, pb, ctx + converted_lines(line)), None)
    }
}

/// The end of the stream for the `--heading` reader: an open group is
/// handed out; with none open, what was kept is dropped.
pub open spec fn heading_flush(v: HeadingView) -> (HeadingView, Option<(Seq<char>, Seq<Seq<char>>)>) {
    let (cur, pb, ctx) = v;
    if cur.len() == 0 {
        ((Seq::empty(), Seq::empty(), Seq::empty()), None)
    } else {
        ((Seq::empty(), pb, Seq::empty()), Some((cur, ctx)))
    }
}

/// `lines` joined with newlines.
pub fn join_lines(lines: &Vec<String>) -> (r: String)
    ensures
        r@ == join(lines@.map_values(|l: String| l@), seq!['\n']),
{
    let ghost ls = lines@.map_values(|l: String| l@);
    let mut out = String::new();
    let mut i: usize = 0;
    while i < lines.len()
        invariant
            i <= lines.len(),
            ls == lines@.map_values(|l: String| l@),
            out@ == join(ls.take(i as int), seq!['\n']),
        decreases lines.len() - i,
    {
        if i > 0 {
            string_push(&mut out, '\n');
        }
        out.append(lines[i].as_str());
        assert(ls.take(i + 1).drop_last() =~= ls.take(i as int));
        assert(ls.take(i + 1).last() == lines@[i as int]@);
        i = i + 1;
    }
    assert(ls.take(lines.len() as int) =~= ls);
    out
}

/// Add `more` at the end of `v`.
fn extend_lines(v: &mut Vec<String>, more: Vec<String>)
    ensures
        final(v)@.map_values(|l: String| l@) == old(v)@.map_values(|l: String| l@) + more@.map_values(
            |l: String| l@,
        ),
{
    let ghost start = v@.map_values(|l: String| l@);
    let mut i: usize = 0;
    while i < more.len()
        invariant
            i <= more.len(),
            start == old(v)@.map_values(|l: String| l@),
            v@.map_values(|l: String| l@) == start + more@.map_values(|l: String| l@).take(i as int),
        decreases more.len() - i,
    {
        let t = more[i].clone();
        let ghost prev = v@;
        v.push(t);
        assert(v@ == prev.push(t));
        assert(v@.map_values(|l: String| l@) =~= prev.map_values(|l: String| l@).push(t@));
        assert(more@.map_values(|l: String| l@).take(i + 1) =~= more@.map_values(|l: String| l@).take(
            i as int,
        ).push(more@[i as int]@));
        i = i + 1;
    }
    assert(more@.map_values(|l: String| l@).take(more.len() as int) =~= more@.map_values(|l: String| l@));
}

/// Read one raw line of `rg --heading --null` output; a group that the line
/// closes is handed out as its path and lines.
pub fn rg_heading_step(state: &mut RgHeadingState, line: &str) -> (r: Option<(String, Vec<String>)>)
    ensures
        final(state).view_of() == heading_step(old(state).view_of(), line@).0,
        r is Some == heading_step(old(state).view_of(), line@).1 is Some,
        r matches Some((p, ls)) ==> heading_step(old(state).view_of(), line@).1 == Some(
            (p@, ls@.map_values(|l: String| l@)),
        ),
{
    let s = to_chars(line);
    if state.current_path.unicode_len() == 0 {
        match find_nul(&s) {
            Some(z) => {
                let head = chars_between(&s, 0, z);
                let rest = chars_between(&s, z + 1, s.len());
                let mut full = state.path_buffer.clone();
                full.append(head.as_str());
                state.path_buffer = String::new();
                let conv = ansi_lines(full.as_str());
                state.current_path = heading_path(conv, full);
                if rest.unicode_len() > 0 {
                    let conv = ansi_lines(rest.as_str());
                    let more = heading_lines(conv, rest);
                    extend_lines(&mut state.context, more);
                }
                None
            },
            None => {
                state.path_buffer.append(line);
                string_push(&mut state.path_buffer, '\n');
                None
            },
        }
    } else if s.len() == 0 {
        let p = state.current_path.clone();
        let mut ctx: Vec<String> = Vec::new();
        std::mem::swap(&mut ctx, &mut state.context);
        state.current_path = String::new();
        assert(state.context@.map_values(|l: String| l@) =~= Seq::<Seq<char>>::empty());
        Some((p, ctx))
    } else {
        let conv = ansi_lines(line);
        let more = heading_lines(conv, line.to_string());
        extend_lines(&mut state.context, more);
        None
    }
}

/// The path of a `--heading` group from the styled lines `conv` of its raw
/// path `full`: those lines joined by newlines, or `full` itself where the
/// styles could not be read.
pub fn heading_path(conv: Option<Vec<String>>, full: String) -> (p: String)
    ensures
        p@ == match conv {
            Some(v) => join(v@.map_values(|l: String| l@), seq!['\n']),
            None => full@,
        },
{
    match conv {
        Some(v) => join_lines(&v),
        None => full,
    }
}

/// The lines that the raw text `raw` adds to a `--heading` group, from its
/// styled lines `conv`: those lines, or `raw` itself where the styles could
/// not be read.
pub fn heading_lines(conv: Option<Vec<String>>, raw: String) -> (ls: Vec<String>)
    ensures
        ls@.map_values(|l: String| l@) == match conv {
            Some(v) => v@.map_values(|l: String| l@),
            None => seq![raw@],
        },
{
    match conv {
        Some(v) => v,
        None => {
            let ls = vec![raw];
            assert(ls@.map_values(|l: String| l@) =~= seq![ls@[0]@]);
            ls
        },
    }
}

/// The end of the `rg --heading --null` stream: the open group, if any, is
/// handed out.
pub fn rg_heading_flush(state: &mut RgHeadingState) -> (r: Option<(String, Vec<String>)>)
    ensures
        final(state).view_of() == heading_flush(old(state).view_of()).0,
        r is Some == heading_flush(old(state).view_of()).1 is Some,
        r matches Some((p, ls)) ==> heading_flush(old(state).view_of()).1 == Some(
            (p@, ls@.map_values(|l: String| l@)),
        ),
{
    let mut ctx: Vec<String> = Vec::new();
    std::mem::swap(&mut ctx, &mut state.context);
    assert(state.context@.map_values(|l: String| l@) =~= Seq::<Seq<char>>::empty());
    if state.current_path.unicode_len() == 0 {
        state.path_buffer = String::new();
        None
    } else {
        let p = state.current_path.clone();
        state.current_path = String::new();
        Some((p, ctx))
    }
}

/// The line and column of the first match among the lines of a `--heading`
/// group, from `i` on.
pub open spec fn first_match_loc(ls: Seq<Seq<char>>, i: int, no_column: bool) -> Option<(usize, usize)>
    decreases ls.len() - i,
{
    if 0 <= i < ls.len() {
        let k = loc_len(ls[i], no_column);
        if k > 0 && ls[i][k - 1] == ':' {
            loc_fits(ls[i].subrange(0, k))
        } else {
            first_match_loc(ls, i + 1, no_column)
        }
    } else {
        None
    }
}

/// The length of the location prefix that starts `rest`.
fn loc_prefix_len(rest: &Vec<char>, no_column: bool) -> (k: usize)
    ensures
        k == loc_len(rest@, no_column),
        k <= rest.len(),
{
    let a = scan_digits(rest, 0);
    if a == 0 || a >= rest.len() {
        0
    } else if rest[a] == '-' {
        a + 1
    } else if rest[a] == ':' {
        let b = scan_digits(rest, a + 1);
        if !no_column && b > a + 1 && b < rest.len() && rest[b] == ':' {
            b + 1
        } else {
            a + 1
        }
    } else {
        0
    }
}

/// A `--heading` group as the Search pane shows it: its file made absolute
/// below `cwd`, the location of its first match, and all its lines.
pub fn rg_heading_hit(group: (String, Vec<String>), cwd: &str, no_column: bool) -> (h: RgHit)
    ensures
        h.path@ == abs_path(group.0@, cwd@),
        h.loc == first_match_loc(group.1@.map_values(|l: String| l@), 0, no_column),
        h.lines@ == group.1@,
{
    let (path, lines) = group;
    let ghost ls = lines@.map_values(|l: String| l@);
    let mut loc: Option<(usize, usize)> = None;
    let mut i: usize = 0;
    while i < lines.len()
        invariant_except_break
            loc is None,
        invariant
            i <= lines.len(),
            ls == lines@.map_values(|l: String| l@),
            first_match_loc(ls, 0, no_column) == first_match_loc(ls, i as int, no_column),
        ensures
            loc == first_match_loc(ls, 0, no_column),
        decreases lines.len() - i,
    {
        let c = to_chars(lines[i].as_str());
        assert(c@ == ls[i as int]);
        let k = loc_prefix_len(&c, no_column);
        if k > 0 && c[k - 1] == ':' {
            let l = chars_between(&c, 0, k);
            loc = rg_parse_loc(l.as_str());
            break;
        }
        i = i + 1;
    }
    let abs = path_abs(path.as_str(), cwd);
    RgHit { path: abs, loc, lines }
}

/// A match as plain values: its absolute path, its line and column, and the
/// lines shown with it.
pub type HitView = (Seq<char>, Option<(usize, usize)>, Seq<Seq<char>>);

/// `h` as plain values.
pub open spec fn hit_view(h: RgHit) -> HitView {
    (h.path@, h.loc, h.lines@.map_values(|l: String| l@))
}

/// The match that `rg_hit` makes of the window `buf` at `at`.
pub open spec fn hit_spec(buf: Seq<RgLine>, at: (usize, usize, usize), cwd: Seq<char>) -> HitView {
    (
        abs_path(buf[at.0 as int].path@, cwd),
        loc_fits(buf[at.0 as int].loc@),
        texts_of(buf.subrange(at.1 as int, at.2 as int)),
    )
}

/// The matches still pending in the window `buf`, as `rg_window_flush`
/// lists them.
pub open spec fn pending_hits(buf: Seq<RgLine>, before: usize, after: usize, cwd: Seq<char>) -> Seq<HitView> {
    flush_emits(buf, sat_sub(buf.len() as int, after as int), buf.len() as int, before, after).map_values(
        |t: (usize, usize, usize)| hit_spec(buf, t, cwd),
    )
}

/// The reader of `rg --null` output in one-line mode: the window, the path
/// parts kept for the next line, and the settings it was started with.
pub struct RgStream {
    pub buffer: Vec<RgLine>,
    pub path_buffer: String,
    pub before: usize,
    pub after: usize,
    pub no_column: bool,
}

impl RgStream {
    /// A reader with an empty window that gives each match `before` lines
    /// of context before it and `after` after it.
    pub fn new(before: usize, after: usize, no_column: bool) -> (r: Self)
        ensures
            r.buffer@.len() == 0,
            r.path_buffer@.len() == 0,
            r.before == before,
            r.after == after,
            r.no_column == no_column,
    {
        RgStream { buffer: Vec::new(), path_buffer: String::new(), before, after, no_column }
    }

    /// Hand out the matches still in the window and empty it.
    fn flush_hits(&mut self, cwd: &str) -> (hits: Vec<RgHit>)
        ensures
            final(self).buffer@.len() == 0,
            final(self).path_buffer == old(self).path_buffer,
            final(self).before == old(self).before,
            final(self).after == old(self).after,
            final(self).no_column == old(self).no_column,
            hits@.map_values(|h: RgHit| hit_view(h)) == pending_hits(
                old(self).buffer@,
                old(self).before,
                old(self).after,
                cwd@,
            ),
    {
        let ats = rg_window_flush(&self.buffer, self.before, self.after);
        let n = self.buffer.len();
        let ghost buf = self.buffer@;
        let ghost lo = sat_sub(buf.len() as int, self.after as int);
        proof {
            lemma_flush_emits_ranges(buf, lo, n as int, self.before, self.after);
        }
        let mut hits: Vec<RgHit> = Vec::new();
        let mut i: usize = 0;
        while i < ats.len()
            invariant
                i <= ats.len(),
                buf == self.buffer@,
                ats@ == flush_emits(buf, lo, buf.len() as int, self.before, self.after),
                forall|j: int|
                    0 <= j < ats@.len() ==> (#[trigger] ats@[j]).1 <= ats@[j].0 < ats@[j].2 <= buf.len(),
                hits@.map_values(|h: RgHit| hit_view(h)) == ats@.take(i as int).map_values(
                    |t: (usize, usize, usize)| hit_spec(buf, t, cwd@),
                ),
            decreases ats.len() - i,
        {
            let at = ats[i];
            let h = rg_hit(&self.buffer, at, cwd);
            let ghost prev = hits@;
            hits.push(h);
            assert(hits@ == prev.push(h));
            assert(hits@.map_values(|h: RgHit| hit_view(h)) =~= prev.map_values(|h: RgHit| hit_view(h)).push(
                hit_view(h),
            ));
            assert(ats@.take(i + 1).map_values(|t: (usize, usize, usize)| hit_spec(buf, t, cwd@)) =~= ats@.take(
                i as int,
            ).map_values(|t: (usize, usize, usize)| hit_spec(buf, t, cwd@)).push(hit_spec(buf, at, cwd@)));
            i = i + 1;
        }
        assert(ats@.take(ats.len() as int) =~= ats@);
        self.buffer.clear();
        hits
    }

    /// Read one raw line of `rg --null` output and hand out the matches it
    /// completes: the separator `--` flushes the window, a part of a path is
    /// kept, and a line with a path goes into the window (a line that does
    /// not parse is skipped).
    pub fn feed(&mut self, raw: &str, cwd: &str) -> (hits: Vec<RgHit>)
        requires
            window_cap(old(self).before, old(self).after) <= usize::MAX,
        ensures
            final(self).before == old(self).before,
            final(self).after == old(self).after,
            final(self).no_column == old(self).no_column,
            first_nul(raw@, 0) < 0 && raw@ == "--"@ ==> {
                &&& final(self).buffer@.len() == 0
                &&& final(self).path_buffer@ == old(self).path_buffer@
                &&& hits@.map_values(|h: RgHit| hit_view(h)) == pending_hits(
                    old(self).buffer@,
                    old(self).before,
                    old(self).after,
                    cwd@,
                )
            },
            first_nul(raw@, 0) < 0 && raw@ != "--"@ ==> {
                &&& final(self).buffer@ == old(self).buffer@
                &&& final(self).path_buffer@ == old(self).path_buffer@ + raw@ + seq!['\n']
                &&& hits@.len() == 0
            },
            first_nul(raw@, 0) >= 0 ==> final(self).path_buffer@ == Seq::<char>::empty(),
            first_nul(raw@, 0) >= 0 && rg_entry_spec(raw@, old(self).path_buffer@, old(self).no_column) is None
                ==> final(self).buffer@ == old(self).buffer@ && hits@.len() == 0,
            first_nul(raw@, 0) >= 0 && rg_entry_spec(raw@, old(self).path_buffer@, old(self).no_column) is Some
                ==> exists|l: RgLine|
                {
                    &&& rg_entry_spec(raw@, old(self).path_buffer@, old(self).no_column) == Some(
                        (l.path@, l.loc@, l.text@, l.is_match),
                    )
                    &&& final(self).buffer@ == pushed_window(
                        old(self).buffer@,
                        l,
                        window_cap(old(self).before, old(self).after),
                    )
                    &&& hits@.map_values(|h: RgHit| hit_view(h)) == match window_emit(
                        final(self).buffer@,
                        old(self).before,
                        old(self).after,
                    ) {
                        Some(at) => seq![hit_spec(final(self).buffer@, at, cwd@)],
                        None => Seq::empty(),
                    }
                },
    {
        match rg_route(&mut self.path_buffer, raw) {
            RgRoute::Separator => self.flush_hits(cwd),
            RgRoute::PathPart => Vec::new(),
            RgRoute::Entry(prefix) => match rg_entry(raw, prefix.as_str(), self.no_column) {
                None => Vec::new(),
                Some(line) => {
                    let ghost l = line;
                    let mut hits: Vec<RgHit> = Vec::new();
                    match rg_window_push(&mut self.buffer, line, self.before, self.after) {
                        Some(at) => {
                            let n = self.buffer.len();
                            proof {
                                lemma_hit_range(n - 1 - self.after, n as int, self.before, self.after);
                            }
                            let h = rg_hit(&self.buffer, at, cwd);
                            hits.push(h);
                            assert(hits@.map_values(|h: RgHit| hit_view(h)) =~= seq![hit_view(h)]);
                        },
                        None => {
                            assert(hits@.map_values(|h: RgHit| hit_view(h)) =~= Seq::<HitView>::empty());
                        },
                    }
                    hits
                },
            },
        }
    }

    /// The end of the stream after `lines_read` lines: with none read, no
    /// match is handed out and the caller toasts that nothing was found
    /// where `toast_on_empty` asks for it; otherwise the matches still in
    /// the window go out.
    pub fn finish(&mut self, cwd: &str, lines_read: usize, toast_on_empty: bool) -> (r: (Vec<RgHit>, bool))
        ensures
            r.1 == (lines_read == 0 && toast_on_empty),
            lines_read == 0 ==> r.0@.len() == 0 && final(self).buffer@ == old(self).buffer@,
            lines_read != 0 ==> final(self).buffer@.len() == 0 && r.0@.map_values(|h: RgHit| hit_view(h))
                == pending_hits(old(self).buffer@, old(self).before, old(self).after, cwd@),
    {
        if lines_read == 0 {
            (Vec::new(), toast_on_empty)
        } else {
            (self.flush_hits(cwd), false)
        }
    }
}

/// Each range that the flush lists lies in the window around its match.
proof fn lemma_flush_emits_ranges(s: Seq<RgLine>, lo: int, hi: int, before: usize, after: usize)
    requires
        0 <= lo,
        hi <= s.len() <= usize::MAX,
    ensures
        forall|j: int|
            0 <= j < flush_emits(s, lo, hi, before, after).len() ==> (#[trigger] flush_emits(
                s,
                lo,
                hi,
                before,
                after,
            )[j]).1 <= flush_emits(s, lo, hi, before, after)[j].0 < flush_emits(s, lo, hi, before, after)[j].2
                <= s.len(),
    decreases hi - lo,
{
    if hi > lo {
        lemma_flush_emits_ranges(s, lo, hi - 1, before, after);
        lemma_hit_range(hi - 1, s.len() as int, before, after);
        let rest = flush_emits(s, lo, hi - 1, before, after);
        let all = flush_emits(s, lo, hi, before, after);
        assert forall|j: int| 0 <= j < all.len() implies (#[trigger] all[j]).1 <= all[j].0 < all[j].2 <= s.len() by {
            if j < rest.len() {
                assert(all[j] == rest[j]);
            }
        }
    }
}

/// The range around a match at `mid` of a window of `len` lines holds it.
proof fn lemma_hit_range(mid: int, len: int, before: usize, after: usize)
    requires
        0 <= mid < len <= usize::MAX,
    ensures
        hit_range(mid, len, before, after).1 <= hit_range(mid, len, before, after).0 < hit_range(
            mid,
            len,
            before,
            after,
        ).2 <= len,
        hit_range(mid, len, before, after).0 == mid,
{
}

/// The window after `lines` went one by one into an empty window.
pub open spec fn fed_window(lines: Seq<RgLine>, cap: int) -> Seq<RgLine>
    decreases lines.len(),
{
    if lines.len() == 0 {
        Seq::empty()
    } else {
        pushed_window(fed_window(lines.drop_last(), cap), lines.last(), cap)
    }
}

/// The last `cap` lines of `lines` (all of them where there are fewer).
pub open spec fn last_lines(lines: Seq<RgLine>, cap: int) -> Seq<RgLine> {
    lines.subrange(sat_sub(lines.len() as int, cap), lines.len() as int)
}

/// A window fed line by line holds the last `before + after + 1` lines of
/// the stream.
pub proof fn lemma_fed_window_is_last(lines: Seq<RgLine>, cap: int)
    requires
        cap >= 1,
    ensures
        fed_window(lines, cap) == last_lines(lines, cap),
    decreases lines.len(),
{
    if lines.len() > 0 {
        let prev = lines.drop_last();
        lemma_fed_window_is_last(prev, cap);
        assert(fed_window(lines, cap) =~= last_lines(lines, cap));
    }
}

/// The stream indices of the matches among `lines` from `lo` up to `hi`.
pub open spec fn match_indices(lines: Seq<RgLine>, lo: int, hi: int) -> Seq<int>
    decreases hi - lo,
{
    if hi <= lo {
        Seq::empty()
    } else if lines[hi - 1].is_match {
        match_indices(lines, lo, hi - 1).push(hi - 1)
    } else {
        match_indices(lines, lo, hi - 1)
    }
}

/// The push that brings the stream to `lines` hands out exactly the line
/// `after` lines before the newest, where it is a match, with the lines of
/// the stream from `before` lines before it to the newest as its context.
pub proof fn lemma_push_hands_out_stream_match(lines: Seq<RgLine>, before: usize, after: usize)
    requires
        window_cap(before, after) <= usize::MAX,
        lines.len() <= usize::MAX,
    ensures
        ({
            let w = last_lines(lines, window_cap(before, after));
            let k = lines.len() - 1 - after;
            &&& window_emit(w, before, after) is Some <==> (lines.len() > after && lines[k].is_match)
            &&& window_emit(w, before, after) matches Some(at) ==> {
                &&& w[at.0 as int] == lines[k]
                &&& w.subrange(at.1 as int, at.2 as int) == lines.subrange(sat_sub(k, before as int), lines.len() as int)
            }
        }),
{
    let cap = window_cap(before, after);
    let w = last_lines(lines, cap);
    let n = lines.len() as int;
    let off = sat_sub(n, cap);
    assert(w.len() == n - off);
    if n > after {
        let k = n - 1 - after;
        let mid = w.len() - 1 - after;
        assert(mid + off == k);
        assert(w[mid] == lines[k]);
        if lines[k].is_match {
            lemma_hit_range(mid, w.len() as int, before, after);
            let at = hit_range(mid, w.len() as int, before, after);
            assert(w.subrange(at.1 as int, at.2 as int) =~= lines.subrange(sat_sub(k, before as int), n));
        }
    }
}

/// The flush at the end of the stream hands out exactly the matches among
/// the last `after` lines of the stream, in order, each with the lines of
/// the stream from `before` lines before it to the end as its context.
pub proof fn lemma_flush_hands_out_last_matches(lines: Seq<RgLine>, before: usize, after: usize)
    requires
        window_cap(before, after) <= usize::MAX,
        lines.len() <= usize::MAX,
    ensures
        ({
            let w = last_lines(lines, window_cap(before, after));
            let n = lines.len() as int;
            let f = flush_emits(w, sat_sub(w.len() as int, after as int), w.len() as int, before, after);
            let off = n - w.len();
            &&& f.map_values(|t: (usize, usize, usize)| t.0 + off) == match_indices(lines, sat_sub(n, after as int), n)
            &&& forall|j: int| 0 <= j < f.len() ==> {
                &&& w[(#[trigger] f[j]).0 as int] == lines[f[j].0 + off]
                &&& w.subrange(f[j].1 as int, f[j].2 as int) == lines.subrange(
                    sat_sub(f[j].0 + off, before as int),
                    n,
                )
            }
        }),
{
    let cap = window_cap(before, after);
    let w = last_lines(lines, cap);
    let n = lines.len() as int;
    let off = n - w.len();
    lemma_flush_matches(lines, w, off, sat_sub(w.len() as int, after as int), w.len() as int, before, after);
}

/// The flush from `lo` to `hi` over the window `w`, which is `lines` from
/// `off` on, lists the stream's matches from `lo + off` to `hi + off`.
proof fn lemma_flush_matches(
    lines: Seq<RgLine>,
    w: Seq<RgLine>,
    off: int,
    lo: int,
    hi: int,
    before: usize,
    after: usize,
)
    requires
        window_cap(before, after) <= usize::MAX,
        lines.len() <= usize::MAX,
        w == last_lines(lines, window_cap(before, after)),
        off == lines.len() - w.len(),
        lo == sat_sub(w.len() as int, after as int),
        lo <= hi <= w.len(),
    ensures
        ({
            let f = flush_emits(w, lo, hi, before, after);
            &&& f.map_values(|t: (usize, usize, usize)| t.0 + off) == match_indices(lines, lo + off, hi + off)
            &&& forall|j: int| 0 <= j < f.len() ==> {
                &&& w[(#[trigger] f[j]).0 as int] == lines[f[j].0 + off]
                &&& w.subrange(f[j].1 as int, f[j].2 as int) == lines.subrange(
                    sat_sub(f[j].0 + off, before as int),
                    lines.len() as int,
                )
            }
        }),
    decreases hi - lo,
{
    let n = lines.len() as int;
    let cap = window_cap(before, after);
    assert(sat_sub(n, cap) == off);
    if hi > lo {
        lemma_flush_matches(lines, w, off, lo, hi - 1, before, after);
        let rest = flush_emits(w, lo, hi - 1, before, after);
        let f = flush_emits(w, lo, hi, before, after);
        let m = hi - 1;
        assert(w[m] == lines[m + off]);
        lemma_hit_range(m, w.len() as int, before, after);
        let t = hit_range(m, w.len() as int, before, after);
        if w[m].is_match {
            assert(f == rest.push(t));
            assert(w.subrange(t.1 as int, t.2 as int) =~= lines.subrange(sat_sub(m + off, before as int), n));
            assert(f.map_values(|t: (usize, usize, usize)| t.0 + off) =~= rest.map_values(
                |t: (usize, usize, usize)| t.0 + off,
            ).push(m + off));
            assert forall|j: int| 0 <= j < f.len() implies {
                &&& w[(#[trigger] f[j]).0 as int] == lines[f[j].0 + off]
                &&& w.subrange(f[j].1 as int, f[j].2 as int) == lines.subrange(sat_sub(f[j].0 + off, before as int), n)
            } by {
                if j < rest.len() {
                    assert(f[j] == rest[j]);
                }
            }
        }
    }
}

} // verus!
