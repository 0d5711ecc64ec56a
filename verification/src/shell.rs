//! Shell integration text: the default widget key bindings, nushell key
//! parsing, the nushell keybinding block, and the tag filter that keeps the
//! lines of a script meant for one shell.

use vstd::prelude::*;
use crate::chars::{
    all_ws, char_is_ws, chars_all_ws, find2, find_pair, is_ws, join, join_chars, lemma_split_nonempty,
    lemma_split_step, lemma_trim_empty, lemma_trim_start_at, split_on, trim, trim_chars, trim_end,
    trim_start,
};
use crate::text::{chars_eq, from_chars, str_eq, to_chars};

verus! {

/// Whether the shell tag names fish or bash.
pub open spec fn is_fish_or_bash(shell: Seq<char>) -> bool {
    shell == "fish"@ || shell == "bash"@
}

/// Whether the shell tag names nushell.
pub open spec fn is_nushell(shell: Seq<char>) -> bool {
    shell == "nu"@ || shell == "nushell"@
}

/// The default binding of the directory widget: shift+left.
pub fn default_dir_widget_bind(shell: &str) -> (b: &'static str)
    ensures
        b@ == (if is_fish_or_bash(shell@) {
            "\\e[1;2D"@
        } else if is_nushell(shell@) {
            "shift+left"@
        } else {
            "^[[1;2D"@
        }),
{
    if str_eq(shell, "fish") || str_eq(shell, "bash") {
        "\\e[1;2D"
    } else if str_eq(shell, "nu") || str_eq(shell, "nushell") {
        "shift+left"
    } else {
        "^[[1;2D"
    }
}

/// The default binding of the file widget: shift+right.
pub fn default_file_widget_bind(shell: &str) -> (b: &'static str)
    ensures
        b@ == (if is_fish_or_bash(shell@) {
            "\\e[1;2C"@
        } else if is_nushell(shell@) {
            "shift+right"@
        } else {
            "^[[1;2C"@
        }),
{
    if str_eq(shell, "fish") || str_eq(shell, "bash") {
        "\\e[1;2C"
    } else if str_eq(shell, "nu") || str_eq(shell, "nushell") {
        "shift+right"
    } else {
        "^[[1;2C"
    }
}

/// The default binding of the grep widget: shift+down.
pub fn default_rg_widget_bind(shell: &str) -> (b: &'static str)
    ensures
        b@ == (if is_fish_or_bash(shell@) {
            "\\e[1;2B"@
        } else if is_nushell(shell@) {
            "shift+down"@
        } else {
            "^[[1;2B"@
        }),
{
    if str_eq(shell, "fish") || str_eq(shell, "bash") {
        "\\e[1;2B"
    } else if str_eq(shell, "nu") || str_eq(shell, "nushell") {
        "shift+down"
    } else {
        "^[[1;2B"
    }
}

/// A character vector's deep view is its view.
proof fn lemma_chars_deep(w: Vec<char>)
    ensures
        w.deep_view() == w@,
{
    assert(w.deep_view() =~= w@);
}

/// A copy of `v`.
fn copy_chars(v: &[char]) -> (r: Vec<char>)
    ensures
        r@ == v@,
{
    let mut r: Vec<char> = Vec::new();
    let mut i: usize = 0;
    while i < v.len()
        invariant
            i <= v@.len(),
            r@ == v@.subrange(0, i as int),
        decreases v@.len() - i,
    {
        r.push(v[i]);
        assert(r@ =~= v@.subrange(0, i + 1));
        i = i + 1;
    }
    assert(v@.subrange(0, v@.len() as int) =~= v@);
    r
}

/// The pieces of `s` between the occurrences of `sep`.
pub fn split_chars(s: &[char], sep: char) -> (r: Vec<Vec<char>>)
    ensures
        r.deep_view() == split_on(s@, sep),
{
    let mut done: Vec<Vec<char>> = Vec::new();
    let mut cur: Vec<char> = Vec::new();
    let mut i: usize = 0;
    assert(s@.take(0) =~= Seq::<char>::empty());
    assert(done.deep_view().push(cur@) =~= split_on(s@.take(0), sep));
    while i < s.len()
        invariant
            i <= s@.len(),
            done.deep_view().push(cur@) == split_on(s@.take(i as int), sep),
        decreases s@.len() - i,
    {
        proof {
            lemma_split_step(s@, i as int, sep);
        }
        let ghost before = done.deep_view();
        if s[i] == sep {
            let piece = cur;
            proof { lemma_chars_deep(piece); }
            done.push(piece);
            cur = Vec::new();
            assert(done.deep_view() =~= before.push(piece@));
            assert(done.deep_view().push(cur@) =~= before.push(piece@).push(Seq::empty()));
        } else {
            let ghost c0 = cur@;
            cur.push(s[i]);
            assert(done.deep_view().push(cur@) =~= before.push(c0).update(before.len() as int, c0.push(s@[i as int])));
        }
        i = i + 1;
    }
    assert(s@.take(s@.len() as int) =~= s@);
    let ghost before = done.deep_view();
    proof { lemma_chars_deep(cur); }
    done.push(cur);
    assert(done.deep_view() =~= before.push(cur@));
    done
}

/// The trimmed pieces that are not empty, in order.
pub open spec fn key_parts(pieces: Seq<Seq<char>>) -> Seq<Seq<char>>
    decreases pieces.len(),
{
    if pieces.len() == 0 {
        Seq::empty()
    } else {
        let r = key_parts(pieces.drop_last());
        let t = trim(pieces.last());
        if t.len() > 0 {
            r.push(t)
        } else {
            r
        }
    }
}

/// A nushell key `mod+...+key`: the key, and the modifier (`none`, the one
/// modifier, or the modifiers in brackets separated by spaces); `None`
/// when there is no part.
pub open spec fn nushell_key_spec(raw: Seq<char>) -> Option<(Seq<char>, Seq<char>)> {
    let parts = key_parts(split_on(trim(raw), '+'));
    if parts.len() == 0 {
        None
    } else {
        let m = if parts.len() == 1 {
            "none"@
        } else if parts.len() == 2 {
            parts[0]
        } else {
            "["@ + join(parts.drop_last(), " "@) + "]"@
        };
        Some((m, parts.last()))
    }
}

/// Parses a key of the form `shift+left` into its nushell modifier and
/// keycode: `("shift", "left")`, `("[control shift]", "down")` for several
/// modifiers, `("none", "f1")` for none.
pub fn parse_nushell_key(raw: &str) -> (r: Option<(String, String)>)
    ensures
        match nushell_key_spec(raw@) {
            Some((m, k)) => r matches Some((rm, rk)) && rm@ == m && rk@ == k,
            None => r is None,
        },
{
    let chars = to_chars(raw);
    let t = trim_chars(&chars);
    let pieces = split_chars(&t, '+');
    let ghost pv = pieces.deep_view();
    let mut parts: Vec<Vec<char>> = Vec::new();
    let mut i: usize = 0;
    assert(pv.take(0) =~= Seq::<Seq<char>>::empty());
    while i < pieces.len()
        invariant
            pv == pieces.deep_view(),
            i <= pieces@.len(),
            parts.deep_view() == key_parts(pv.take(i as int)),
        decreases pieces@.len() - i,
    {
        assert(pv.take(i + 1).drop_last() =~= pv.take(i as int));
        assert(pv.take(i + 1).last() == pieces@[i as int]@);
        let p = trim_chars(&pieces[i]);
        if p.len() > 0 {
            let ghost before = parts.deep_view();
            proof { lemma_chars_deep(p); }
            parts.push(p);
            assert(parts.deep_view() =~= before.push(p@));
        }
        i = i + 1;
    }
    assert(pv.take(pieces@.len() as int) =~= pv);
    let n = parts.len();
    if n == 0 {
        return None;
    }
    let key = from_chars(&parts[n - 1]);
    assert(parts.deep_view().last() == parts@[n - 1]@);
    let m = if n == 1 {
        proof {
            reveal_strlit("none");
        }
        "none".to_string()
    } else if n == 2 {
        from_chars(&parts[0])
    } else {
        let mut init: Vec<Vec<char>> = Vec::new();
        let mut k: usize = 0;
        while k < n - 1
            invariant
                n == parts@.len(),
                k <= n - 1,
                init.deep_view() == parts.deep_view().take(k as int),
            decreases n - 1 - k,
        {
            let ghost before = init.deep_view();
            let w = copy_chars(&parts[k]);
            proof {
                lemma_chars_deep(w);
                lemma_chars_deep(parts@[k as int]);
            }
            init.push(w);
            assert(init.deep_view() =~= before.push(w@));
            assert(parts.deep_view()[k as int] == parts@[k as int].deep_view());
            assert(parts.deep_view().take(k + 1) =~= parts.deep_view().take(k as int).push(parts.deep_view()[k as int]));
            assert(init.deep_view() =~= parts.deep_view().take(k + 1));
            k = k + 1;
        }
        assert(parts.deep_view().take((n - 1) as int) =~= parts.deep_view().drop_last());
        let sep = to_chars(" ");
        let inner = join_chars(&init, &sep);
        let mut all: Vec<char> = Vec::new();
        all.push('[');
        let mut j: usize = 0;
        while j < inner.len()
            invariant
                j <= inner@.len(),
                all@ == seq!['['] + inner@.subrange(0, j as int),
            decreases inner@.len() - j,
        {
            all.push(inner[j]);
            assert(all@ =~= seq!['['] + inner@.subrange(0, j + 1));
            j = j + 1;
        }
        all.push(']');
        proof {
            reveal_strlit("[");
            reveal_strlit("]");
            assert(inner@.subrange(0, inner@.len() as int) =~= inner@);
        }
        assert(all@ =~= "["@ + inner@ + "]"@);
        from_chars(&all)
    };
    Some((m, key))
}

} // verus!

verus! {

/// The leading run of non-whitespace characters of `s`.
pub open spec fn take_word(s: Seq<char>) -> Seq<char>
    decreases s.len(),
{
    if s.len() == 0 || is_ws(s[0]) {
        Seq::empty()
    } else {
        seq![s[0]] + take_word(s.drop_first())
    }
}

/// The first whitespace-separated word of `s` (empty if there is none).
pub open spec fn first_word(s: Seq<char>) -> Seq<char> {
    take_word(trim_start(s))
}

/// Whether the directive text `after` names `tag`: its first word, split
/// at commas, has a piece equal to `tag`.
pub open spec fn tag_matches(after: Seq<char>, tag: Seq<char>) -> bool {
    split_on(first_word(after), ',').contains(tag)
}

/// With non-whitespace before `b` and whitespace (or the end) at `b`, the
/// leading word is the prefix up to `b`.
proof fn lemma_take_word_at(s: Seq<char>, b: int)
    requires
        0 <= b <= s.len(),
        forall|i: int| 0 <= i < b ==> !is_ws(#[trigger] s[i]),
        b < s.len() ==> is_ws(s[b]),
    ensures
        take_word(s) == s.subrange(0, b),
    decreases b,
{
    if b == 0 {
        assert(s.subrange(0, 0) =~= Seq::<char>::empty());
    } else {
        let t = s.drop_first();
        assert forall|i: int| 0 <= i < b - 1 implies !is_ws(#[trigger] t[i]) by {
            assert(t[i] == s[i + 1]);
        }
        if b - 1 < t.len() {
            assert(t[b - 1] == s[b]);
        }
        lemma_take_word_at(t, b - 1);
        assert(seq![s[0]] + t.subrange(0, b - 1) =~= s.subrange(0, b));
    }
}

/// The first word of `s`.
fn first_word_chars(s: &[char]) -> (r: Vec<char>)
    ensures
        r@ == first_word(s@),
{
    let n = s.len();
    let mut a: usize = 0;
    while a < n && char_is_ws(s[a])
        invariant
            n == s@.len(),
            a <= n,
            forall|i: int| 0 <= i < a ==> is_ws(#[trigger] s@[i]),
        decreases n - a,
    {
        a = a + 1;
    }
    proof {
        lemma_trim_start_at(s@, a as int);
    }
    let mut r: Vec<char> = Vec::new();
    let mut b: usize = a;
    while b < n && !char_is_ws(s[b])
        invariant
            n == s@.len(),
            a <= b <= n,
            forall|i: int| a <= i < b ==> !is_ws(#[trigger] s@[i]),
            r@ == s@.subrange(a as int, b as int),
        decreases n - b,
    {
        r.push(s[b]);
        assert(r@ =~= s@.subrange(a as int, b + 1));
        b = b + 1;
    }
    let ghost t = s@.subrange(a as int, n as int);
    proof {
        assert forall|i: int| 0 <= i < b - a implies !is_ws(#[trigger] t[i]) by {
            assert(t[i] == s@[a + i]);
        }
        if b < n {
            assert(t[b - a] == s@[b as int]);
        }
        lemma_take_word_at(t, b - a);
        assert(t.subrange(0, b - a) =~= s@.subrange(a as int, b as int));
    }
    r
}

/// Whether the directive text `after` names `tag`.
fn tag_matches_chars(after: &[char], tag: &[char]) -> (b: bool)
    ensures
        b == tag_matches(after@, tag@),
{
    let w = first_word_chars(after);
    let pieces = split_chars(&w, ',');
    let mut i: usize = 0;
    while i < pieces.len()
        invariant
            i <= pieces@.len(),
            pieces.deep_view() == split_on(w@, ','),
            w@ == first_word(after@),
            forall|j: int| 0 <= j < i ==> pieces.deep_view()[j] != tag@,
        decreases pieces@.len() - i,
    {
        assert(pieces.deep_view()[i as int] == pieces@[i as int].deep_view());
        proof {
            lemma_chars_deep(pieces@[i as int]);
        }
        if chars_eq(&pieces[i], tag) {
            assert(split_on(w@, ',')[i as int] == tag@);
            assert(split_on(w@, ',').contains(tag@));
            return true;
        }
        i = i + 1;
    }
    false
}

/// `s` without a final carriage return.
pub open spec fn strip_cr(s: Seq<char>) -> Seq<char> {
    if s.len() > 0 && s.last() == '\r' {
        s.drop_last()
    } else {
        s
    }
}

/// The lines of `s`: the pieces between newlines, those ended by a newline
/// without a final carriage return.
pub open spec fn text_lines(s: Seq<char>) -> Seq<Seq<char>> {
    let p = split_on(s, '\n');
    p.drop_last().map_values(|l: Seq<char>| strip_cr(l)).push(p.last())
}

/// One line of the tag filter, from the hiding state and the kept lines.
///
/// Empty lines are dropped. A line whose text before `#:` is blank is a
/// directive: a bare `#:` shows what follows, `#: tags` hides what follows
/// unless its first word names the tag. A line with text before `#:` is
/// kept, trimmed at its end, when shown and naming the tag. A comment line
/// (blank before `# `) is dropped; any other line is kept when shown.
pub open spec fn filter_step(st: (bool, Seq<Seq<char>>), line: Seq<char>, tag: Seq<char>) -> (bool, Seq<
    Seq<char>,
>) {
    let hidden = st.0;
    let out = st.1;
    if line.len() == 0 {
        st
    } else {
        let idx = find2(line, '#', ':');
        if idx >= 0 {
            let before = line.subrange(0, idx);
            let after = line.subrange(idx + 2, line.len() as int);
            if all_ws(before) {
                if after.len() == 0 {
                    (false, out)
                } else {
                    (!tag_matches(after, tag), out)
                }
            } else if hidden {
                st
            } else if tag_matches(after, tag) {
                (hidden, out.push(trim_end(before)))
            } else {
                st
            }
        } else {
            let j = find2(line, '#', ' ');
            if j >= 0 && all_ws(line.subrange(0, j)) {
                st
            } else if !hidden {
                (hidden, out.push(line))
            } else {
                st
            }
        }
    }
}

/// The tag filter over `lines`, from showing and nothing kept.
pub open spec fn filter_fold(lines: Seq<Seq<char>>, tag: Seq<char>) -> (bool, Seq<Seq<char>>)
    decreases lines.len(),
{
    if lines.len() == 0 {
        (false, Seq::empty())
    } else {
        filter_step(filter_fold(lines.drop_last(), tag), lines.last(), tag)
    }
}

/// The lines of `content` meant for the shell `tag`, joined by newlines.
pub open spec fn filter_by_tag_spec(content: Seq<char>, tag: Seq<char>) -> Seq<char> {
    join(filter_fold(text_lines(content), tag).1, "\n"@)
}

/// `s` without its trailing whitespace.
fn trim_end_chars(s: &[char]) -> (r: Vec<char>)
    ensures
        r@ == trim_end(s@),
{
    let n = s.len();
    let mut b: usize = n;
    while b > 0 && char_is_ws(s[b - 1])
        invariant
            n == s@.len(),
            b <= n,
            forall|i: int| b <= i < n ==> is_ws(#[trigger] s@[i]),
        decreases b,
    {
        b = b - 1;
    }
    proof {
        crate::chars::lemma_trim_end_at(s@, b as int);
    }
    let r = slice_chars(s, 0, b);
    r
}

/// The characters of `s` from `a` up to `b`.
fn slice_chars(s: &[char], a: usize, b: usize) -> (r: Vec<char>)
    requires
        a <= b <= s@.len(),
    ensures
        r@ == s@.subrange(a as int, b as int),
{
    let mut r: Vec<char> = Vec::new();
    let mut k: usize = a;
    while k < b
        invariant
            a <= k <= b <= s@.len(),
            r@ == s@.subrange(a as int, k as int),
        decreases b - k,
    {
        r.push(s[k]);
        assert(r@ =~= s@.subrange(a as int, k + 1));
        k = k + 1;
    }
    r
}

/// One step of the tag filter; returns the new hiding state.
fn filter_step_exec(hidden: bool, out: &mut Vec<Vec<char>>, line: &[char], tag: &[char]) -> (h: bool)
    ensures
        (h, final(out).deep_view()) == filter_step((hidden, old(out).deep_view()), line@, tag@),
{
    if line.len() == 0 {
        return hidden;
    }
    match find_pair(line, '#', ':') {
        Some(idx) => {
            let before = slice_chars(line, 0, idx);
            let after = slice_chars(line, idx + 2, line.len());
            if chars_all_ws(&before) {
                if after.len() == 0 {
                    false
                } else {
                    !tag_matches_chars(&after, tag)
                }
            } else if hidden {
                hidden
            } else if tag_matches_chars(&after, tag) {
                let kept = trim_end_chars(&before);
                let ghost b0 = out.deep_view();
                proof {
                    lemma_chars_deep(kept);
                }
                out.push(kept);
                assert(out.deep_view() =~= b0.push(kept@));
                hidden
            } else {
                hidden
            }
        },
        None => {
            let comment = match find_pair(line, '#', ' ') {
                Some(j) => {
                    let head = slice_chars(line, 0, j);
                    chars_all_ws(&head)
                },
                None => false,
            };
            if comment {
                hidden
            } else if !hidden {
                let kept = copy_chars(line);
                let ghost b0 = out.deep_view();
                proof {
                    lemma_chars_deep(kept);
                }
                out.push(kept);
                assert(out.deep_view() =~= b0.push(line@));
                hidden
            } else {
                hidden
            }
        },
    }
}

/// The lines of `content` meant for the shell `tag`: untagged lines, lines
/// ending in `#: tags` that name `tag`, and the lines of `#: tags` blocks
/// that name it; comments and empty lines are dropped.
pub fn filter_by_tag(content: &str, tag: &str) -> (r: String)
    ensures
        r@ == filter_by_tag_spec(content@, tag@),
{
    let s = to_chars(content);
    let t = to_chars(tag);
    let mut hidden = false;
    let mut out: Vec<Vec<char>> = Vec::new();
    let mut cur: Vec<char> = Vec::new();
    let mut i: usize = 0;
    let ghost sv = s@;
    assert(sv.take(0) =~= Seq::<char>::empty());
    proof {
        lemma_split_nonempty(sv.take(0), '\n');
    }
    assert(split_on(sv.take(0), '\n').drop_last().map_values(|l: Seq<char>| strip_cr(l)) =~= Seq::<
        Seq<char>,
    >::empty());
    while i < s.len()
        invariant
            sv == s@,
            i <= s@.len(),
            split_on(sv.take(i as int), '\n').len() >= 1,
            cur@ == split_on(sv.take(i as int), '\n').last(),
            (hidden, out.deep_view()) == filter_fold(
                split_on(sv.take(i as int), '\n').drop_last().map_values(|l: Seq<char>| strip_cr(l)),
                t@,
            ),
        decreases s@.len() - i,
    {
        proof {
            lemma_split_step(sv, i as int, '\n');
        }
        let ghost p0 = split_on(sv.take(i as int), '\n');
        let ghost p1 = split_on(sv.take(i + 1), '\n');
        if s[i] == '\n' {
            let mut line = cur;
            let n = line.len();
            if n > 0 && line[n - 1] == '\r' {
                line.pop();
            }
            assert(line@ == strip_cr(p0.last()));
            hidden = filter_step_exec(hidden, &mut out, &line, &t);
            cur = Vec::new();
            proof {
                assert(p1.drop_last() =~= p0);
                assert(p0 =~= p0.drop_last().push(p0.last()));
                assert(p0.map_values(|l: Seq<char>| strip_cr(l)) =~= p0.drop_last().map_values(
                    |l: Seq<char>| strip_cr(l),
                ).push(strip_cr(p0.last())));
                assert(p0.map_values(|l: Seq<char>| strip_cr(l)).drop_last() =~= p0.drop_last().map_values(
                    |l: Seq<char>| strip_cr(l),
                ));
            }
        } else {
            cur.push(s[i]);
            proof {
                assert(p1.drop_last() =~= p0.drop_last());
            }
        }
        i = i + 1;
    }
    assert(sv.take(s@.len() as int) =~= sv);
    let ghost p = split_on(sv, '\n');
    hidden = filter_step_exec(hidden, &mut out, &cur, &t);
    proof {
        assert(text_lines(sv).drop_last() =~= p.drop_last().map_values(|l: Seq<char>| strip_cr(l)));
        assert(text_lines(sv).last() == p.last());
    }
    let nl = to_chars("\n");
    let joined = join_chars(&out, &nl);
    from_chars(&joined)
}

} // verus!

verus! {

/// The nushell keybinding record of the widget `name` bound to modifier `m`
/// and keycode `k`.
pub open spec fn nu_entry(name: Seq<char>, m: Seq<char>, k: Seq<char>) -> Seq<char> {
    "            {\n                name: "@ + name + "\n                modifier: "@ + m
        + "\n                keycode: "@ + k
        + "\n                mode: [emacs vi_insert vi_normal]\n                event: {\n                    send: executehostcommand\n                    cmd: \"__"@
        + name + "\"\n                }\n            }"@
}

/// A modifier and keycode as text.
pub open spec fn bind_view(b: Option<(String, String)>) -> Option<(Seq<char>, Seq<char>)> {
    match b {
        Some((m, k)) => Some((m@, k@)),
        None => None,
    }
}

/// The records of the bound widgets, in the order dir, file, grep.
pub open spec fn nu_entries(
    dir_bind: Option<(Seq<char>, Seq<char>)>,
    file_bind: Option<(Seq<char>, Seq<char>)>,
    rg_bind: Option<(Seq<char>, Seq<char>)>,
) -> Seq<Seq<char>> {
    let a = match dir_bind {
        Some((m, k)) => seq![nu_entry("fist_dir_widget"@, m, k)],
        None => Seq::empty(),
    };
    let b = match file_bind {
        Some((m, k)) => seq![nu_entry("fist_file_widget"@, m, k)],
        None => Seq::empty(),
    };
    let c = match rg_bind {
        Some((m, k)) => seq![nu_entry("fist_rg_widget"@, m, k)],
        None => Seq::empty(),
    };
    a + b + c
}

/// The nushell block that appends the widget keybindings to the config;
/// empty when no widget is bound.
pub open spec fn nu_block_spec(entries: Seq<Seq<char>>) -> Seq<char> {
    if entries.len() == 0 {
        Seq::empty()
    } else {
        "export-env {\n    $env.config = (\n        $env.config?\n        | default {}\n        | upsert keybindings { default [] }\n    )\n\n    $env.config.keybindings = (\n        $env.config.keybindings\n        | append [\n"@
            + join(entries, "\n"@) + "\n        ]\n    )\n}"@
    }
}

/// The record of the widget `name`.
fn nu_entry_chars(name: &str, m: &String, k: &String) -> (r: Vec<char>)
    ensures
        r@ == nu_entry(name@, m@, k@),
{
    let mut s = String::new();
    s.append("            {\n                name: ");
    s.append(name);
    s.append("\n                modifier: ");
    s.append(m.as_str());
    s.append("\n                keycode: ");
    s.append(k.as_str());
    s.append(
        "\n                mode: [emacs vi_insert vi_normal]\n                event: {\n                    send: executehostcommand\n                    cmd: \"__",
    );
    s.append(name);
    s.append("\"\n                }\n            }");
    to_chars(s.as_str())
}

/// The nushell keybinding block for the bound widgets (empty when none is).
pub fn generate_nushell_keybindings(
    dir_bind: Option<(String, String)>,
    file_bind: Option<(String, String)>,
    rg_bind: Option<(String, String)>,
) -> (r: String)
    ensures
        r@ == nu_block_spec(nu_entries(bind_view(dir_bind), bind_view(file_bind), bind_view(rg_bind))),
{
    let mut entries: Vec<Vec<char>> = Vec::new();
    let ghost e0 = entries.deep_view();
    match &dir_bind {
        Some((m, k)) => {
            let e = nu_entry_chars("fist_dir_widget", m, k);
            proof {
                lemma_chars_deep(e);
            }
            entries.push(e);
        },
        None => {},
    }
    let ghost e1 = entries.deep_view();
    assert(e1 =~= match dir_bind {
        Some((m, k)) => seq![nu_entry("fist_dir_widget"@, m@, k@)],
        None => Seq::<Seq<char>>::empty(),
    });
    match &file_bind {
        Some((m, k)) => {
            let e = nu_entry_chars("fist_file_widget", m, k);
            proof {
                lemma_chars_deep(e);
            }
            entries.push(e);
            assert(entries.deep_view() =~= e1.push(e@));
        },
        None => {},
    }
    let ghost e2 = entries.deep_view();
    match &rg_bind {
        Some((m, k)) => {
            let e = nu_entry_chars("fist_rg_widget", m, k);
            proof {
                lemma_chars_deep(e);
            }
            entries.push(e);
            assert(entries.deep_view() =~= e2.push(e@));
        },
        None => {},
    }
    assert(entries.deep_view() =~= nu_entries(bind_view(dir_bind), bind_view(file_bind), bind_view(rg_bind)));
    if entries.len() == 0 {
        return String::new();
    }
    let nl = to_chars("\n");
    let body = join_chars(&entries, &nl);
    let mut s = String::new();
    s.append(
        "export-env {\n    $env.config = (\n        $env.config?\n        | default {}\n        | upsert keybindings { default [] }\n    )\n\n    $env.config.keybindings = (\n        $env.config.keybindings\n        | append [\n",
    );
    let b = from_chars(&body);
    s.append(b.as_str());
    s.append("\n        ]\n    )\n}");
    s
}

} // verus!

verus! {

/// The options of the shell integration script.
#[derive(Debug, Clone)]
pub struct ShellCommand {
    pub z_name: String,
    pub z_dot_args: String,
    pub z_slash_args: String,
    pub z_dir_args: String,
    pub open_name: String,
    pub open_cmd: String,
    pub dir_widget_bind: Option<String>,
    pub file_widget_bind: Option<String>,
    pub rg_widget_bind: Option<String>,
    pub file_open_cmd: Option<String>,
    pub rg_open_cmd: Option<String>,
    pub dir_widget_args: String,
    pub file_widget_args: String,
    pub rg_widget_args: String,
    /// Append the aliases script.
    pub aliases: bool,
    pub nav_name: String,
    /// The target shell; the current shell when absent.
    pub shell: Option<String>,
}

/// `s` with each placeholder of `pairs` replaced by its value, in order.
pub open spec fn replace_each(s: Seq<char>, pairs: Seq<(Seq<char>, Seq<char>)>) -> Seq<char>
    decreases pairs.len(),
{
    if pairs.len() == 0 {
        s
    } else {
        crate::chars::replace_all(replace_each(s, pairs.drop_last()), pairs.last().0, pairs.last().1)
    }
}

/// The text of an optional value, or `default`.
pub open spec fn or_text(o: Option<String>, default: Seq<char>) -> Seq<char> {
    match o {
        Some(s) => s@,
        None => default,
    }
}

/// The default binding of a widget for `tag`.
pub open spec fn default_bind(tag: Seq<char>, fish: Seq<char>, nu: Seq<char>, other: Seq<char>) -> Seq<char> {
    if is_fish_or_bash(tag) {
        fish
    } else if is_nushell(tag) {
        nu
    } else {
        other
    }
}

/// The shell tag of a command.
pub open spec fn shell_tag(cmd: ShellCommand, current_shell: Seq<char>) -> Seq<char> {
    or_text(cmd.shell, current_shell)
}

/// The three widget bindings of a command: dir, file, grep.
pub open spec fn shell_binds(cmd: ShellCommand, tag: Seq<char>) -> (Seq<char>, Seq<char>, Seq<char>) {
    (
        or_text(cmd.dir_widget_bind, default_bind(tag, "\\e[1;2D"@, "shift+left"@, "^[[1;2D"@)),
        or_text(cmd.file_widget_bind, default_bind(tag, "\\e[1;2C"@, "shift+right"@, "^[[1;2C"@)),
        or_text(cmd.rg_widget_bind, default_bind(tag, "\\e[1;2B"@, "shift+down"@, "^[[1;2B"@)),
    )
}

/// The placeholders of the script and their values.
pub open spec fn shell_placeholders(cmd: ShellCommand, path: Seq<char>, tag: Seq<char>) -> Seq<(Seq<char>, Seq<char>)> {
    let b = shell_binds(cmd, tag);
    let nu = if is_nushell(tag) {
        nu_block_spec(nu_entries(nushell_key_spec(b.0), nushell_key_spec(b.1), nushell_key_spec(b.2)))
    } else {
        Seq::empty()
    };
    seq![
        ("$${Z_NAME}"@, cmd.z_name@),
        ("$${Z_DOT_ARGS}"@, cmd.z_dot_args@),
        ("$${Z_SLASH_ARGS}"@, cmd.z_slash_args@),
        ("$${Z_DIR_ARGS}"@, cmd.z_dir_args@),
        ("$${OPEN_NAME}"@, cmd.open_name@),
        ("$${OPEN_CMD}"@, cmd.open_cmd@),
        ("$${DIRW_BIND}"@, b.0),
        ("$${FILEW_BIND}"@, b.1),
        ("$${RGW_BIND}"@, b.2),
        ("$${NU_KEYBINDINGS_BLOCK}"@, nu),
        ("$${FILEW_CMD}"@, or_text(cmd.file_open_cmd, cmd.open_cmd@)),
        ("$${RGW_CMD}"@, or_text(cmd.rg_open_cmd, cmd.open_cmd@)),
        ("$${DIRW_ARGS}"@, cmd.dir_widget_args@),
        ("$${FILEW_ARGS}"@, cmd.file_widget_args@),
        ("$${RGW_ARGS}"@, cmd.rg_widget_args@),
        ("$${NAV_NAME}"@, cmd.nav_name@),
        ("$${BINARY_PATH}"@, path),
    ]
}

/// The shell integration script: the part of `script` (and of
/// `aliases_script` with the aliases) meant for the target shell, with its
/// placeholders filled in.
pub open spec fn generate_shell_spec(
    cmd: ShellCommand,
    path: Seq<char>,
    script: Seq<char>,
    aliases_script: Seq<char>,
    current_shell: Seq<char>,
) -> Seq<char> {
    let tag = shell_tag(cmd, current_shell);
    let body = filter_by_tag_spec(script, tag) + (if cmd.aliases {
        "\n\n"@ + filter_by_tag_spec(aliases_script, tag)
    } else {
        Seq::empty()
    });
    replace_each(body, shell_placeholders(cmd, path, tag))
}

/// Fills in each placeholder of `pairs` in order.
fn replace_each_exec(s: String, pairs: &Vec<(String, String)>) -> (r: String)
    requires
        forall|k: int| 0 <= k < pairs@.len() ==> (#[trigger] pairs@[k]).0@.len() > 0,
    ensures
        r@ == replace_each(s@, pairs@.map_values(|p: (String, String)| (p.0@, p.1@))),
{
    let ghost pv = pairs@.map_values(|p: (String, String)| (p.0@, p.1@));
    let mut cur = s;
    let mut i: usize = 0;
    assert(pv.take(0) =~= Seq::<(Seq<char>, Seq<char>)>::empty());
    while i < pairs.len()
        invariant
            pv == pairs@.map_values(|p: (String, String)| (p.0@, p.1@)),
            forall|k: int| 0 <= k < pairs@.len() ==> (#[trigger] pairs@[k]).0@.len() > 0,
            i <= pairs@.len(),
            cur@ == replace_each(s@, pv.take(i as int)),
        decreases pairs@.len() - i,
    {
        assert(pv.take(i + 1).drop_last() =~= pv.take(i as int));
        assert(pv.take(i + 1).last() == pv[i as int]);
        assert(pairs@[i as int].0@.len() > 0);
        cur = crate::chars::replace_str(cur.as_str(), pairs[i].0.as_str(), pairs[i].1.as_str());
        i = i + 1;
    }
    assert(pv.take(pairs@.len() as int) =~= pv);
    cur
}

/// The text of an optional value, or a copy of `default`.
fn or_string(o: &Option<String>, default: &str) -> (s: String)
    ensures
        s@ == or_text(*o, default@),
{
    match o {
        Some(v) => v.clone(),
        None => default.to_owned(),
    }
}

/// Builds the shell integration script from `script` and `aliases_script`
/// for `cmd`; `path` is the binary's path and `current_shell` the shell
/// used when `cmd` names none.
pub fn generate_shell(cmd: &ShellCommand, path: &str, script: &str, aliases_script: &str, current_shell: &str) -> (r: String)
    ensures
        r@ == generate_shell_spec(*cmd, path@, script@, aliases_script@, current_shell@),
{
    let tag = or_string(&cmd.shell, current_shell);
    let mut s = filter_by_tag(script, tag.as_str());
    let ghost f1 = s@;
    if cmd.aliases {
        s.append("\n\n");
        let a = filter_by_tag(aliases_script, tag.as_str());
        s.append(a.as_str());
        assert(s@ =~= f1 + ("\n\n"@ + a@));
    } else {
        assert(s@ =~= f1 + Seq::<char>::empty());
    }
    let dir_bind = or_string(&cmd.dir_widget_bind, default_dir_widget_bind(tag.as_str()));
    let file_bind = or_string(&cmd.file_widget_bind, default_file_widget_bind(tag.as_str()));
    let rg_bind = or_string(&cmd.rg_widget_bind, default_rg_widget_bind(tag.as_str()));
    let nu = if str_eq(tag.as_str(), "nu") || str_eq(tag.as_str(), "nushell") {
        let d = parse_nushell_key(dir_bind.as_str());
        let f = parse_nushell_key(file_bind.as_str());
        let g = parse_nushell_key(rg_bind.as_str());
        proof {
            assert(bind_view(d) == nushell_key_spec(dir_bind@));
            assert(bind_view(f) == nushell_key_spec(file_bind@));
            assert(bind_view(g) == nushell_key_spec(rg_bind@));
        }
        generate_nushell_keybindings(d, f, g)
    } else {
        String::new()
    };
    let mut pairs: Vec<(String, String)> = Vec::new();
    pairs.push(("$${Z_NAME}".to_string(), cmd.z_name.clone()));
    pairs.push(("$${Z_DOT_ARGS}".to_string(), cmd.z_dot_args.clone()));
    pairs.push(("$${Z_SLASH_ARGS}".to_string(), cmd.z_slash_args.clone()));
    pairs.push(("$${Z_DIR_ARGS}".to_string(), cmd.z_dir_args.clone()));
    pairs.push(("$${OPEN_NAME}".to_string(), cmd.open_name.clone()));
    pairs.push(("$${OPEN_CMD}".to_string(), cmd.open_cmd.clone()));
    pairs.push(("$${DIRW_BIND}".to_string(), dir_bind));
    pairs.push(("$${FILEW_BIND}".to_string(), file_bind));
    pairs.push(("$${RGW_BIND}".to_string(), rg_bind));
    pairs.push(("$${NU_KEYBINDINGS_BLOCK}".to_string(), nu));
    pairs.push(("$${FILEW_CMD}".to_string(), or_string(&cmd.file_open_cmd, cmd.open_cmd.as_str())));
    pairs.push(("$${RGW_CMD}".to_string(), or_string(&cmd.rg_open_cmd, cmd.open_cmd.as_str())));
    pairs.push(("$${DIRW_ARGS}".to_string(), cmd.dir_widget_args.clone()));
    pairs.push(("$${FILEW_ARGS}".to_string(), cmd.file_widget_args.clone()));
    pairs.push(("$${RGW_ARGS}".to_string(), cmd.rg_widget_args.clone()));
    pairs.push(("$${NAV_NAME}".to_string(), cmd.nav_name.clone()));
    pairs.push(("$${BINARY_PATH}".to_string(), path.to_owned()));
    proof {
        reveal_strlit("$${Z_NAME}");
        reveal_strlit("$${Z_DOT_ARGS}");
        reveal_strlit("$${Z_SLASH_ARGS}");
        reveal_strlit("$${Z_DIR_ARGS}");
        reveal_strlit("$${OPEN_NAME}");
        reveal_strlit("$${OPEN_CMD}");
        reveal_strlit("$${DIRW_BIND}");
        reveal_strlit("$${FILEW_BIND}");
        reveal_strlit("$${RGW_BIND}");
        reveal_strlit("$${NU_KEYBINDINGS_BLOCK}");
        reveal_strlit("$${FILEW_CMD}");
        reveal_strlit("$${RGW_CMD}");
        reveal_strlit("$${DIRW_ARGS}");
        reveal_strlit("$${FILEW_ARGS}");
        reveal_strlit("$${RGW_ARGS}");
        reveal_strlit("$${NAV_NAME}");
        reveal_strlit("$${BINARY_PATH}");
        assert(pairs@.map_values(|p: (String, String)| (p.0@, p.1@)) =~= shell_placeholders(
            *cmd,
            path@,
            tag@,
        ));
    }
    replace_each_exec(s, &pairs)
}

/// A placeholder: `$${`, a name without `$` or `}`, and `}`.
pub open spec fn is_placeholder(k: Seq<char>) -> bool {
    &&& k.len() >= 4
    &&& k[0] == '$' && k[1] == '$' && k[2] == '{' && k[k.len() - 1] == '}'
    &&& forall|i: int| 3 <= i < k.len() - 1 ==> #[trigger] k[i] != '$' && k[i] != '}'
}

/// Whether `s` holds no `$`.
pub open spec fn no_dollar(s: Seq<char>) -> bool {
    forall|i: int| 0 <= i < s.len() ==> #[trigger] s[i] != '$'
}

/// Whether `k` stands in `s` at `p`.
pub open spec fn occurs_at(s: Seq<char>, k: Seq<char>, p: int) -> bool {
    0 <= p && p + k.len() <= s.len() && s.subrange(p, p + k.len()) == k
}

/// Replacing a text that does not occur leaves `s` as it is.
proof fn lemma_replace_absent(s: Seq<char>, k: Seq<char>, v: Seq<char>)
    requires
        forall|p: int| !#[trigger] occurs_at(s, k, p),
    ensures
        crate::chars::replace_all(s, k, v) == s,
    decreases s.len(),
{
    if k.len() > 0 && s.len() >= k.len() {
        assert(!occurs_at(s, k, 0));
        let t = s.drop_first();
        assert forall|p: int| !#[trigger] occurs_at(t, k, p) by {
            if occurs_at(t, k, p) {
                assert(s.subrange(p + 1, p + 1 + k.len()) =~= t.subrange(p, p + k.len()));
                assert(occurs_at(s, k, p + 1));
            }
        }
        lemma_replace_absent(t, k, v);
        assert(s =~= seq![s[0]] + t);
    }
}

/// Replacing the one occurrence of `k` in `a + k + b` gives `a + v + b`.
proof fn lemma_replace_once(a: Seq<char>, k: Seq<char>, b: Seq<char>, v: Seq<char>)
    requires
        k.len() > 0,
        forall|p: int| #[trigger] occurs_at(a + k + b, k, p) ==> p == a.len(),
    ensures
        crate::chars::replace_all(a + k + b, k, v) == a + v + b,
    decreases a.len(),
{
    let s = a + k + b;
    if a.len() == 0 {
        assert(s.subrange(0, k.len() as int) =~= k);
        assert(s.subrange(k.len() as int, s.len() as int) =~= b);
        assert forall|p: int| !#[trigger] occurs_at(b, k, p) by {
            if occurs_at(b, k, p) {
                assert(s.subrange(p + k.len(), p + k.len() + k.len()) =~= b.subrange(p, p + k.len()));
                assert(occurs_at(s, k, p + k.len()));
            }
        }
        lemma_replace_absent(b, k, v);
        assert(a + v + b =~= v + b);
    } else {
        assert(!occurs_at(s, k, 0));
        let a2 = a.drop_first();
        assert(s.drop_first() =~= a2 + k + b);
        assert forall|p: int| #[trigger] occurs_at(a2 + k + b, k, p) implies p == a2.len() by {
            assert(s.subrange(p + 1, p + 1 + k.len()) =~= (a2 + k + b).subrange(p, p + k.len()));
            assert(occurs_at(s, k, p + 1));
        }
        lemma_replace_once(a2, k, b, v);
        assert(a + v + b =~= seq![a[0]] + (a2 + v + b));
    }
}

/// A placeholder other than `k` does not stand in `a + k + b` when `a`
/// and `b` hold no `$`; `k` stands there only after `a`.
proof fn lemma_placeholder_occurrences(a: Seq<char>, k: Seq<char>, b: Seq<char>, k2: Seq<char>)
    requires
        no_dollar(a),
        no_dollar(b),
        is_placeholder(k),
        is_placeholder(k2),
    ensures
        forall|p: int| #[trigger] occurs_at(a + k + b, k2, p) ==> p == a.len() && k2 == k,
{
    let s = a + k + b;
    assert forall|p: int| #[trigger] occurs_at(s, k2, p) implies p == a.len() && k2 == k by {
        assert(s.subrange(p, p + k2.len())[0] == s[p]);
        assert(s[p] == '$');
        if p < a.len() {
            assert(s[p] == a[p]);
        } else if p >= a.len() + k.len() {
            assert(s[p] == b[p - a.len() - k.len()]);
        } else if p == a.len() + 1 {
            assert(s.subrange(p, p + k2.len())[1] == s[p + 1]);
            assert(s[p + 1] == k[2]);
        } else if p > a.len() + 1 {
            assert(s[p] == k[p - a.len()]);
        } else {
            let n = k.len();
            let n2 = k2.len();
            if n2 < n {
                assert(s.subrange(p, p + n2)[n2 - 1] == s[p + n2 - 1]);
                assert(s[p + n2 - 1] == k[n2 - 1]);
            } else if n2 > n {
                assert(s.subrange(p, p + n2)[n - 1] == s[p + n - 1]);
                assert(s[p + n - 1] == k[n - 1]);
            } else {
                assert forall|i: int| 0 <= i < n implies k2[i] == k[i] by {
                    assert(s.subrange(p, p + n2)[i] == s[p + i]);
                    assert(s[p + i] == k[i]);
                }
                assert(k2 =~= k);
            }
        }
    }
}

/// Filling the placeholders of `pairs` in order, where `k` is the key of
/// exactly the pair at `m`, every key is a placeholder and the value at
/// `m` holds no `$`, turns `a + k + b` into `a + value + b` for `a` and
/// `b` without `$`.
proof fn lemma_fill_one(pairs: Seq<(Seq<char>, Seq<char>)>, m: int, a: Seq<char>, k: Seq<char>, b: Seq<char>)
    requires
        0 <= m < pairs.len(),
        pairs[m].0 == k,
        no_dollar(pairs[m].1),
        no_dollar(a),
        no_dollar(b),
        forall|j: int| 0 <= j < pairs.len() ==> is_placeholder(#[trigger] pairs[j].0),
        forall|j: int| 0 <= j < pairs.len() && j != m ==> #[trigger] pairs[j].0 != k,
    ensures
        replace_each(a + k + b, pairs) == a + pairs[m].1 + b,
    decreases pairs.len(),
{
    let n = pairs.len();
    let init = pairs.drop_last();
    let last = pairs[n - 1];
    if m < n - 1 {
        lemma_fill_one(init, m, a, k, b);
        let r = a + pairs[m].1 + b;
        assert(no_dollar(r)) by {
            assert forall|i: int| 0 <= i < r.len() implies #[trigger] r[i] != '$' by {
                if i < a.len() {
                    assert(r[i] == a[i]);
                } else if i < a.len() + pairs[m].1.len() {
                    assert(r[i] == pairs[m].1[i - a.len()]);
                } else {
                    assert(r[i] == b[i - a.len() - pairs[m].1.len()]);
                }
            }
        }
        assert(is_placeholder(last.0));
        assert forall|p: int| !#[trigger] occurs_at(r, last.0, p) by {
            if occurs_at(r, last.0, p) {
                assert(r.subrange(p, p + last.0.len())[0] == r[p]);
            }
        }
        lemma_replace_absent(r, last.0, last.1);
    } else {
        lemma_fill_none(init, a + k + b, a, k, b);
        lemma_placeholder_occurrences(a, k, b, k);
        lemma_replace_once(a, k, b, last.1);
    }
}

/// Keys other than `k` leave `a + k + b` as it is.
proof fn lemma_fill_none(pairs: Seq<(Seq<char>, Seq<char>)>, s: Seq<char>, a: Seq<char>, k: Seq<char>, b: Seq<char>)
    requires
        s == a + k + b,
        no_dollar(a),
        no_dollar(b),
        is_placeholder(k),
        forall|j: int| 0 <= j < pairs.len() ==> is_placeholder(#[trigger] pairs[j].0),
        forall|j: int| 0 <= j < pairs.len() ==> #[trigger] pairs[j].0 != k,
    ensures
        replace_each(s, pairs) == s,
    decreases pairs.len(),
{
    if pairs.len() > 0 {
        let n = pairs.len();
        let init = pairs.drop_last();
        lemma_fill_none(init, s, a, k, b);
        let last = pairs[n - 1];
        lemma_placeholder_occurrences(a, k, b, last.0);
        lemma_replace_absent(s, last.0, last.1);
    }
}

/// The placeholders of the shell script, each a `$${NAME}` of its own.
proof fn lemma_shell_placeholder_keys(cmd: ShellCommand, path: Seq<char>, tag: Seq<char>)
    ensures
        forall|j: int|
            0 <= j < shell_placeholders(cmd, path, tag).len() ==> is_placeholder(
                #[trigger] shell_placeholders(cmd, path, tag)[j].0,
            ),
        forall|j: int|
            0 <= j < shell_placeholders(cmd, path, tag).len() && j != 12 ==> #[trigger] shell_placeholders(
                cmd,
                path,
                tag,
            )[j].0 != "$${DIRW_ARGS}"@,
        forall|j: int|
            0 <= j < shell_placeholders(cmd, path, tag).len() && j != 13 ==> #[trigger] shell_placeholders(
                cmd,
                path,
                tag,
            )[j].0 != "$${FILEW_ARGS}"@,
        forall|j: int|
            0 <= j < shell_placeholders(cmd, path, tag).len() && j != 14 ==> #[trigger] shell_placeholders(
                cmd,
                path,
                tag,
            )[j].0 != "$${RGW_ARGS}"@,
        shell_placeholders(cmd, path, tag).len() == 17,
        shell_placeholders(cmd, path, tag)[12].0 == "$${DIRW_ARGS}"@,
        shell_placeholders(cmd, path, tag)[13].0 == "$${FILEW_ARGS}"@,
        shell_placeholders(cmd, path, tag)[14].0 == "$${RGW_ARGS}"@,
{
    reveal_strlit("$${Z_NAME}");
    reveal_strlit("$${Z_DOT_ARGS}");
    reveal_strlit("$${Z_SLASH_ARGS}");
    reveal_strlit("$${Z_DIR_ARGS}");
    reveal_strlit("$${OPEN_NAME}");
    reveal_strlit("$${OPEN_CMD}");
    reveal_strlit("$${DIRW_BIND}");
    reveal_strlit("$${FILEW_BIND}");
    reveal_strlit("$${RGW_BIND}");
    reveal_strlit("$${NU_KEYBINDINGS_BLOCK}");
    reveal_strlit("$${FILEW_CMD}");
    reveal_strlit("$${RGW_CMD}");
    reveal_strlit("$${DIRW_ARGS}");
    reveal_strlit("$${FILEW_ARGS}");
    reveal_strlit("$${RGW_ARGS}");
    reveal_strlit("$${NAV_NAME}");
    reveal_strlit("$${BINARY_PATH}");
    let ps = shell_placeholders(cmd, path, tag);
    assert forall|j: int| 0 <= j < ps.len() implies is_placeholder(#[trigger] ps[j].0) by {
        let k = ps[j].0;
        assert forall|i: int| 3 <= i < k.len() - 1 implies #[trigger] k[i] != '$' && k[i] != '}' by {}
    }
    let d = "$${DIRW_ARGS}"@;
    let f = "$${FILEW_ARGS}"@;
    let g = "$${RGW_ARGS}"@;
    assert forall|j: int| 0 <= j < ps.len() && j != 12 implies #[trigger] ps[j].0 != d by {
        if ps[j].0.len() == d.len() {
            assert(ps[j].0[3] != d[3] || ps[j].0[4] != d[4] || ps[j].0[5] != d[5] || ps[j].0[8] != d[8]);
        }
    }
    assert forall|j: int| 0 <= j < ps.len() && j != 13 implies #[trigger] ps[j].0 != f by {
        if ps[j].0.len() == f.len() {
            assert(ps[j].0[3] != f[3] || ps[j].0[4] != f[4] || ps[j].0[9] != f[9]);
        }
    }
    assert forall|j: int| 0 <= j < ps.len() && j != 14 implies #[trigger] ps[j].0 != g by {
        if ps[j].0.len() == g.len() {
            assert(ps[j].0[3] != g[3] || ps[j].0[4] != g[4] || ps[j].0[7] != g[7]);
        }
    }
}

/// The placeholders of the shell script are pairwise different.
proof fn lemma_shell_keys_distinct(cmd: ShellCommand, path: Seq<char>, tag: Seq<char>)
    ensures
        forall|j: int|
            0 <= j < shell_placeholders(cmd, path, tag).len() ==> is_placeholder(
                #[trigger] shell_placeholders(cmd, path, tag)[j].0,
            ),
        forall|j: int, l: int|
            0 <= j < shell_placeholders(cmd, path, tag).len() && 0 <= l < shell_placeholders(cmd, path, tag).len()
                && j != l ==> #[trigger] shell_placeholders(cmd, path, tag)[j].0 != #[trigger] shell_placeholders(
                cmd,
                path,
                tag,
            )[l].0,
{
    lemma_shell_placeholder_keys(cmd, path, tag);
    reveal_strlit("$${Z_NAME}");
    reveal_strlit("$${Z_DOT_ARGS}");
    reveal_strlit("$${Z_SLASH_ARGS}");
    reveal_strlit("$${Z_DIR_ARGS}");
    reveal_strlit("$${OPEN_NAME}");
    reveal_strlit("$${OPEN_CMD}");
    reveal_strlit("$${DIRW_BIND}");
    reveal_strlit("$${FILEW_BIND}");
    reveal_strlit("$${RGW_BIND}");
    reveal_strlit("$${NU_KEYBINDINGS_BLOCK}");
    reveal_strlit("$${FILEW_CMD}");
    reveal_strlit("$${RGW_CMD}");
    reveal_strlit("$${DIRW_ARGS}");
    reveal_strlit("$${FILEW_ARGS}");
    reveal_strlit("$${RGW_ARGS}");
    reveal_strlit("$${NAV_NAME}");
    reveal_strlit("$${BINARY_PATH}");
    let ps = shell_placeholders(cmd, path, tag);
    assert forall|j: int, l: int| 0 <= j < ps.len() && 0 <= l < ps.len() && j != l implies #[trigger] ps[j].0
        != #[trigger] ps[l].0 by {
        let x = ps[j].0;
        let y = ps[l].0;
        assert(x.len() != y.len() || x[3] != y[3] || x[6] != y[6] || x[7] != y[7] || x[8] != y[8] || x[9] != y[9]);
    }
}

/// Filling the placeholders turns `a + k + b` into `a + v + b` for the
/// placeholder `k` of the `j`-th pair and its value `v`.
proof fn lemma_fill_shell(cmd: ShellCommand, path: Seq<char>, tag: Seq<char>, a: Seq<char>, b: Seq<char>, j: int)
    requires
        0 <= j < 17,
        no_dollar(a),
        no_dollar(b),
        no_dollar(shell_placeholders(cmd, path, tag)[j].1),
    ensures
        replace_each(a + shell_placeholders(cmd, path, tag)[j].0 + b, shell_placeholders(cmd, path, tag)) == a
            + shell_placeholders(cmd, path, tag)[j].1 + b,
{
    lemma_shell_keys_distinct(cmd, path, tag);
    let ps = shell_placeholders(cmd, path, tag);
    assert forall|l: int| 0 <= l < ps.len() && l != j implies #[trigger] ps[l].0 != ps[j].0 by {
        assert(ps[l].0 != ps[j].0);
    }
    lemma_fill_one(ps, j, a, ps[j].0, b);
}

/// Each placeholder of the shell script is filled with its own setting: in
/// a text without `$` around it, the placeholder turns into the command's
/// value for it (where that holds no `$`): the names and arguments of the
/// `z`, open and nav commands, the widget arguments, the file and grep
/// widget commands (the open command by default), a widget binding that was
/// given, and the binary's path.
pub proof fn lemma_placeholders_fill_their_settings(
    cmd: ShellCommand,
    path: Seq<char>,
    tag: Seq<char>,
    a: Seq<char>,
    b: Seq<char>,
)
    requires
        no_dollar(a),
        no_dollar(b),
    ensures
        no_dollar(cmd.z_name@) ==> replace_each(a + "$${Z_NAME}"@ + b, shell_placeholders(cmd, path, tag)) == a
            + cmd.z_name@ + b,
        no_dollar(cmd.z_dot_args@) ==> replace_each(a + "$${Z_DOT_ARGS}"@ + b, shell_placeholders(cmd, path, tag))
            == a + cmd.z_dot_args@ + b,
        no_dollar(cmd.z_slash_args@) ==> replace_each(
            a + "$${Z_SLASH_ARGS}"@ + b,
            shell_placeholders(cmd, path, tag),
        ) == a + cmd.z_slash_args@ + b,
        no_dollar(cmd.z_dir_args@) ==> replace_each(a + "$${Z_DIR_ARGS}"@ + b, shell_placeholders(cmd, path, tag))
            == a + cmd.z_dir_args@ + b,
        no_dollar(cmd.open_name@) ==> replace_each(a + "$${OPEN_NAME}"@ + b, shell_placeholders(cmd, path, tag))
            == a + cmd.open_name@ + b,
        no_dollar(cmd.open_cmd@) ==> replace_each(a + "$${OPEN_CMD}"@ + b, shell_placeholders(cmd, path, tag))
            == a + cmd.open_cmd@ + b,
        (cmd.dir_widget_bind matches Some(x) && no_dollar(x@)) ==> replace_each(
            a + "$${DIRW_BIND}"@ + b,
            shell_placeholders(cmd, path, tag),
        ) == a + cmd.dir_widget_bind->0@ + b,
        (cmd.file_widget_bind matches Some(x) && no_dollar(x@)) ==> replace_each(
            a + "$${FILEW_BIND}"@ + b,
            shell_placeholders(cmd, path, tag),
        ) == a + cmd.file_widget_bind->0@ + b,
        (cmd.rg_widget_bind matches Some(x) && no_dollar(x@)) ==> replace_each(
            a + "$${RGW_BIND}"@ + b,
            shell_placeholders(cmd, path, tag),
        ) == a + cmd.rg_widget_bind->0@ + b,
        no_dollar(or_text(cmd.file_open_cmd, cmd.open_cmd@)) ==> replace_each(
            a + "$${FILEW_CMD}"@ + b,
            shell_placeholders(cmd, path, tag),
        ) == a + (match cmd.file_open_cmd {
            Some(c) => c@,
            None => cmd.open_cmd@,
        }) + b,
        no_dollar(or_text(cmd.rg_open_cmd, cmd.open_cmd@)) ==> replace_each(
            a + "$${RGW_CMD}"@ + b,
            shell_placeholders(cmd, path, tag),
        ) == a + (match cmd.rg_open_cmd {
            Some(c) => c@,
            None => cmd.open_cmd@,
        }) + b,
        no_dollar(cmd.dir_widget_args@) ==> replace_each(a + "$${DIRW_ARGS}"@ + b, shell_placeholders(cmd, path, tag))
            == a + cmd.dir_widget_args@ + b,
        no_dollar(cmd.file_widget_args@) ==> replace_each(
            a + "$${FILEW_ARGS}"@ + b,
            shell_placeholders(cmd, path, tag),
        ) == a + cmd.file_widget_args@ + b,
        no_dollar(cmd.rg_widget_args@) ==> replace_each(a + "$${RGW_ARGS}"@ + b, shell_placeholders(cmd, path, tag))
            == a + cmd.rg_widget_args@ + b,
        no_dollar(cmd.nav_name@) ==> replace_each(a + "$${NAV_NAME}"@ + b, shell_placeholders(cmd, path, tag))
            == a + cmd.nav_name@ + b,
        no_dollar(path) ==> replace_each(a + "$${BINARY_PATH}"@ + b, shell_placeholders(cmd, path, tag)) == a
            + path + b,
{
    let ps = shell_placeholders(cmd, path, tag);
    if no_dollar(ps[0].1) {
        lemma_fill_shell(cmd, path, tag, a, b, 0);
    }
    if no_dollar(ps[1].1) {
        lemma_fill_shell(cmd, path, tag, a, b, 1);
    }
    if no_dollar(ps[2].1) {
        lemma_fill_shell(cmd, path, tag, a, b, 2);
    }
    if no_dollar(ps[3].1) {
        lemma_fill_shell(cmd, path, tag, a, b, 3);
    }
    if no_dollar(ps[4].1) {
        lemma_fill_shell(cmd, path, tag, a, b, 4);
    }
    if no_dollar(ps[5].1) {
        lemma_fill_shell(cmd, path, tag, a, b, 5);
    }
    if no_dollar(ps[6].1) {
        lemma_fill_shell(cmd, path, tag, a, b, 6);
    }
    if no_dollar(ps[7].1) {
        lemma_fill_shell(cmd, path, tag, a, b, 7);
    }
    if no_dollar(ps[8].1) {
        lemma_fill_shell(cmd, path, tag, a, b, 8);
    }
    if no_dollar(ps[10].1) {
        lemma_fill_shell(cmd, path, tag, a, b, 10);
    }
    if no_dollar(ps[11].1) {
        lemma_fill_shell(cmd, path, tag, a, b, 11);
    }
    if no_dollar(ps[12].1) {
        lemma_fill_shell(cmd, path, tag, a, b, 12);
    }
    if no_dollar(ps[13].1) {
        lemma_fill_shell(cmd, path, tag, a, b, 13);
    }
    if no_dollar(ps[14].1) {
        lemma_fill_shell(cmd, path, tag, a, b, 14);
    }
    if no_dollar(ps[15].1) {
        lemma_fill_shell(cmd, path, tag, a, b, 15);
    }
    if no_dollar(ps[16].1) {
        lemma_fill_shell(cmd, path, tag, a, b, 16);
    }
    lemma_shell_placeholder_keys(cmd, path, tag);
    assert(ps[0].0 == "$${Z_NAME}"@);
    assert(ps[1].0 == "$${Z_DOT_ARGS}"@);
    assert(ps[2].0 == "$${Z_SLASH_ARGS}"@);
    assert(ps[3].0 == "$${Z_DIR_ARGS}"@);
    assert(ps[4].0 == "$${OPEN_NAME}"@);
    assert(ps[5].0 == "$${OPEN_CMD}"@);
    assert(ps[6].0 == "$${DIRW_BIND}"@);
    assert(ps[7].0 == "$${FILEW_BIND}"@);
    assert(ps[8].0 == "$${RGW_BIND}"@);
    assert(ps[10].0 == "$${FILEW_CMD}"@);
    assert(ps[11].0 == "$${RGW_CMD}"@);
    assert(ps[12].0 == "$${DIRW_ARGS}"@);
    assert(ps[13].0 == "$${FILEW_ARGS}"@);
    assert(ps[14].0 == "$${RGW_ARGS}"@);
    assert(ps[15].0 == "$${NAV_NAME}"@);
    assert(ps[16].0 == "$${BINARY_PATH}"@);
    assert(no_dollar(ps[0].1) == no_dollar(cmd.z_name@));
}

/// Splitting a text without the separator gives the text itself.
proof fn lemma_split_without_sep(s: Seq<char>, sep: char)
    requires
        forall|i: int| 0 <= i < s.len() ==> #[trigger] s[i] != sep,
    ensures
        split_on(s, sep) == seq![s],
    decreases s.len(),
{
    if s.len() > 0 {
        let t = s.drop_last();
        lemma_split_without_sep(t, sep);
        assert(t.push(s.last()) =~= s);
        assert(seq![t].update(0, t.push(s.last())) =~= seq![s]);
    } else {
        assert(s =~= Seq::<char>::empty());
    }
}

/// A line without `#` is kept by the tag filter for every shell.
proof fn lemma_plain_line_kept(line: Seq<char>, tag: Seq<char>)
    requires
        line.len() > 0,
        forall|i: int| 0 <= i < line.len() ==> #[trigger] line[i] != '#' && line[i] != '\n',
    ensures
        filter_by_tag_spec(line, tag) == line,
{
    lemma_split_without_sep(line, '\n');
    let p = split_on(line, '\n');
    assert(p.drop_last().map_values(|l: Seq<char>| strip_cr(l)) =~= Seq::<Seq<char>>::empty());
    assert(text_lines(line) =~= seq![line]);
    assert forall|j: int| 0 <= j implies !#[trigger] crate::chars::pair_at(line, j, '#', ':') by {}
    assert forall|j: int| 0 <= j implies !#[trigger] crate::chars::pair_at(line, j, '#', ' ') by {}
    crate::chars::lemma_find2_is(line, '#', ':', -1);
    crate::chars::lemma_find2_is(line, '#', ' ', -1);
    let lines = seq![line];
    assert(lines.drop_last() =~= Seq::<Seq<char>>::empty());
    assert(filter_fold(lines.drop_last(), tag) == (false, Seq::<Seq<char>>::empty()));
    assert(lines.last() == line);
    assert(find2(line, '#', ':') == -1);
    assert(find2(line, '#', ' ') == -1);
    assert(filter_step((false, Seq::<Seq<char>>::empty()), line, tag) == (false, Seq::<Seq<char>>::empty().push(line)));
    assert(filter_fold(lines, tag).1 =~= seq![line]);
}

/// The script for a shell is its lines meant for that shell with each
/// placeholder filled in with its setting: a one-line script without `#`
/// (and without aliases) that holds a placeholder between texts without
/// `$` comes out with the placeholder's setting in its place; in particular
/// `$${DIRW_ARGS}`, `$${FILEW_ARGS}` and `$${RGW_ARGS}` give the directory,
/// file and grep widget arguments.
pub proof fn lemma_generated_script_fills_placeholder(
    cmd: ShellCommand,
    path: Seq<char>,
    aliases_script: Seq<char>,
    current_shell: Seq<char>,
    a: Seq<char>,
    b: Seq<char>,
    j: int,
)
    requires
        0 <= j < 17,
        !cmd.aliases,
        no_dollar(a),
        no_dollar(b),
        no_dollar(shell_placeholders(cmd, path, shell_tag(cmd, current_shell))[j].1),
        forall|i: int| 0 <= i < a.len() ==> #[trigger] a[i] != '#' && a[i] != '\n',
        forall|i: int| 0 <= i < b.len() ==> #[trigger] b[i] != '#' && b[i] != '\n',
    ensures
        ({
            let ps = shell_placeholders(cmd, path, shell_tag(cmd, current_shell));
            generate_shell_spec(cmd, path, a + ps[j].0 + b, aliases_script, current_shell) == a + ps[j].1 + b
        }),
        j == 12 ==> generate_shell_spec(cmd, path, a + "$${DIRW_ARGS}"@ + b, aliases_script, current_shell) == a
            + cmd.dir_widget_args@ + b,
        j == 13 ==> generate_shell_spec(cmd, path, a + "$${FILEW_ARGS}"@ + b, aliases_script, current_shell) == a
            + cmd.file_widget_args@ + b,
        j == 14 ==> generate_shell_spec(cmd, path, a + "$${RGW_ARGS}"@ + b, aliases_script, current_shell) == a
            + cmd.rg_widget_args@ + b,
{
    let tag = shell_tag(cmd, current_shell);
    let ps = shell_placeholders(cmd, path, tag);
    lemma_shell_placeholder_keys(cmd, path, tag);
    let k = ps[j].0;
    let line = a + k + b;
    assert(is_placeholder(k));
    assert forall|i: int| 0 <= i < line.len() implies #[trigger] line[i] != '#' && line[i] != '\n' by {
        if i >= a.len() && i < a.len() + k.len() {
            assert(line[i] == k[i - a.len()]);
            reveal_strlit("$${Z_NAME}");
            reveal_strlit("$${Z_DOT_ARGS}");
            reveal_strlit("$${Z_SLASH_ARGS}");
            reveal_strlit("$${Z_DIR_ARGS}");
            reveal_strlit("$${OPEN_NAME}");
            reveal_strlit("$${OPEN_CMD}");
            reveal_strlit("$${DIRW_BIND}");
            reveal_strlit("$${FILEW_BIND}");
            reveal_strlit("$${RGW_BIND}");
            reveal_strlit("$${NU_KEYBINDINGS_BLOCK}");
            reveal_strlit("$${FILEW_CMD}");
            reveal_strlit("$${RGW_CMD}");
            reveal_strlit("$${DIRW_ARGS}");
            reveal_strlit("$${FILEW_ARGS}");
            reveal_strlit("$${RGW_ARGS}");
            reveal_strlit("$${NAV_NAME}");
            reveal_strlit("$${BINARY_PATH}");
        } else if i < a.len() {
            assert(line[i] == a[i]);
        } else {
            assert(line[i] == b[i - a.len() - k.len()]);
        }
    }
    lemma_plain_line_kept(line, tag);
    assert(filter_by_tag_spec(line, tag) + Seq::<char>::empty() =~= line);
    lemma_fill_shell(cmd, path, tag, a, b, j);
}

/// The shell named by the command wins: with `shell` set, the script does
/// not depend on the shell the caller runs in.
pub proof fn lemma_named_shell_wins(
    cmd: ShellCommand,
    path: Seq<char>,
    script: Seq<char>,
    aliases_script: Seq<char>,
    shell_a: Seq<char>,
    shell_b: Seq<char>,
)
    requires
        cmd.shell is Some,
    ensures
        generate_shell_spec(cmd, path, script, aliases_script, shell_a) == generate_shell_spec(
            cmd,
            path,
            script,
            aliases_script,
            shell_b,
        ),
        shell_tag(cmd, shell_a) == cmd.shell->0@,
        cmd.shell is None ==> shell_tag(cmd, shell_a) == shell_a,
{
}

/// A widget binding that was given is used as is; otherwise the directory,
/// file and grep widgets are bound to shift with left, right and down, in
/// the notation of the shell (fish and bash, nushell, or any other).
pub proof fn lemma_widget_bindings(cmd: ShellCommand, tag: Seq<char>)
    ensures
        ({
            let b = shell_binds(cmd, tag);
            &&& cmd.dir_widget_bind matches Some(x) ==> b.0 == x@
            &&& cmd.file_widget_bind matches Some(x) ==> b.1 == x@
            &&& cmd.rg_widget_bind matches Some(x) ==> b.2 == x@
            &&& (tag == "fish"@ || tag == "bash"@) ==> {
                &&& cmd.dir_widget_bind is None ==> b.0 == "\\e[1;2D"@
                &&& cmd.file_widget_bind is None ==> b.1 == "\\e[1;2C"@
                &&& cmd.rg_widget_bind is None ==> b.2 == "\\e[1;2B"@
            }
            &&& (tag == "nu"@ || tag == "nushell"@) && !(tag == "fish"@ || tag == "bash"@) ==> {
                &&& cmd.dir_widget_bind is None ==> b.0 == "shift+left"@
                &&& cmd.file_widget_bind is None ==> b.1 == "shift+right"@
                &&& cmd.rg_widget_bind is None ==> b.2 == "shift+down"@
            }
            &&& !(tag == "nu"@ || tag == "nushell"@ || tag == "fish"@ || tag == "bash"@) ==> {
                &&& cmd.dir_widget_bind is None ==> b.0 == "^[[1;2D"@
                &&& cmd.file_widget_bind is None ==> b.1 == "^[[1;2C"@
                &&& cmd.rg_widget_bind is None ==> b.2 == "^[[1;2B"@
            }
        }),
{
}

} // verus!
