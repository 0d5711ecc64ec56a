//! Reloading a pane: which steps a reload takes, how a search pane's query
//! flows between the query bar and the pane, the search status line, the
//! result layout per pane, and the visibility change on entering or leaving
//! a git repository.

use vstd::prelude::*;
use crate::chars::{is_ws, join, replace_all};
use crate::text::{from_chars, to_chars};

verus! {

/// The tokens of the rest `s` of a search query, the splitter being inside
/// single quotes (`quoted`) with the token `cur` begun and the tokens `out`
/// done: whitespace outside single quotes ends a token, quotes are
/// dropped, a backslash before a quote gives the quote, a backslash before
/// any other character is kept with it, and empty tokens are skipped.
pub open spec fn split_from(s: Seq<char>, quoted: bool, cur: Seq<char>, out: Seq<Seq<char>>) -> Seq<Seq<char>>
    decreases s.len(),
{
    if s.len() == 0 {
        if cur.len() > 0 {
            out.push(cur)
        } else {
            out
        }
    } else {
        let c = s[0];
        let rest = s.drop_first();
        if c == '\'' {
            split_from(rest, !quoted, cur, out)
        } else if c == '\\' {
            if rest.len() == 0 {
                split_from(rest, quoted, cur, out)
            } else if rest[0] == '\'' {
                split_from(rest.drop_first(), quoted, cur.push('\''), out)
            } else {
                split_from(rest.drop_first(), quoted, cur.push('\\').push(rest[0]), out)
            }
        } else if is_ws(c) && !quoted {
            if cur.len() > 0 {
                split_from(rest, quoted, Seq::empty(), out.push(cur))
            } else {
                split_from(rest, quoted, cur, out)
            }
        } else {
            split_from(rest, quoted, cur.push(c), out)
        }
    }
}

/// The tokens of a search query, as the `cba` splitter reads it (see
/// [`split_from`]).
pub open spec fn quoted_split(s: Seq<char>) -> Seq<Seq<char>> {
    split_from(s, false, Seq::empty(), Seq::empty())
}

/// `cba::bring::split::split_whitespace_preserve_single_quotes`.
#[verifier::external_body]
fn split_query(s: &str) -> (v: Vec<String>)
    ensures
        v.deep_view() == quoted_split(s@),
{
    cba::bring::split::split_whitespace_preserve_single_quotes(s)
}

/// A token as written back into a query: single quotes escaped with a
/// backslash, and the whole quoted when it holds whitespace or a quote.
pub open spec fn quote_token(t: Seq<char>) -> Seq<char> {
    let escaped = replace_all(t, "'"@, "\\'"@);
    if exists|i: int| 0 <= i < t.len() && (is_ws(t[i]) || t[i] == '\'') {
        "'"@ + escaped + "'"@
    } else {
        escaped
    }
}

/// `cba::bring::split::join_with_single_quotes`: the tokens, each quoted
/// as [`quote_token`] says, joined with single spaces.
#[verifier::external_body]
fn join_tokens(tokens: &Vec<String>) -> (s: String)
    ensures
        s@ == join(tokens.deep_view().map_values(|t: Seq<char>| quote_token(t)), " "@),
{
    cba::bring::split::join_with_single_quotes(tokens)
}

/// Carry the query bar into a search pane on a reload that is not the
/// pane's first: a filtering pane keeps the query as its input, a
/// searching one re-reads its patterns from it. A pane's first reload only
/// clears its first-reload mark; a new pane's reload leaves the mark alone.
pub fn sync_search_query(
    is_new: bool,
    is_initial: &mut bool,
    filtering: bool,
    query: &str,
    input: &mut String,
    patterns: &mut Vec<String>,
)
    ensures
        *final(is_initial) == (*old(is_initial) && is_new),
        (!is_new && !*old(is_initial) && filtering) ==> final(input)@ == query@,
        !(!is_new && !*old(is_initial) && filtering) ==> final(input)@ == old(input)@,
        (!is_new && !*old(is_initial) && !filtering) ==> final(patterns).deep_view() == quoted_split(query@),
        !(!is_new && !*old(is_initial) && !filtering) ==> final(patterns).deep_view() == old(patterns).deep_view(),
{
    if is_new {
        return;
    }
    let first = *is_initial;
    *is_initial = false;
    if first {
        return;
    }
    if filtering {
        *input = query.to_string();
    } else {
        *patterns = split_query(query);
    }
}

/// Whether `s` opens with a single quote or holds whitespace.
pub open spec fn quoted_or_spaced(s: Seq<char>) -> bool {
    (s.len() > 0 && s[0] == '\'') || exists|i: int| 0 <= i < s.len() && is_ws(s[i])
}

/// The query a search pane starts with: its input while it filters, else
/// its patterns written back as a query; when whitespace is preserved (by
/// configuration, or once by the marker, which is then taken) a query
/// with neither an opening quote nor whitespace gets an opening quote.
pub fn search_input(
    filtering: bool,
    input: &str,
    patterns: &Vec<String>,
    preserve_whitespace: bool,
    preserve_marker: &mut bool,
) -> (q: String)
    ensures
        filtering ==> q@ == input@ && *final(preserve_marker) == *old(preserve_marker),
        !filtering ==> {
            let s = join(patterns.deep_view().map_values(|t: Seq<char>| quote_token(t)), " "@);
            let preserve = preserve_whitespace || *old(preserve_marker);
            &&& *final(preserve_marker) == (*old(preserve_marker) && preserve_whitespace)
            &&& q@ == (if preserve && !quoted_or_spaced(s) { "'"@ + s } else { s })
        },
{
    if filtering {
        return input.to_string();
    }
    let s = join_tokens(patterns);
    let preserve = if preserve_whitespace {
        true
    } else {
        let m = *preserve_marker;
        *preserve_marker = false;
        m
    };
    if !preserve {
        return s;
    }
    let c = to_chars(s.as_str());
    let mut spaced = c.len() > 0 && c[0] == '\'';
    let mut i: usize = 0;
    while i < c.len() && !spaced
        invariant
            i <= c@.len(),
            spaced == ((c@.len() > 0 && c@[0] == '\'') || exists|j: int| 0 <= j < i && is_ws(c@[j])),
        decreases c@.len() - i,
    {
        if crate::chars::char_is_ws(c[i]) {
            spaced = true;
        }
        i = i + 1;
    }
    if spaced {
        s
    } else {
        let mut out = "'".to_string();
        out.append(s.as_str());
        out
    }
}

} // verus!

verus! {

/// What fills the `{}` of the search status template: the patterns
/// joined with ` / ` while the pane filters, else its input.
pub open spec fn status_fill(filtering: bool, patterns: Seq<Seq<char>>, input: Seq<char>) -> Seq<char> {
    if filtering {
        join(patterns, " / "@)
    } else {
        input
    }
}

/// The texts of the joined patterns.
fn join_strings(parts: &Vec<String>, sep: &str) -> (r: String)
    ensures
        r@ == join(parts.deep_view(), sep@),
{
    let mut cs: Vec<Vec<char>> = Vec::new();
    let mut i: usize = 0;
    while i < parts.len()
        invariant
            i <= parts@.len(),
            cs@.len() == i,
            cs.deep_view() == parts.deep_view().take(i as int),
        decreases parts@.len() - i,
    {
        let ghost before = cs@;
        let chars = to_chars(parts[i].as_str());
        let ghost pushed = chars;
        cs.push(chars);
        assert forall|k: int| 0 <= k < cs@.len() implies #[trigger] cs.deep_view()[k] == parts.deep_view().take(
            i + 1,
        )[k] by {
            if k < i {
                assert(cs@[k] == before[k]);
            } else {
                assert(cs@[k] == pushed);
                assert(pushed.deep_view() =~= pushed@);
            }
        }
        assert(cs.deep_view() =~= parts.deep_view().take(i + 1));
        i = i + 1;
    }
    assert(parts.deep_view().take(parts@.len() as int) =~= parts.deep_view());
    let sep_chars = to_chars(sep);
    let joined = crate::chars::join_chars(&cs, sep_chars.as_slice());
    from_chars(&joined)
}

/// The status line of a search pane: each span of the parsed template
/// with every `{}` replaced by [`status_fill`].
pub fn search_status(filtering: bool, patterns: &Vec<String>, input: &str, spans: &Vec<String>) -> (r: Vec<String>)
    ensures
        r@.len() == spans@.len(),
        forall|k: int|
            0 <= k < spans@.len() ==> (#[trigger] r@[k])@ == replace_all(
                spans@[k]@,
                "{}"@,
                status_fill(filtering, patterns.deep_view(), input@),
            ),
{
    let fill = if filtering {
        join_strings(patterns, " / ")
    } else {
        input.to_string()
    };
    let mut r: Vec<String> = Vec::new();
    let mut k: usize = 0;
    proof {
        reveal_strlit("{}");
    }
    while k < spans.len()
        invariant
            k <= spans@.len(),
            r@.len() == k,
            "{}"@.len() == 2,
            fill@ == status_fill(filtering, patterns.deep_view(), input@),
            forall|j: int|
                0 <= j < k ==> (#[trigger] r@[j])@ == replace_all(spans@[j]@, "{}"@, fill@),
        decreases spans@.len() - k,
    {
        let t = crate::chars::replace_str(spans[k].as_str(), "{}", fill.as_str());
        let ghost before = r@;
        r.push(t);
        proof {
            assert forall|j: int| 0 <= j < k + 1 implies (#[trigger] r@[j])@ == replace_all(
                spans@[j]@,
                "{}"@,
                fill@,
            ) by {
                if j < k {
                    assert(r@[j] == before[j]);
                }
            }
        }
        k = k + 1;
    }
    r
}

/// How the results list and its surroundings are laid out for a pane.
#[derive(Debug, Clone, Copy, PartialEq, Eq, Structural)]
pub struct ResultsLayout {
    /// Whether the last column is right-aligned.
    pub right_align_last: bool,
    /// Whether result rows stack their columns, separated by the
    /// horizontal separator.
    pub stacked: bool,
    /// Whether the status line shows the search status.
    pub search_status: bool,
    /// Whether a query change reloads the pane (a searching pane).
    pub reload_on_query: bool,
    /// Whether the matcher filters the items by the query.
    pub filtering: bool,
    /// Whether the preview opens at the match (the third field of an rg line).
    pub preview_at_match: bool,
}

/// The layout after a reload. A search pane (`Some((filtering, one_line))`)
/// stacks its multi-line results, shows the search status, and reloads on
/// query changes unless it filters; every other pane filters in the
/// matcher with a flat list.
pub fn results_layout(search: Option<(bool, bool)>) -> (l: ResultsLayout)
    ensures
        l == match search {
            Some((filtering, one_line)) => ResultsLayout {
                right_align_last: false,
                stacked: !one_line,
                search_status: true,
                reload_on_query: !filtering,
                filtering,
                preview_at_match: true,
            },
            None => ResultsLayout {
                right_align_last: true,
                stacked: false,
                search_status: false,
                reload_on_query: false,
                filtering: true,
                preview_at_match: false,
            },
        },
{
    match search {
        Some((filtering, one_line)) => ResultsLayout {
            right_align_last: false,
            stacked: !one_line,
            search_status: true,
            reload_on_query: !filtering,
            filtering,
            preview_at_match: true,
        },
        None => ResultsLayout {
            right_align_last: true,
            stacked: false,
            search_status: false,
            reload_on_query: false,
            filtering: true,
            preview_at_match: false,
        },
    }
}

} // verus!

verus! {

/// The steps of a reload of the current pane.
#[derive(Debug, Clone, Copy, PartialEq, Eq, Structural)]
pub struct ReloadPlan {
    /// Apply the pane's configured default visibility.
    pub apply_default_visibility: bool,
    /// Save the selection's path hashes to select the same paths again;
    /// otherwise any saved ones are dropped. The selection is cleared either way.
    pub snapshot_selections: bool,
    /// Drop the cached directory sizes.
    pub clear_sizes: bool,
    /// Put the cursor on the first result.
    pub jump_to_top: bool,
    /// Finish as for a new pane (pane settings, input) rather than a refresh.
    pub as_new: bool,
}

/// The steps of a reload. `is_new`: the pane was just pushed;
/// `dir_changed`: the reload reads another directory than the pane showed
/// (both at once: undo and redo, which keep the pane's visibility). The
/// selection is carried over only across a refresh of the same directory
/// when so configured; sizes are recomputed for a size sort of a new
/// directory unless configured to keep a cache that holds the directory.
pub fn reload_plan(
    is_new: bool,
    dir_changed: bool,
    refill_configured: bool,
    has_selection: bool,
    size_sort: bool,
    preserve_size_cache: bool,
    cwd_size_cached: bool,
    cursor_disabled: bool,
) -> (p: ReloadPlan)
    ensures
        p.apply_default_visibility == (is_new && !dir_changed),
        p.snapshot_selections == (refill_configured && !is_new && !dir_changed && has_selection),
        p.clear_sizes == (size_sort && (is_new || dir_changed) && !(preserve_size_cache && cwd_size_cached)),
        p.jump_to_top == !cursor_disabled,
        p.as_new == is_new,
{
    ReloadPlan {
        apply_default_visibility: is_new && !dir_changed,
        snapshot_selections: refill_configured && !is_new && !dir_changed && has_selection,
        clear_sizes: size_sort && (is_new || dir_changed) && !(preserve_size_cache && cwd_size_cached),
        jump_to_top: !cursor_disabled,
        as_new: is_new,
    }
}

/// Whether two paths are equal as `Path`s compare: component by component.
pub uninterp spec fn path_eq(a: Seq<char>, b: Seq<char>) -> bool;

/// `Path == Path`: equality by components (so a trailing separator or a
/// `.` component does not tell paths apart); equal texts are equal paths.
#[verifier::external_body]
fn same_path(a: &str, b: &str) -> (r: bool)
    ensures
        r == path_eq(a@, b@),
        a@ == b@ ==> r,
{
    std::path::Path::new(a) == std::path::Path::new(b)
}

/// Entering the directory `path` from the directory pane at `old_nav`
/// (none when there is no directory pane): whether the pane is new, and
/// whether the directory changed (never for a new pane).
pub fn dir_entry(old_nav: Option<&str>, path: &str) -> (r: (bool, bool))
    ensures
        r.0 == old_nav is None,
        r.1 == match old_nav {
            Some(o) => !path_eq(o@, path@),
            None => false,
        },
{
    match old_nav {
        None => (true, false),
        Some(o) => (false, !same_path(o, path)),
    }
}

/// The visibility on entering a directory, without a configured default:
/// entering a git repository from outside shows hidden and ignored files,
/// leaving one hides them; otherwise it stays as it was.
pub fn git_visibility(has_default: bool, was_in_git: bool, now_in_git: bool, hidden: &mut bool, ignore: &mut bool)
    ensures
        (!has_default && !was_in_git && now_in_git) ==> *final(hidden) && *final(ignore),
        (!has_default && was_in_git && !now_in_git) ==> !*final(hidden) && !*final(ignore),
        (has_default || was_in_git == now_in_git) ==> *final(hidden) == *old(hidden) && *final(ignore) == *old(ignore),
{
    if !has_default {
        if !was_in_git && now_in_git {
            *hidden = true;
            *ignore = true;
        } else if was_in_git && !now_in_git {
            *hidden = false;
            *ignore = false;
        }
    }
}

} // verus!
