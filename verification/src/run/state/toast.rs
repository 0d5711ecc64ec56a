//! Footer toasts: lines of a styled prefix and a content (a list of items,
//! a pair `A → B`, or a plain line), with flags that decide which clear
//! operations a line survives.
//!
//! Grouped toasts (`push`, `pair`, `notice`) survive pane switches
//! (`clear_msgs`) and are dropped by cursor movement (`clear`); ad-hoc
//! messages (`msg`, `toast_empty`, `push_skipped`) survive neither, and a
//! replacing `msg` evicts them; `push_with_flag` can make a toast survive
//! cursor movement too, until it is popped.

use vstd::prelude::*;
use crate::text::{from_chars, str_eq, to_chars};

verus! {

/// Severity of a toast; it styles the prefix.
#[derive(Copy, Clone, Debug, PartialEq, Eq, Structural)]
pub enum ToastStyle {
    /// Standard notification, labelled `Note`.
    Normal,
    Info,
    Success,
    Warning,
    Error,
}

/// The label of a style.
pub open spec fn style_label(s: ToastStyle) -> Seq<char> {
    match s {
        ToastStyle::Normal => "Note"@,
        ToastStyle::Info => "Info"@,
        ToastStyle::Success => "Success"@,
        ToastStyle::Warning => "Warning"@,
        ToastStyle::Error => "Error"@,
    }
}

impl ToastStyle {
    /// `Normal`, the style of a toast that names none.
    pub fn default_style() -> (s: Self)
        ensures
            s == ToastStyle::Normal,
    {
        ToastStyle::Normal
    }

    /// The label: `Note` for `Normal`, the variant's name otherwise.
    pub fn label(&self) -> (s: String)
        ensures
            s@ == style_label(*self),
    {
        proof {
            reveal_strlit("Note");
            reveal_strlit("Info");
            reveal_strlit("Success");
            reveal_strlit("Warning");
            reveal_strlit("Error");
        }
        match self {
            ToastStyle::Normal => "Note".to_string(),
            ToastStyle::Info => "Info".to_string(),
            ToastStyle::Success => "Success".to_string(),
            ToastStyle::Warning => "Warning".to_string(),
            ToastStyle::Error => "Error".to_string(),
        }
    }
}

/// The style of a span, as far as toasts tell spans apart by it.
#[derive(Copy, Clone, Debug, PartialEq, Eq, Structural)]
pub enum SpanStyle {
    /// No style.
    Raw,
    /// The prefix style of a toast level.
    Level(ToastStyle),
    /// Dim italic (the skipped counter).
    Dim,
    /// Dark gray italic (the empty-listing notice).
    Faint,
    /// A foreground color, by the renderer's color index.
    Color(u8),
}

/// A piece of styled text.
#[derive(Debug, Clone)]
pub struct ToastSpan {
    pub content: String,
    pub style: SpanStyle,
}

/// The model of a span.
pub type SpanView = (Seq<char>, SpanStyle);

/// The model of a span.
pub open spec fn span_view(s: ToastSpan) -> SpanView {
    (s.content@, s.style)
}

/// The model of a list of spans.
pub open spec fn spans_view(v: Seq<ToastSpan>) -> Seq<SpanView> {
    v.map_values(|s: ToastSpan| span_view(s))
}

impl ToastSpan {
    /// An unstyled span.
    pub fn raw(content: String) -> (s: Self)
        ensures
            span_view(s) == (content@, SpanStyle::Raw),
    {
        ToastSpan { content, style: SpanStyle::Raw }
    }

    /// A copy of the span.
    pub fn copy(&self) -> (s: Self)
        ensures
            span_view(s) == span_view(*self),
    {
        ToastSpan { content: self.content.clone(), style: self.style }
    }
}

/// Whether two spans have the same text and style.
fn span_eq(a: &ToastSpan, b: &ToastSpan) -> (r: bool)
    ensures
        r == (span_view(*a) == span_view(*b)),
{
    str_eq(a.content.as_str(), b.content.as_str()) && a.style == b.style
}

/// Which clear operations a toast line survives.
#[derive(Copy, Clone, Debug, PartialEq, Eq, Structural)]
pub struct ToastFlags {
    /// Survives `clear` (cursor movement).
    pub persist_cursor: bool,
    /// Survives `clear_msgs` (pane switches).
    pub persist_pane: bool,
}

impl ToastFlags {
    /// No flag.
    pub fn empty() -> (f: Self)
        ensures
            !f.persist_cursor && !f.persist_pane,
    {
        ToastFlags { persist_cursor: false, persist_pane: false }
    }

    /// Only `persist_cursor`.
    pub fn cursor() -> (f: Self)
        ensures
            f.persist_cursor && !f.persist_pane,
    {
        ToastFlags { persist_cursor: true, persist_pane: false }
    }

    /// Only `persist_pane`.
    pub fn pane() -> (f: Self)
        ensures
            !f.persist_cursor && f.persist_pane,
    {
        ToastFlags { persist_cursor: false, persist_pane: true }
    }

    /// The flags of both.
    pub fn union(self, other: Self) -> (f: Self)
        ensures
            f.persist_cursor == (self.persist_cursor || other.persist_cursor),
            f.persist_pane == (self.persist_pane || other.persist_pane),
    {
        ToastFlags {
            persist_cursor: self.persist_cursor || other.persist_cursor,
            persist_pane: self.persist_pane || other.persist_pane,
        }
    }

    /// Whether every flag of `other` is set.
    pub fn contains(self, other: Self) -> (b: bool)
        ensures
            b == ((other.persist_cursor ==> self.persist_cursor) && (other.persist_pane
                ==> self.persist_pane)),
    {
        (!other.persist_cursor || self.persist_cursor) && (!other.persist_pane || self.persist_pane)
    }

    /// The flags as bits: `1` for `persist_cursor`, `2` for `persist_pane`.
    pub fn bits(self) -> (b: u8)
        ensures
            b == (if self.persist_cursor { 1u8 } else { 0u8 }) + (if self.persist_pane {
                2u8
            } else {
                0u8
            }),
    {
        let c: u8 = if self.persist_cursor { 1 } else { 0 };
        let p: u8 = if self.persist_pane { 2 } else { 0 };
        c + p
    }
}

/// What a toast line shows after its prefix.
#[derive(Debug)]
pub enum ToastContent {
    /// Items separated by commas.
    List(Vec<ToastSpan>),
    /// `from → to`.
    Pair(ToastSpan, ToastSpan),
    /// Spans shown as they are.
    Line(Vec<ToastSpan>),
}

/// The model of a content.
pub enum ContentView {
    List(Seq<SpanView>),
    Pair(SpanView, SpanView),
    Line(Seq<SpanView>),
}

/// The model of a content.
pub open spec fn content_view(c: ToastContent) -> ContentView {
    match c {
        ToastContent::List(v) => ContentView::List(spans_view(v@)),
        ToastContent::Pair(a, b) => ContentView::Pair(span_view(a), span_view(b)),
        ToastContent::Line(v) => ContentView::Line(spans_view(v@)),
    }
}

/// One toast line.
#[derive(Debug)]
pub struct ToastLine {
    /// Styled prefix (empty for ad-hoc messages).
    pub prefix: ToastSpan,
    pub content: ToastContent,
    pub flags: ToastFlags,
}

/// The model of a toast line.
pub struct LineView {
    pub prefix: SpanView,
    pub content: ContentView,
    pub flags: ToastFlags,
}

/// The model of a toast line.
pub open spec fn line_view(l: ToastLine) -> LineView {
    LineView { prefix: span_view(l.prefix), content: content_view(l.content), flags: l.flags }
}

/// The active toasts, top to bottom.
#[derive(Debug)]
pub struct ToastState {
    pub lines: Vec<ToastLine>,
}

impl ToastState {
    /// The lines, top to bottom.
    pub open spec fn view(&self) -> Seq<LineView> {
        self.lines@.map_values(|l: ToastLine| line_view(l))
    }

    /// No toast.
    pub fn new() -> (s: Self)
        ensures
            s.view().len() == 0,
    {
        ToastState { lines: Vec::new() }
    }

    /// Number of toast lines.
    pub fn len(&self) -> (n: usize)
        ensures
            n == self.view().len(),
    {
        self.lines.len()
    }
}

/// Whether a line survives cursor movement.
pub open spec fn survives_cursor() -> spec_fn(LineView) -> bool {
    |l: LineView| l.flags.persist_cursor
}

/// Whether a line survives a pane switch.
pub open spec fn survives_pane() -> spec_fn(LineView) -> bool {
    |l: LineView| l.flags.persist_pane
}

/// `items` appended to `existing`, each unless it is already there.
pub open spec fn append_new(existing: Seq<SpanView>, items: Seq<SpanView>) -> Seq<SpanView>
    decreases items.len(),
{
    if items.len() == 0 {
        existing
    } else {
        let r = append_new(existing, items.drop_last());
        if r.contains(items.last()) {
            r
        } else {
            r.push(items.last())
        }
    }
}

/// Whether a line has prefix text `prefix`.
pub open spec fn has_prefix(prefix: Seq<char>) -> spec_fn(LineView) -> bool {
    |l: LineView| l.prefix.0 == prefix
}

/// The lines after pushing `items` under `prefix`: the first line with that
/// prefix text takes the new items (a list keeps its items and appends the
/// ones it lacks; another content becomes the list of `items`); without
/// one, a new list line styled by `style` with `flags` goes last.
pub open spec fn push_spec(
    lines: Seq<LineView>,
    style: ToastStyle,
    prefix: Seq<char>,
    items: Seq<SpanView>,
    flags: ToastFlags,
) -> Seq<LineView> {
    let i = crate::text::first_index(lines, has_prefix(prefix));
    if i >= 0 {
        let l = lines[i];
        let c = match l.content {
            ContentView::List(existing) => ContentView::List(append_new(existing, items)),
            _ => ContentView::List(items),
        };
        lines.update(i, LineView { content: c, ..l })
    } else {
        lines.push(
            LineView { prefix: (prefix, SpanStyle::Level(style)), content: ContentView::List(items), flags },
        )
    }
}

/// Whether a span differs from `item`.
pub open spec fn not_span(item: SpanView) -> spec_fn(SpanView) -> bool {
    |s: SpanView| s != item
}

/// The lines after popping `item` from the list lines with prefix text
/// `prefix`: such a list loses every copy of `item` and the line goes when
/// its list is left empty.
pub open spec fn pop_spec(lines: Seq<LineView>, prefix: Seq<char>, item: SpanView) -> Seq<LineView>
    decreases lines.len(),
{
    if lines.len() == 0 {
        lines
    } else {
        let r = pop_spec(lines.drop_last(), prefix, item);
        let l = lines.last();
        if l.prefix.0 == prefix && l.content is List {
            let kept = l.content->List_0.filter(not_span(item));
            if kept.len() > 0 {
                r.push(LineView { content: ContentView::List(kept), ..l })
            } else {
                r
            }
        } else {
            r.push(l)
        }
    }
}

/// An ad-hoc line showing `spans` with no prefix and no flags.
pub open spec fn msg_line(spans: Seq<SpanView>) -> LineView {
    LineView {
        prefix: (Seq::empty(), SpanStyle::Raw),
        content: ContentView::Line(spans),
        flags: ToastFlags { persist_cursor: false, persist_pane: false },
    }
}

/// A copy of a list of spans.
fn copy_spans(v: &Vec<ToastSpan>) -> (r: Vec<ToastSpan>)
    ensures
        spans_view(r@) == spans_view(v@),
{
    let mut out: Vec<ToastSpan> = Vec::new();
    let mut i: usize = 0;
    while i < v.len()
        invariant
            i <= v@.len(),
            spans_view(out@) == spans_view(v@).take(i as int),
        decreases v@.len() - i,
    {
        let ghost before = out@;
        out.push(v[i].copy());
        assert(spans_view(out@) =~= spans_view(before).push(span_view(v@[i as int])));
        assert(spans_view(v@).take(i + 1) =~= spans_view(v@).take(i as int).push(span_view(v@[i as int])));
        i = i + 1;
    }
    assert(spans_view(v@).take(v@.len() as int) =~= spans_view(v@));
    out
}

impl ToastContent {
    /// A copy of the content.
    pub fn copy(&self) -> (c: Self)
        ensures
            content_view(c) == content_view(*self),
    {
        match self {
            ToastContent::List(v) => ToastContent::List(copy_spans(v)),
            ToastContent::Pair(a, b) => ToastContent::Pair(a.copy(), b.copy()),
            ToastContent::Line(v) => ToastContent::Line(copy_spans(v)),
        }
    }
}

impl ToastLine {
    /// A copy of the line.
    pub fn copy(&self) -> (l: Self)
        ensures
            line_view(l) == line_view(*self),
    {
        ToastLine { prefix: self.prefix.copy(), content: self.content.copy(), flags: self.flags }
    }
}

/// Keeps the lines that survive cursor movement (`keep_cursor`) or a pane
/// switch.
fn retain_lines(lines: &mut Vec<ToastLine>, keep_cursor: bool)
    ensures
        final(lines)@.map_values(|l: ToastLine| line_view(l)) == old(lines)@.map_values(
            |l: ToastLine| line_view(l),
        ).filter(if keep_cursor { survives_cursor() } else { survives_pane() }),
{
    let ghost v = lines@.map_values(|l: ToastLine| line_view(l));
    let ghost p = if keep_cursor { survives_cursor() } else { survives_pane() };
    let mut out: Vec<ToastLine> = Vec::new();
    let mut i: usize = 0;
    while i < lines.len()
        invariant
            v == lines@.map_values(|l: ToastLine| line_view(l)),
            p == (if keep_cursor { survives_cursor() } else { survives_pane() }),
            i <= lines@.len(),
            out@.map_values(|l: ToastLine| line_view(l)) == v.take(i as int).filter(p),
        decreases lines@.len() - i,
    {
        let l = &lines[i];
        let keep = if keep_cursor { l.flags.persist_cursor } else { l.flags.persist_pane };
        proof {
            assert(v.take(i + 1).drop_last() =~= v.take(i as int));
            assert(v.take(i + 1).last() == v[i as int]);
            assert(keep == p(v[i as int]));
            reveal(Seq::filter);
            assert(v.take(i + 1).filter(p) == (if p(v[i as int]) {
                v.take(i as int).filter(p).push(v[i as int])
            } else {
                v.take(i as int).filter(p)
            }));
        }
        if keep {
            let ghost before = out@.map_values(|l: ToastLine| line_view(l));
            out.push(l.copy());
            assert(out@.map_values(|l: ToastLine| line_view(l)) =~= before.push(v[i as int]));
        }
        i = i + 1;
    }
    assert(v.take(lines@.len() as int) =~= v);
    *lines = out;
}

} // verus!

verus! {

/// Whether `v` holds a span equal to `x`.
fn contains_span(v: &Vec<ToastSpan>, x: &ToastSpan) -> (b: bool)
    ensures
        b == spans_view(v@).contains(span_view(*x)),
{
    let mut i: usize = 0;
    while i < v.len()
        invariant
            i <= v@.len(),
            forall|j: int| 0 <= j < i ==> spans_view(v@)[j] != span_view(*x),
        decreases v@.len() - i,
    {
        if span_eq(&v[i], x) {
            assert(spans_view(v@)[i as int] == span_view(*x));
            return true;
        }
        i = i + 1;
    }
    false
}

/// `existing` with the items of `items` it lacks appended, in order.
fn append_new_exec(existing: Vec<ToastSpan>, items: &Vec<ToastSpan>) -> (r: Vec<ToastSpan>)
    ensures
        spans_view(r@) == append_new(spans_view(existing@), spans_view(items@)),
{
    let ghost e = spans_view(existing@);
    let ghost it = spans_view(items@);
    let mut out = existing;
    let mut j: usize = 0;
    assert(it.take(0) =~= Seq::<SpanView>::empty());
    while j < items.len()
        invariant
            it == spans_view(items@),
            j <= items@.len(),
            spans_view(out@) == append_new(e, it.take(j as int)),
        decreases items@.len() - j,
    {
        proof {
            assert(it.take(j + 1).drop_last() =~= it.take(j as int));
            assert(it.take(j + 1).last() == span_view(items@[j as int]));
        }
        if !contains_span(&out, &items[j]) {
            let ghost before = spans_view(out@);
            out.push(items[j].copy());
            assert(spans_view(out@) =~= before.push(span_view(items@[j as int])));
        }
        j = j + 1;
    }
    assert(it.take(items@.len() as int) =~= it);
    out
}

/// The items of `v` other than `item`, in order.
fn without_span(v: &Vec<ToastSpan>, item: &ToastSpan) -> (r: Vec<ToastSpan>)
    ensures
        spans_view(r@) == spans_view(v@).filter(not_span(span_view(*item))),
{
    let ghost sv = spans_view(v@);
    let ghost p = not_span(span_view(*item));
    let mut out: Vec<ToastSpan> = Vec::new();
    let mut i: usize = 0;
    while i < v.len()
        invariant
            sv == spans_view(v@),
            p == not_span(span_view(*item)),
            i <= v@.len(),
            spans_view(out@) == sv.take(i as int).filter(p),
        decreases v@.len() - i,
    {
        let keep = !span_eq(&v[i], item);
        proof {
            assert(sv.take(i + 1).drop_last() =~= sv.take(i as int));
            assert(sv.take(i + 1).last() == sv[i as int]);
            assert(keep == p(sv[i as int]));
            reveal(Seq::filter);
            assert(sv.take(i + 1).filter(p) == (if p(sv[i as int]) {
                sv.take(i as int).filter(p).push(sv[i as int])
            } else {
                sv.take(i as int).filter(p)
            }));
        }
        if keep {
            let ghost before = spans_view(out@);
            out.push(v[i].copy());
            assert(spans_view(out@) =~= before.push(sv[i as int]));
        }
        i = i + 1;
    }
    assert(sv.take(v@.len() as int) =~= sv);
    out
}

/// The toast operations.
pub struct TOAST;

impl TOAST {
    /// Drops every toast but those that survive cursor movement.
    pub fn clear(state: &mut ToastState)
        ensures
            final(state).view() == old(state).view().filter(survives_cursor()),
    {
        retain_lines(&mut state.lines, true);
    }

    /// Drops the transient messages, keeping the toasts that survive pane
    /// switches.
    pub fn clear_msgs(state: &mut ToastState)
        ensures
            final(state).view() == old(state).view().filter(survives_pane()),
    {
        retain_lines(&mut state.lines, false);
    }

    /// Removes `item` from the list toasts with prefix text `prefix`; a
    /// toast whose list is left empty goes.
    pub fn pop(state: &mut ToastState, prefix: &str, item: &ToastSpan)
        ensures
            final(state).view() == pop_spec(old(state).view(), prefix@, span_view(*item)),
    {
        let ghost v = state.view();
        let mut out: Vec<ToastLine> = Vec::new();
        let mut i: usize = 0;
        assert(v.take(0) =~= Seq::<LineView>::empty());
        while i < state.lines.len()
            invariant
                v == state.view(),
                i <= state.lines@.len(),
                out@.map_values(|l: ToastLine| line_view(l)) == pop_spec(
                    v.take(i as int),
                    prefix@,
                    span_view(*item),
                ),
            decreases state.lines@.len() - i,
        {
            proof {
                assert(v.take(i + 1).drop_last() =~= v.take(i as int));
                assert(v.take(i + 1).last() == v[i as int]);
            }
            let l = &state.lines[i];
            let ghost before = out@.map_values(|l: ToastLine| line_view(l));
            if str_eq(l.prefix.content.as_str(), prefix) {
                match &l.content {
                    ToastContent::List(items) => {
                        let kept = without_span(items, item);
                        if kept.len() > 0 {
                            let nl = ToastLine {
                                prefix: l.prefix.copy(),
                                content: ToastContent::List(kept),
                                flags: l.flags,
                            };
                            out.push(nl);
                            assert(out@.map_values(|l: ToastLine| line_view(l)) =~= before.push(
                                line_view(nl),
                            ));
                        }
                    },
                    _ => {
                        out.push(l.copy());
                        assert(out@.map_values(|l: ToastLine| line_view(l)) =~= before.push(v[i as int]));
                    },
                }
            } else {
                out.push(l.copy());
                assert(out@.map_values(|l: ToastLine| line_view(l)) =~= before.push(v[i as int]));
            }
            i = i + 1;
        }
        assert(v.take(state.lines@.len() as int) =~= v);
        state.lines = out;
    }

    /// Adds `items` under `prefix` with the flags `flags`: the first toast
    /// with that prefix text takes them (a list appends the ones it lacks,
    /// another content is replaced by the list), else a new list toast
    /// styled by `style` goes last.
    pub fn push_with_flag(
        state: &mut ToastState,
        style: ToastStyle,
        prefix: String,
        items: Vec<ToastSpan>,
        flags: ToastFlags,
    )
        ensures
            final(state).view() == push_spec(old(state).view(), style, prefix@, spans_view(items@), flags),
    {
        let ghost v = state.view();
        let mut i: usize = 0;
        while i < state.lines.len()
            invariant
                v == state.view(),
                v == old(state).view(),
                i <= state.lines@.len(),
                forall|j: int| 0 <= j < i ==> !(#[trigger] has_prefix(prefix@)(v[j])),
            decreases state.lines@.len() - i,
        {
            if str_eq(state.lines[i].prefix.content.as_str(), prefix.as_str()) {
                proof {
                    crate::text::lemma_first_index_is(v, has_prefix(prefix@), i as int);
                }
                let l = &state.lines[i];
                let c = match &l.content {
                    ToastContent::List(existing) => ToastContent::List(
                        append_new_exec(copy_spans(existing), &items),
                    ),
                    _ => ToastContent::List(items),
                };
                let nl = ToastLine { prefix: l.prefix.copy(), content: c, flags: l.flags };
                state.lines.set(i, nl);
                assert(state.view() =~= push_spec(v, style, prefix@, spans_view(items@), flags));
                return;
            }
            assert(!has_prefix(prefix@)(v[i as int]));
            i = i + 1;
        }
        proof {
            crate::text::lemma_first_index_is(v, has_prefix(prefix@), -1);
        }
        let nl = ToastLine {
            prefix: ToastSpan { content: prefix, style: SpanStyle::Level(style) },
            content: ToastContent::List(items),
            flags,
        };
        state.lines.push(nl);
        assert(state.view() =~= v.push(line_view(nl)));
    }

    /// Adds `items` under `prefix`; the toast survives pane switches.
    pub fn push(state: &mut ToastState, style: ToastStyle, prefix: String, items: Vec<ToastSpan>)
        ensures
            final(state).view() == push_spec(
                old(state).view(),
                style,
                prefix@,
                spans_view(items@),
                ToastFlags { persist_cursor: false, persist_pane: true },
            ),
    {
        TOAST::push_with_flag(state, style, prefix, items, ToastFlags::pane());
    }

    /// Adds a `from → to` toast under `prefix`, surviving pane switches.
    pub fn pair(state: &mut ToastState, style: ToastStyle, prefix: String, from: ToastSpan, to: ToastSpan)
        ensures
            final(state).view() == old(state).view().push(
                LineView {
                    prefix: (prefix@, SpanStyle::Level(style)),
                    content: ContentView::Pair(span_view(from), span_view(to)),
                    flags: ToastFlags { persist_cursor: false, persist_pane: true },
                },
            ),
    {
        let ghost v = state.view();
        let nl = ToastLine {
            prefix: ToastSpan { content: prefix, style: SpanStyle::Level(style) },
            content: ToastContent::Pair(from, to),
            flags: ToastFlags::pane(),
        };
        state.lines.push(nl);
        assert(state.view() =~= v.push(line_view(nl)));
    }

    /// Adds a notice `msg` prefixed by the style's label and `": "`,
    /// surviving pane switches.
    pub fn notice(state: &mut ToastState, style: ToastStyle, msg: String)
        ensures
            final(state).view() == old(state).view().push(
                LineView {
                    prefix: (style_label(style) + ": "@, SpanStyle::Level(style)),
                    content: ContentView::Line(seq![(msg@, SpanStyle::Raw)]),
                    flags: ToastFlags { persist_cursor: false, persist_pane: true },
                },
            ),
    {
        let ghost v = state.view();
        let mut label = style.label();
        label.append(": ");
        let mut spans: Vec<ToastSpan> = Vec::new();
        spans.push(ToastSpan::raw(msg));
        let nl = ToastLine {
            prefix: ToastSpan { content: label, style: SpanStyle::Level(style) },
            content: ToastContent::Line(spans),
            flags: ToastFlags::pane(),
        };
        state.lines.push(nl);
        assert(spans_view(spans@) =~= seq![(msg@, SpanStyle::Raw)]);
        assert(state.view() =~= v.push(line_view(nl)));
    }

    /// Adds an ad-hoc line showing `spans`; with `replace`, the lines that
    /// do not survive pane switches go first.
    pub fn msg(state: &mut ToastState, spans: Vec<ToastSpan>, replace: bool)
        ensures
            final(state).view() == (if replace {
                old(state).view().filter(survives_pane())
            } else {
                old(state).view()
            }).push(msg_line(spans_view(spans@))),
    {
        if replace {
            retain_lines(&mut state.lines, false);
        }
        let ghost v = state.view();
        let nl = ToastLine {
            prefix: ToastSpan { content: String::new(), style: SpanStyle::Raw },
            content: ToastContent::Line(spans),
            flags: ToastFlags::empty(),
        };
        state.lines.push(nl);
        assert(state.view() =~= v.push(line_view(nl)));
    }

    /// Shows a faint `No entries` line in place of the transient messages.
    pub fn toast_empty(state: &mut ToastState)
        ensures
            final(state).view() == old(state).view().filter(survives_pane()).push(
                msg_line(seq![("No entries"@, SpanStyle::Faint)]),
            ),
    {
        let mut spans: Vec<ToastSpan> = Vec::new();
        spans.push(ToastSpan { content: "No entries".to_string(), style: SpanStyle::Faint });
        proof {
            reveal_strlit("No entries");
        }
        assert(spans_view(spans@) =~= seq![("No entries"@, SpanStyle::Faint)]);
        TOAST::msg(state, spans, true);
    }
}

} // verus!

verus! {

/// Whether no two spans of `s` are equal.
pub open spec fn spans_distinct(s: Seq<SpanView>) -> bool {
    forall|i: int, j: int| 0 <= i < j < s.len() ==> s[i] != s[j]
}

/// Merging items into a list without duplicates keeps it without
/// duplicates, and every item ends up in it.
pub proof fn lemma_append_new_distinct(existing: Seq<SpanView>, items: Seq<SpanView>)
    requires
        spans_distinct(existing),
    ensures
        spans_distinct(append_new(existing, items)),
        forall|k: int| 0 <= k < items.len() ==> append_new(existing, items).contains(#[trigger] items[k]),
    decreases items.len(),
{
    if items.len() > 0 {
        let r = append_new(existing, items.drop_last());
        lemma_append_new_distinct(existing, items.drop_last());
        let x = items.last();
        if !r.contains(x) {
            let t = r.push(x);
            assert forall|i: int, j: int| 0 <= i < j < t.len() implies t[i] != t[j] by {
                if j == r.len() {
                    assert(t[i] == r[i]);
                    assert(r.contains(r[i]));
                }
            }
        }
        let a = append_new(existing, items);
        assert forall|k: int| 0 <= k < items.len() implies a.contains(#[trigger] items[k]) by {
            if k < items.len() - 1 {
                assert(items[k] == items.drop_last()[k]);
                let w = choose|w: int| 0 <= w < r.len() && r[w] == items.drop_last()[k];
                if !r.contains(x) {
                    assert(a[w] == r[w]);
                }
            } else if r.contains(x) {
            } else {
                assert(a[r.len() as int] == x);
            }
        }
    }
}

/// After popping `item` from the lists with prefix text `prefix`, no such
/// list holds `item`.
pub proof fn lemma_pop_removes_item(lines: Seq<LineView>, prefix: Seq<char>, item: SpanView)
    ensures
        forall|k: int|
            0 <= k < pop_spec(lines, prefix, item).len() && (#[trigger] pop_spec(lines, prefix, item)[k]).prefix.0
                == prefix && pop_spec(lines, prefix, item)[k].content is List ==> !pop_spec(
                lines,
                prefix,
                item,
            )[k].content->List_0.contains(item),
    decreases lines.len(),
{
    if lines.len() > 0 {
        lemma_pop_removes_item(lines.drop_last(), prefix, item);
        let r = pop_spec(lines.drop_last(), prefix, item);
        let l = lines.last();
        let p = pop_spec(lines, prefix, item);
        assert forall|k: int|
            0 <= k < p.len() && (#[trigger] p[k]).prefix.0 == prefix && p[k].content is List implies !p[k].content->List_0.contains(
            item,
        ) by {
            if k < r.len() {
                assert(p[k] == r[k]);
            } else {
                let kept = l.content->List_0.filter(not_span(item));
                assert(p[k].content->List_0 == kept);
                if kept.contains(item) {
                    let w = choose|w: int| 0 <= w < kept.len() && kept[w] == item;
                    l.content->List_0.filter_lemma(not_span(item));
                    assert(not_span(item)(kept[w]));
                }
            }
        }
    }
}

} // verus!

verus! {

/// Whether `s` starts with `p`.
pub open spec fn starts_with(s: Seq<char>, p: Seq<char>) -> bool {
    p.len() <= s.len() && s.subrange(0, p.len() as int) == p
}

/// Whether a line is the skipped counter: no prefix, a plain line whose
/// first span starts with `Skipped`.
pub open spec fn is_skipped_line() -> spec_fn(LineView) -> bool {
    |l: LineView|
        l.prefix.0.len() == 0 && l.content is Line && l.content->Line_0.len() > 0 && starts_with(
            l.content->Line_0[0].0,
            "Skipped"@,
        )
}

/// Whether every character of `s` is an ASCII digit.
pub open spec fn all_digits(s: Seq<char>) -> bool {
    forall|i: int| 0 <= i < s.len() ==> '0' <= #[trigger] s[i] <= '9'
}

/// The number the decimal digits `s` spell.
pub open spec fn digits_value(s: Seq<char>) -> nat
    decreases s.len(),
{
    if s.len() == 0 {
        0
    } else {
        digits_value(s.drop_last()) * 10 + ((s.last() as nat) - 48) as nat
    }
}

/// The counter text for `n` skips.
pub open spec fn skipped_text(n: nat) -> Seq<char> {
    "Skipped ("@ + crate::text::decimal(n) + ")"@
}

/// The count after one more skip, from the counter's current text: `2`
/// after a bare `Skipped`, `n + 1` after `Skipped (n)`, and `2` for any
/// other text (or a count at the limit of `usize`).
pub open spec fn skipped_next(t: Seq<char>) -> nat {
    let mid = t.subrange(9, t.len() - 1);
    if t.len() >= 11 && t.subrange(0, 9) == "Skipped ("@ && t.last() == ')' && all_digits(mid)
        && digits_value(mid) < usize::MAX {
        digits_value(mid) + 1
    } else {
        2
    }
}

/// The lines after one more skip: the first counter line shows the next
/// count (dim), or a new `Skipped` line (dim, no prefix, no flags) goes last.
pub open spec fn push_skipped_spec(lines: Seq<LineView>) -> Seq<LineView> {
    let i = crate::text::first_index(lines, is_skipped_line());
    if i >= 0 {
        let l = lines[i];
        let spans = l.content->Line_0;
        let n = skipped_next(spans[0].0);
        lines.update(
            i,
            LineView {
                content: ContentView::Line(spans.update(0, (skipped_text(n), SpanStyle::Dim))),
                ..l
            },
        )
    } else {
        lines.push(msg_line(seq![("Skipped"@, SpanStyle::Dim)]))
    }
}

/// The decimal digits of `n` spell `n`.
pub proof fn lemma_decimal_digits(n: nat)
    ensures
        all_digits(crate::text::decimal(n)),
        digits_value(crate::text::decimal(n)) == n,
        crate::text::decimal(n).len() >= 1,
    decreases n,
{
    let d = crate::text::decimal(n);
    if n < 10 {
        assert(d.drop_last() =~= Seq::<char>::empty());
        assert(d.last() == crate::text::digit_char(n));
        assert(crate::text::digit_char(n) as nat == n + 48);
        assert(digits_value(d.drop_last()) == 0);
    } else {
        lemma_decimal_digits(n / 10);
        assert(d.drop_last() =~= crate::text::decimal(n / 10));
        assert(d.last() == crate::text::digit_char(n % 10));
        assert(crate::text::digit_char(n % 10) as nat == n % 10 + 48);
        assert forall|i: int| 0 <= i < d.len() implies '0' <= #[trigger] d[i] <= '9' by {
            if i < d.len() - 1 {
                assert(d[i] == crate::text::decimal(n / 10)[i]);
            }
        }
        assert((n / 10) * 10 + n % 10 == n) by (nonlinear_arith);
    }
}

/// Each skip counts one more: `Skipped` becomes `Skipped (2)`, and
/// `Skipped (n)` becomes `Skipped (n + 1)`.
pub proof fn lemma_skipped_increments(n: nat)
    requires
        n < usize::MAX,
    ensures
        skipped_next("Skipped"@) == 2,
        skipped_next(skipped_text(n)) == n + 1,
{
    reveal_strlit("Skipped");
    reveal_strlit("Skipped (");
    reveal_strlit(")");
    let t = skipped_text(n);
    let d = crate::text::decimal(n);
    lemma_decimal_digits(n);
    assert(t.subrange(0, 9) =~= "Skipped ("@);
    assert(t.subrange(9, t.len() - 1) =~= d);
}

/// A longer digit prefix spells a number at least as large.
proof fn lemma_digits_monotone(s: Seq<char>, j: int)
    requires
        0 <= j <= s.len(),
        all_digits(s),
    ensures
        digits_value(s.take(j)) <= digits_value(s),
    decreases s.len() - j,
{
    if j < s.len() {
        assert(s.drop_last().take(j) =~= s.take(j));
        assert forall|i: int| 0 <= i < s.drop_last().len() implies '0' <= #[trigger] s.drop_last()[i] <= '9' by {
            assert(s.drop_last()[i] == s[i]);
        }
        lemma_digits_monotone(s.drop_last(), j);
        assert(s[s.len() - 1] == s.last());
    } else {
        assert(s.take(j) =~= s);
    }
}

/// The next count from the counter text `t`.
fn skipped_next_exec(t: &Vec<char>) -> (n: usize)
    ensures
        n == skipped_next(t@),
{
    proof {
        reveal_strlit("Skipped (");
    }
    let pre = to_chars("Skipped (");
    let len = t.len();
    if len < 11 || t[len - 1] != ')' {
        return 2;
    }
    let mut k: usize = 0;
    assert(t@.subrange(0, 0) =~= pre@.subrange(0, 0));
    while k < 9
        invariant
            k <= 9,
            len == t@.len(),
            len >= 11,
            pre@ == "Skipped ("@,
            pre@.len() == 9,
            t@.subrange(0, k as int) == pre@.subrange(0, k as int),
        decreases 9 - k,
    {
        if t[k] != pre[k] {
            assert(t@.subrange(0, 9)[k as int] != "Skipped ("@[k as int]);
            return 2;
        }
        assert(t@.subrange(0, k + 1) =~= pre@.subrange(0, k + 1));
        k = k + 1;
    }
    assert(pre@.subrange(0, 9) =~= pre@);
    let ghost mid = t@.subrange(9, len - 1);
    let mut val: usize = 0;
    let mut big = false;
    let mut i: usize = 9;
    while i < len - 1
        invariant
            9 <= i <= len - 1,
            len == t@.len(),
            mid == t@.subrange(9, len - 1),
            all_digits(mid.take(i - 9)),
            !big ==> val == digits_value(mid.take(i - 9)),
            big ==> digits_value(mid.take(i - 9)) >= usize::MAX,
        decreases len - 1 - i,
    {
        let c = t[i];
        if c < '0' || c > '9' {
            assert(!('0' <= mid[i - 9] <= '9'));
            return 2;
        }
        let d = (c as u32 - 48) as usize;
        let ghost p = mid.take(i - 9);
        let ghost q = mid.take(i - 9 + 1);
        proof {
            assert(q.drop_last() =~= p);
            assert(q.last() == c);
            assert forall|j: int| 0 <= j < q.len() implies '0' <= #[trigger] q[j] <= '9' by {
                if j < p.len() {
                    assert(q[j] == p[j]);
                }
            }
        }
        if !big {
            if val > (usize::MAX - d) / 10 {
                big = true;
                assert(digits_value(q) >= usize::MAX) by (nonlinear_arith)
                    requires
                        digits_value(q) == val * 10 + d,
                        val > (usize::MAX - d) / 10,
                        d <= 9,
                ;
            } else {
                assert(val * 10 + d <= usize::MAX) by (nonlinear_arith)
                    requires
                        val <= (usize::MAX - d) / 10,
                        d <= 9,
                ;
                val = val * 10 + d;
            }
        } else {
            assert(digits_value(q) >= digits_value(p)) by (nonlinear_arith)
                requires
                    digits_value(q) == digits_value(p) * 10 + d,
            ;
        }
        i = i + 1;
    }
    assert(mid.take(len - 1 - 9) =~= mid);
    if big || val == usize::MAX {
        2
    } else {
        val + 1
    }
}

impl TOAST {
    /// Counts one more skipped item: the first counter line goes from
    /// `Skipped` to `Skipped (2)` and from `Skipped (n)` to
    /// `Skipped (n + 1)`; without one, a `Skipped` line is added.
    pub fn push_skipped(state: &mut ToastState)
        ensures
            final(state).view() == push_skipped_spec(old(state).view()),
    {
        proof {
            reveal_strlit("Skipped");
        }
        let ghost v = state.view();
        let word = to_chars("Skipped");
        let mut i: usize = 0;
        while i < state.lines.len()
            invariant
                v == state.view(),
                v == old(state).view(),
                word@ == "Skipped"@,
                word@.len() == 7,
                i <= state.lines@.len(),
                forall|j: int| 0 <= j < i ==> !(#[trigger] is_skipped_line()(v[j])),
            decreases state.lines@.len() - i,
        {
            let l = &state.lines[i];
            let hit = match &l.content {
                ToastContent::Line(spans) => {
                    if l.prefix.content.unicode_len() == 0 && spans.len() > 0 {
                        let first = to_chars(spans[0].content.as_str());
                        if first.len() >= 7 {
                            let mut k: usize = 0;
                            let mut same = true;
                            assert(first@.subrange(0, 0) =~= word@.subrange(0, 0));
                            while k < 7
                                invariant
                                    k <= 7,
                                    first@.len() >= 7,
                                    word@.len() == 7,
                                    same == (first@.subrange(0, k as int) == word@.subrange(0, k as int)),
                                decreases 7 - k,
                            {
                                if first[k] != word[k] {
                                    assert(first@.subrange(0, k + 1)[k as int] != word@.subrange(0, k + 1)[k as int]);
                                    same = false;
                                } else if same {
                                    assert(first@.subrange(0, k + 1) =~= word@.subrange(0, k + 1));
                                }
                                if !same {
                                    assert(first@.subrange(0, k + 1) != word@.subrange(0, k + 1)) by {
                                        if first@.subrange(0, k + 1) == word@.subrange(0, k + 1) {
                                            assert(first@.subrange(0, k as int) =~= first@.subrange(0, k + 1).subrange(0, k as int));
                                            assert(word@.subrange(0, k as int) =~= word@.subrange(0, k + 1).subrange(0, k as int));
                                        }
                                    }
                                }
                                k = k + 1;
                            }
                            assert(word@.subrange(0, 7) =~= word@);
                            same
                        } else {
                            false
                        }
                    } else {
                        false
                    }
                },
                _ => false,
            };
            assert(hit == is_skipped_line()(v[i as int]));
            if hit {
                proof {
                    crate::text::lemma_first_index_is(v, is_skipped_line(), i as int);
                }
                let nl = match &l.content {
                    ToastContent::Line(spans) => {
                        let first = to_chars(spans[0].content.as_str());
                        let n = skipped_next_exec(&first);
                        let mut text = String::new();
                        text.append("Skipped (");
                        crate::text::push_decimal(&mut text, n);
                        text.append(")");
                        let mut ns = copy_spans(spans);
                        ns.set(0, ToastSpan { content: text, style: SpanStyle::Dim });
                        assert(spans_view(ns@) =~= spans_view(spans@).update(
                            0,
                            (skipped_text(n as nat), SpanStyle::Dim),
                        ));
                        ToastLine { prefix: l.prefix.copy(), content: ToastContent::Line(ns), flags: l.flags }
                    },
                    _ => ToastLine { prefix: l.prefix.copy(), content: l.content.copy(), flags: l.flags },
                };
                state.lines.set(i, nl);
                assert(state.view() =~= push_skipped_spec(v));
                return;
            }
            i = i + 1;
        }
        proof {
            crate::text::lemma_first_index_is(v, is_skipped_line(), -1);
        }
        let mut spans: Vec<ToastSpan> = Vec::new();
        spans.push(ToastSpan { content: "Skipped".to_string(), style: SpanStyle::Dim });
        let nl = ToastLine {
            prefix: ToastSpan { content: String::new(), style: SpanStyle::Raw },
            content: ToastContent::Line(spans),
            flags: ToastFlags::empty(),
        };
        state.lines.push(nl);
        assert(spans_view(spans@) =~= seq![("Skipped"@, SpanStyle::Dim)]);
        assert(state.view() =~= v.push(line_view(nl)));
    }
}

} // verus!

verus! {

/// The separator between the items of a list toast.
pub open spec fn list_separator() -> SpanView {
    (", "@, SpanStyle::Raw)
}

/// The arrow between the two sides of a pair toast.
pub open spec fn pair_arrow() -> SpanView {
    (" → "@, SpanStyle::Raw)
}

/// `items` with the separator between each two neighbours.
pub open spec fn comma_separated(items: Seq<SpanView>) -> Seq<SpanView>
    decreases items.len(),
{
    if items.len() == 0 {
        Seq::empty()
    } else if items.len() == 1 {
        items
    } else {
        comma_separated(items.drop_last()).push(list_separator()).push(items.last())
    }
}

/// The spans a toast line is rendered as: its prefix, then its content.
pub open spec fn rendered_line(l: LineView) -> Seq<SpanView> {
    seq![l.prefix] + match l.content {
        ContentView::List(items) => comma_separated(items),
        ContentView::Pair(a, b) => seq![a, pair_arrow(), b],
        ContentView::Line(spans) => spans,
    }
}

/// The footer rows of the active toasts, top to bottom, each as its spans.
pub fn make_toast(state: &ToastState) -> (rows: Vec<Vec<ToastSpan>>)
    ensures
        rows@.len() == state.view().len(),
        forall|i: int| 0 <= i < rows@.len() ==> spans_view(#[trigger] rows@[i]@) == rendered_line(state.view()[i]),
{
    let mut rows: Vec<Vec<ToastSpan>> = Vec::new();
    let mut i: usize = 0;
    while i < state.lines.len()
        invariant
            i <= state.lines@.len(),
            rows@.len() == i,
            forall|k: int| 0 <= k < i ==> spans_view(#[trigger] rows@[k]@) == rendered_line(state.view()[k]),
        decreases state.lines@.len() - i,
    {
        let row = render_line(&state.lines[i]);
        let ghost before = rows@;
        rows.push(row);
        proof {
            assert(state.view()[i as int] == line_view(state.lines@[i as int]));
            assert forall|k: int| 0 <= k < i + 1 implies spans_view(#[trigger] rows@[k]@) == rendered_line(
                state.view()[k],
            ) by {
                if k < i {
                    assert(rows@[k] == before[k]);
                }
            }
        }
        i = i + 1;
    }
    rows
}

/// The spans of one toast line.
fn render_line(line: &ToastLine) -> (row: Vec<ToastSpan>)
    ensures
        spans_view(row@) == rendered_line(line_view(*line)),
{
    let mut row: Vec<ToastSpan> = Vec::new();
    row.push(line.prefix.copy());
    let ghost head = spans_view(row@);
    assert(head =~= seq![span_view(line.prefix)]);
    match &line.content {
        ToastContent::List(items) => {
            let mut j: usize = 0;
            while j < items.len()
                invariant
                    j <= items@.len(),
                    head == seq![span_view(line.prefix)],
                    spans_view(row@) == head + comma_separated(spans_view(items@).take(j as int)),
                decreases items@.len() - j,
            {
                let ghost before = row@;
                let ghost done = spans_view(items@).take(j as int);
                let ghost next = spans_view(items@).take(j + 1);
                assert(next.drop_last() =~= done);
                assert(next.last() == span_view(items@[j as int]));
                if j > 0 {
                    row.push(ToastSpan::raw(", ".to_string()));
                }
                row.push(items[j].copy());
                proof {
                    if j > 0 {
                        assert(spans_view(row@) =~= spans_view(before).push(list_separator()).push(
                            span_view(items@[j as int]),
                        ));
                    } else {
                        assert(spans_view(row@) =~= spans_view(before).push(span_view(items@[j as int])));
                        assert(next =~= seq![span_view(items@[0])]);
                    }
                }
                j = j + 1;
            }
            assert(spans_view(items@).take(items@.len() as int) =~= spans_view(items@));
        },
        ToastContent::Pair(a, b) => {
            let ghost before = row@;
            row.push(a.copy());
            row.push(ToastSpan::raw(" → ".to_string()));
            row.push(b.copy());
            assert(spans_view(row@) =~= head + seq![span_view(*a), pair_arrow(), span_view(*b)]);
        },
        ToastContent::Line(spans) => {
            let mut j: usize = 0;
            while j < spans.len()
                invariant
                    j <= spans@.len(),
                    head == seq![span_view(line.prefix)],
                    spans_view(row@) == head + spans_view(spans@).take(j as int),
                decreases spans@.len() - j,
            {
                let ghost before = row@;
                row.push(spans[j].copy());
                assert(spans_view(row@) =~= spans_view(before).push(span_view(spans@[j as int])));
                assert(spans_view(spans@).take(j + 1) =~= spans_view(spans@).take(j as int).push(
                    span_view(spans@[j as int]),
                ));
                j = j + 1;
            }
            assert(spans_view(spans@).take(spans@.len() as int) =~= spans_view(spans@));
        },
    }
    row
}

} // verus!
