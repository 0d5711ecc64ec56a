//! Decisions of the input handlers: what a paste does.

use vstd::prelude::*;
use crate::menu::MenuActions;
use crate::run::queue::selector::QueueSelector;
use crate::run::queue::state::{QueueState, QUEUE, Selection, select_spec};
use crate::run::state::toast::{
    ContentView, LineView, SpanStyle, ToastFlags, ToastSpan, ToastState, ToastStyle, TOAST,
    msg_line, style_label, survives_pane,
};

verus! {

/// What a paste does.
#[derive(Debug)]
pub enum PasteOutcome {
    /// The pasted text goes into the query.
    Insert(String),
    /// Run these queue rows into the navigation directory `base`.
    Dispatch(Vec<usize>, String),
    /// Nothing runs; a toast tells why.
    Nothing,
}

/// The paste handler. In a navigation pane, unless pasting always inserts,
/// the prompt is being edited or an overlay is open, a paste runs the
/// queued builtin transfers into the navigation directory (telling when a
/// destination is missing or nothing is queued); otherwise the text goes
/// into the query.
pub fn paste_handler(
    content: String,
    nav_cwd: Option<String>,
    always_paste: bool,
    in_prompt: bool,
    overlay_open: bool,
    queue: &QueueState,
    toasts: &mut ToastState,
    actions: Option<&MenuActions>,
) -> (r: PasteOutcome)
    ensures
        match nav_cwd {
            Some(c) => if always_paste || in_prompt || overlay_open {
                (r matches PasteOutcome::Insert(t) && t@ == content@) && final(toasts).view()
                    == old(toasts).view()
            } else {
                match select_spec(queue.rows(), QueueSelector::Builtins, true, actions) {
                    Selection::Ready(m) => (r matches PasteOutcome::Dispatch(v, b) && v@ == m && b@
                        == c@) && final(toasts).view() == old(toasts).view(),
                    Selection::MissingDestination => r is Nothing && final(toasts).view() == old(
                        toasts,
                    ).view().push(
                        LineView {
                            prefix: (style_label(ToastStyle::Error) + ": "@, SpanStyle::Level(ToastStyle::Error)),
                            content: ContentView::Line(seq![("Missing destination for the queued items."@, SpanStyle::Raw)]),
                            flags: ToastFlags { persist_cursor: false, persist_pane: true },
                        },
                    ),
                    Selection::NoItems => r is Nothing && final(toasts).view() == old(toasts).view().filter(
                        survives_pane(),
                    ).push(msg_line(seq![("No items queued."@, SpanStyle::Raw)])),
                }
            },
            None => (r matches PasteOutcome::Insert(t) && t@ == content@) && final(toasts).view()
                == old(toasts).view(),
        },
{
    match nav_cwd {
        Some(c) => {
            if always_paste || in_prompt || overlay_open {
                return PasteOutcome::Insert(content);
            }
            let sel = QueueSelector::Builtins;
            match QUEUE::select(queue, &sel, Some(c.as_str()), actions) {
                crate::run::queue::state::SelectorResult::Ready(indices) => PasteOutcome::Dispatch(indices, c),
                crate::run::queue::state::SelectorResult::MissingDestination => {
                    TOAST::notice(toasts, ToastStyle::Error, "Missing destination for the queued items.".to_string());
                    PasteOutcome::Nothing
                },
                crate::run::queue::state::SelectorResult::NoItems => {
                    let mut spans: Vec<ToastSpan> = Vec::new();
                    spans.push(ToastSpan::raw("No items queued.".to_string()));
                    proof {
                        reveal_strlit("No items queued.");
                    }
                    assert(crate::run::state::toast::spans_view(spans@) =~= seq![("No items queued."@, SpanStyle::Raw)]);
                    TOAST::msg(toasts, spans, true);
                    PasteOutcome::Nothing
                },
            }
        },
        None => PasteOutcome::Insert(content),
    }
}

} // verus!
