//! What running one queue row does, decided from its kind, destination
//! and sources.

use vstd::prelude::*;
use crate::collections::entry_index;
use crate::menu::MenuActions;
use crate::run::queue::state::QueueItem;
use crate::run::queue::status::{AtomicQueueItemState, QueueItemState};
use crate::text::{decimal, str_eq, usize_to_decimal};

verus! {

/// The step that runs a queue row.
#[derive(Debug, Clone, PartialEq, Eq)]
pub enum QueueStep {
    /// An extraction row never runs here: it fails.
    Reject,
    /// A symlink row without a resolved destination fails.
    Unresolved,
    /// A symlink onto its own source is skipped and marked `PendingErr`.
    Identity,
    /// Symlink the destination to the source.
    Symlink,
    /// The `none` kind completes at once.
    Noop,
    /// The builtin transfer, moving when `is_move`.
    Transfer { is_move: bool },
    /// Run the menu action's script.
    Script(String),
    /// No menu action has the row's kind: the row fails.
    NoAction,
}

/// The model of a step.
pub enum QueueStepView {
    Reject,
    Unresolved,
    Identity,
    Symlink,
    Noop,
    Transfer { is_move: bool },
    Script(Seq<char>),
    NoAction,
}

/// The model of a step.
pub open spec fn queue_step_view(s: QueueStep) -> QueueStepView {
    match s {
        QueueStep::Reject => QueueStepView::Reject,
        QueueStep::Unresolved => QueueStepView::Unresolved,
        QueueStep::Identity => QueueStepView::Identity,
        QueueStep::Symlink => QueueStepView::Symlink,
        QueueStep::Noop => QueueStepView::Noop,
        QueueStep::Transfer { is_move } => QueueStepView::Transfer { is_move },
        QueueStep::Script(c) => QueueStepView::Script(c@),
        QueueStep::NoAction => QueueStepView::NoAction,
    }
}

/// The step of a row of `kind` with destination `dst` and sources `src`.
pub open spec fn queue_step_spec(
    kind: Seq<char>,
    dst: Seq<char>,
    src: Seq<Seq<char>>,
    actions: Option<&MenuActions>,
) -> QueueStepView {
    if kind == "extract"@ {
        QueueStepView::Reject
    } else if kind == "symlink"@ {
        if dst.len() == 0 {
            QueueStepView::Unresolved
        } else if src.len() > 0 && src[0] == dst {
            QueueStepView::Identity
        } else {
            QueueStepView::Symlink
        }
    } else if kind == "none"@ {
        QueueStepView::Noop
    } else if kind == "copy"@ {
        QueueStepView::Transfer { is_move: false }
    } else if kind == "move"@ {
        QueueStepView::Transfer { is_move: true }
    } else {
        match actions {
            Some(a) => if a.has_key(kind) {
                QueueStepView::Script(a.entries()[entry_index(a.entries(), kind)].1.command@)
            } else {
                QueueStepView::NoAction
            },
            None => QueueStepView::NoAction,
        }
    }
}

/// Decides how to run `item`: a builtin kind by its transfer, `none` at
/// once, any other kind by the script of the menu action of that name.
pub fn perform_step(item: &QueueItem, actions: Option<&MenuActions>) -> (s: QueueStep)
    ensures
        queue_step_view(s) == queue_step_spec(item.kind@, item.dst@, item.src.deep_view(), actions),
{
    let kind = item.kind.as_str();
    if str_eq(kind, "extract") {
        QueueStep::Reject
    } else if str_eq(kind, "symlink") {
        if item.dst.unicode_len() == 0 {
            QueueStep::Unresolved
        } else if item.src.len() > 0 && str_eq(item.src[0].as_str(), item.dst.as_str()) {
            QueueStep::Identity
        } else {
            QueueStep::Symlink
        }
    } else if str_eq(kind, "none") {
        QueueStep::Noop
    } else if str_eq(kind, "copy") {
        QueueStep::Transfer { is_move: false }
    } else if str_eq(kind, "move") {
        QueueStep::Transfer { is_move: true }
    } else {
        match actions {
            Some(a) => match a.get(kind) {
                Some(action) => QueueStep::Script(action.command.clone()),
                None => QueueStep::NoAction,
            },
            None => QueueStep::NoAction,
        }
    }
}

} // verus!

verus! {

/// The state of a transfer task, as the copy engine reports it.
#[derive(Debug, Clone, Copy, PartialEq, Eq, Structural)]
pub enum EngineState {
    Pending,
    Started,
    CompleteOk,
    CompleteErr,
    Canceled,
}

/// What the watcher makes of a task's state.
#[derive(Debug, Clone, PartialEq, Eq)]
pub enum WatchOutcome {
    /// Still running: only the progress is mirrored.
    Running,
    /// Finished: the row completes and a `Complete:` toast names it.
    Succeeded,
    /// Failed or canceled: the row fails, a `Failed:` toast names it, and
    /// a notice says why.
    Failed(String),
}

/// The watcher's reading of a task in `state` with `files_failed` failed files.
pub fn watch_outcome(state: EngineState, files_failed: usize) -> (o: WatchOutcome)
    ensures
        match state {
            EngineState::Pending | EngineState::Started => o == WatchOutcome::Running,
            EngineState::CompleteOk => o == WatchOutcome::Succeeded,
            EngineState::Canceled => o matches WatchOutcome::Failed(w) && w@ == "canceled"@,
            EngineState::CompleteErr => o matches WatchOutcome::Failed(w) && w@ == decimal(files_failed as nat)
                + " file(s) failed"@,
        },
{
    match state {
        EngineState::Pending | EngineState::Started => WatchOutcome::Running,
        EngineState::CompleteOk => WatchOutcome::Succeeded,
        EngineState::Canceled => WatchOutcome::Failed("canceled".to_string()),
        EngineState::CompleteErr => {
            let mut w = usize_to_decimal(files_failed);
            w.append(" file(s) failed");
            WatchOutcome::Failed(w)
        },
    }
}

/// What finishing a row does besides its toasts.
#[derive(Debug, Clone, Copy, PartialEq, Eq, Structural)]
pub struct FinishEffects {
    /// Mark the extraction's skeleton directory as failed and say so.
    pub mark_extraction_failed: bool,
    /// Retire the `Extracting:` toast of the row.
    pub retire_extracting_toast: bool,
}

/// The effects of finishing a row of `kind` in state `target`: only
/// extraction rows have any.
pub open spec fn finish_effects_of(kind: Seq<char>, target: QueueItemState) -> FinishEffects {
    FinishEffects {
        mark_extraction_failed: kind == "extract"@ && target == QueueItemState::CompleteErr,
        retire_extracting_toast: kind == "extract"@,
    }
}

/// The compare-exchange that finishing a row in `target` asks for: from
/// `Started` to `target`.
fn finish_request(target: QueueItemState) -> (r: (QueueItemState, QueueItemState))
    ensures
        r == (QueueItemState::Started, target),
{
    (QueueItemState::Started, target)
}

/// What finishing a row does, given the outcome `prev` of the compare-exchange
/// out of `Started`.
pub open spec fn finish_outcome(
    prev: Result<QueueItemState, QueueItemState>,
    kind: Seq<char>,
    target: QueueItemState,
) -> Option<FinishEffects> {
    match prev {
        Ok(_) => Some(finish_effects_of(kind, target)),
        Err(_) => None,
    }
}

/// The effects of finishing a row of `kind` in `target`, given the outcome
/// `prev` of the compare-exchange out of `Started`: the caller whose exchange
/// succeeded carries them out, every other caller gets `None`.
pub fn finish_from(prev: Result<QueueItemState, QueueItemState>, kind: &str, target: QueueItemState) -> (r:
    Option<FinishEffects>)
    ensures
        r == finish_outcome(prev, kind@, target),
{
    match prev {
        Err(_) => None,
        Ok(_) => {
            let extract = str_eq(kind, "extract");
            Some(
                FinishEffects {
                    mark_extraction_failed: extract && target == QueueItemState::CompleteErr,
                    retire_extracting_toast: extract,
                },
            )
        },
    }
}

/// Finish a started row in `target`: the one caller that moves the row's
/// state from `Started` gets the effects to carry out, every later caller
/// gets `None`, so the row is announced once. Which of the two comes back
/// depends on the shared cell, which other threads also change.
pub fn finish_row(status: &AtomicQueueItemState, kind: &str, target: QueueItemState) -> (r: Option<FinishEffects>)
    ensures
        r == None::<FinishEffects> || r == Some(finish_effects_of(kind@, target)),
{
    let req = finish_request(target);
    let prev = status.compare_exchange(req.0, req.1);
    finish_from(prev, kind, target)
}

} // verus!
