//! How a stash row is transferred: the strategy its kind and mode pick,
//! the command line of a command strategy, and the progress fraction.

use vstd::prelude::*;
use crate::chars::{replace_all, replace_str};
use crate::text::str_eq;

verus! {

/// How a stash kind transfers its rows.
#[derive(Debug, Clone, PartialEq, Eq)]
pub enum ExecuteStrategy {
    Copy,
    Cut,
    Symlink,
    /// Run a shell command made from the template.
    Command(String),
    /// Do nothing (configured as `None`).
    NoOp,
}

/// What one row's transfer does.
#[derive(Debug, Clone, PartialEq, Eq)]
pub enum TransferStep {
    /// Symlink the destination to the source.
    Symlink,
    /// Run this shell command.
    Run(String),
    /// Nothing to do: the row completes at once.
    Nothing,
    /// The builtin copy, moving when `is_move`.
    Builtin { is_move: bool },
}

/// The model of a step.
pub enum StepView {
    Symlink,
    Run(Seq<char>),
    Nothing,
    Builtin { is_move: bool },
}

/// The model of a step.
pub open spec fn step_view(t: TransferStep) -> StepView {
    match t {
        TransferStep::Symlink => StepView::Symlink,
        TransferStep::Run(c) => StepView::Run(c@),
        TransferStep::Nothing => StepView::Nothing,
        TransferStep::Builtin { is_move } => StepView::Builtin { is_move },
    }
}

/// The command of a command strategy: `{1}` stands for the source, then
/// `{2}` for the destination.
pub open spec fn stash_command(src: Seq<char>, dst: Seq<char>, template: Seq<char>) -> Seq<char> {
    replace_all(replace_all(template, "{1}"@, src), "{2}"@, dst)
}

/// Fills the command template `template` with the source and destination.
pub fn stash_formatter(src: &str, dst: &str, template: &str) -> (s: String)
    ensures
        s@ == stash_command(src@, dst@, template@),
{
    proof {
        reveal_strlit("{1}");
        reveal_strlit("{2}");
    }
    let a = replace_str(template, "{1}", src);
    replace_str(a.as_str(), "{2}", dst)
}

/// The step of a row of `kind` from `src` to `dst`, under the configured
/// strategy `configured` of its kind: the builtin kinds copy (`copy` and
/// `symlink`) or move (`cut`); another kind symlinks, runs its command,
/// does nothing, or falls back to the builtin copy (moving for `Cut`).
pub open spec fn transfer_step_spec(kind: Seq<char>, configured: ExecuteStrategy, src: Seq<char>, dst: Seq<char>) -> StepView {
    if kind == "copy"@ || kind == "symlink"@ {
        StepView::Builtin { is_move: false }
    } else if kind == "cut"@ {
        StepView::Builtin { is_move: true }
    } else {
        match configured {
            ExecuteStrategy::Symlink => StepView::Symlink,
            ExecuteStrategy::NoOp => StepView::Nothing,
            ExecuteStrategy::Copy => StepView::Builtin { is_move: false },
            ExecuteStrategy::Cut => StepView::Builtin { is_move: true },
            ExecuteStrategy::Command(t) => StepView::Run(stash_command(src, dst, t@)),
        }
    }
}

/// Decides the transfer of a row of `kind` from `src` to `dst` under the
/// configured strategy of its kind.
pub fn transfer_step(kind: &str, configured: &ExecuteStrategy, src: &str, dst: &str) -> (t: TransferStep)
    ensures
        step_view(t) == transfer_step_spec(kind@, *configured, src@, dst@),
{
    if str_eq(kind, "copy") || str_eq(kind, "symlink") {
        return TransferStep::Builtin { is_move: false };
    }
    if str_eq(kind, "cut") {
        return TransferStep::Builtin { is_move: true };
    }
    match configured {
        ExecuteStrategy::Symlink => TransferStep::Symlink,
        ExecuteStrategy::Command(template) => TransferStep::Run(stash_formatter(src, dst, template.as_str())),
        ExecuteStrategy::NoOp => TransferStep::Nothing,
        ExecuteStrategy::Copy => TransferStep::Builtin { is_move: false },
        ExecuteStrategy::Cut => TransferStep::Builtin { is_move: true },
    }
}

/// The progress of a transfer as a fraction of 255: `copied * 255 / total`
/// (truncated to a byte), or `0` before the total is known.
pub fn progress_fraction(copied: u64, total: u64) -> (f: u8)
    requires
        copied * 255 <= u64::MAX,
    ensures
        total > 0 ==> f == ((copied * 255 / total as int) as u8),
        total == 0 ==> f == 0,
{
    if total > 0 {
        let v = copied * 255 / total;
        v as u8
    } else {
        0
    }
}

} // verus!
