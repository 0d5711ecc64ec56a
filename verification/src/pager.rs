//! The pager's decisions: whether output is paged, passed through or
//! dropped, whether `bat` colours it first, and whose exit status reports
//! the outcome.

use vstd::prelude::*;

verus! {

/// How the pager handles a stream.
#[derive(Debug, Clone, Copy, PartialEq, Eq, Structural)]
pub enum PagerPlan {
    /// The stream is empty: no pager starts and nothing is reported.
    Skip,
    /// Feed the stream (through `bat` with `bat`) to the interactive pager.
    Page { bat: bool },
    /// Copy the stream (through `bat` with `bat`) straight to stdout.
    PassThrough { bat: bool },
}

/// The plan for a stream whose first line read `first_line_len` bytes (a
/// file to render counts as non-empty): `bat` is used where options were
/// given and the binary exists; the pager runs where a terminal is forced
/// or stdout is one, else the output passes through.
pub fn pager_plan(
    first_line_len: usize,
    bat_opts: bool,
    bat_found: bool,
    force_tty: bool,
    stdout_tty: bool,
) -> (r: PagerPlan)
    ensures
        first_line_len == 0 ==> r == PagerPlan::Skip,
        first_line_len > 0 && (force_tty || stdout_tty) ==> r == (PagerPlan::Page { bat: bat_opts && bat_found }),
        first_line_len > 0 && !force_tty && !stdout_tty ==> r == (PagerPlan::PassThrough {
            bat: bat_opts && bat_found,
        }),
{
    if first_line_len == 0 {
        PagerPlan::Skip
    } else if force_tty || stdout_tty {
        PagerPlan::Page { bat: bat_opts && bat_found }
    } else {
        PagerPlan::PassThrough { bat: bat_opts && bat_found }
    }
}

/// Whose exit status reports whether the paged output completed.
#[derive(Debug, Clone, Copy, PartialEq, Eq, Structural)]
pub enum StatusSource {
    /// The command whose output was paged.
    Command,
    /// `bat`, which reads the file itself when there is no command.
    Bat,
    /// No child: the output completed.
    Done,
}

/// The command's status where a command was spawned, else `bat`'s where it
/// ran, else completion.
pub fn status_source(has_command: bool, has_bat: bool) -> (r: StatusSource)
    ensures
        has_command ==> r == StatusSource::Command,
        !has_command && has_bat ==> r == StatusSource::Bat,
        !has_command && !has_bat ==> r == StatusSource::Done,
{
    if has_command {
        StatusSource::Command
    } else if has_bat {
        StatusSource::Bat
    } else {
        StatusSource::Done
    }
}

} // verus!
