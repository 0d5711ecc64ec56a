//! Execution-mode transport of the registered execute handlers, and the
//! lua command a menu-action payload stands for.

use vstd::prelude::*;
use crate::collections::entry_index;
use crate::menu::MenuActions;
use crate::run::state::temp::StoreState;

verus! {

/// Execution mode of the `Execute*` actions, transported as a one-byte
/// discriminant.
#[derive(Debug, Clone, Copy, PartialEq, Eq, Structural)]
pub enum ExecutionMode {
    /// Command-output copy on the shared silent/async interrupts.
    Copy,
    Normal,
    Paged,
    Tty,
    Detached,
    Silent,
    MenuAction,
    LuaCommand,
    LuaCommandPaged,
}

/// The discriminant a mode travels as.
pub open spec fn mode_code(m: ExecutionMode) -> u8 {
    match m {
        ExecutionMode::Copy => 0,
        ExecutionMode::Normal => 1,
        ExecutionMode::Paged => 2,
        ExecutionMode::Tty => 3,
        ExecutionMode::Detached => 4,
        ExecutionMode::Silent => 5,
        ExecutionMode::MenuAction => 7,
        ExecutionMode::LuaCommand => 8,
        ExecutionMode::LuaCommandPaged => 9,
    }
}

/// The mode an `Execute` payload discriminant stands for.
pub open spec fn execute_mode_of(d: u8) -> Option<ExecutionMode> {
    if d == 1 {
        Some(ExecutionMode::Normal)
    } else if d == 2 {
        Some(ExecutionMode::Paged)
    } else if d == 3 {
        Some(ExecutionMode::Tty)
    } else if d == 7 {
        Some(ExecutionMode::MenuAction)
    } else if d == 8 {
        Some(ExecutionMode::LuaCommand)
    } else if d == 9 {
        Some(ExecutionMode::LuaCommandPaged)
    } else {
        None
    }
}

/// The mode an `ExecuteSilent` payload discriminant stands for: each mode
/// sent there (`Copy`, `Detached`, `Silent`, `MenuAction`, `LuaCommand`)
/// by its own discriminant.
pub open spec fn silent_mode_of(d: u8) -> Option<ExecutionMode> {
    if d == 0 {
        Some(ExecutionMode::Copy)
    } else if d == 4 {
        Some(ExecutionMode::Detached)
    } else if d == 5 {
        Some(ExecutionMode::Silent)
    } else if d == 7 {
        Some(ExecutionMode::MenuAction)
    } else if d == 8 {
        Some(ExecutionMode::LuaCommand)
    } else {
        None
    }
}

impl ExecutionMode {
    pub fn discriminant(self) -> (d: u8)
        ensures
            d == mode_code(self),
    {
        match self {
            ExecutionMode::Copy => 0,
            ExecutionMode::Normal => 1,
            ExecutionMode::Paged => 2,
            ExecutionMode::Tty => 3,
            ExecutionMode::Detached => 4,
            ExecutionMode::Silent => 5,
            ExecutionMode::MenuAction => 7,
            ExecutionMode::LuaCommand => 8,
            ExecutionMode::LuaCommandPaged => 9,
        }
    }

    /// Decodes the payload discriminant of `Interrupt::Execute`.
    pub fn from_discriminant_for_execute(d: u8) -> (r: Option<Self>)
        ensures
            r == execute_mode_of(d),
    {
        match d {
            1 => Some(ExecutionMode::Normal),
            2 => Some(ExecutionMode::Paged),
            3 => Some(ExecutionMode::Tty),
            7 => Some(ExecutionMode::MenuAction),
            8 => Some(ExecutionMode::LuaCommand),
            9 => Some(ExecutionMode::LuaCommandPaged),
            _ => None,
        }
    }

    /// Decodes the payload discriminant of `Interrupt::ExecuteSilent`.
    pub fn from_discriminant_for_silent(d: u8) -> (r: Option<Self>)
        ensures
            r == silent_mode_of(d),
    {
        match d {
            0 => Some(ExecutionMode::Copy),
            4 => Some(ExecutionMode::Detached),
            5 => Some(ExecutionMode::Silent),
            7 => Some(ExecutionMode::MenuAction),
            8 => Some(ExecutionMode::LuaCommand),
            _ => None,
        }
    }
}

/// Every mode sent on `Execute` decodes back to itself from its discriminant.
pub proof fn lemma_execute_round_trip(m: ExecutionMode)
    requires
        m is Normal || m is Paged || m is Tty || m is MenuAction || m is LuaCommand || m is LuaCommandPaged,
    ensures
        execute_mode_of(mode_code(m)) == Some(m),
{
}

/// Every mode sent on `ExecuteSilent` decodes back to itself from its
/// discriminant.
pub proof fn lemma_silent_round_trip(m: ExecutionMode)
    requires
        m is Copy || m is Detached || m is Silent || m is MenuAction || m is LuaCommand,
    ensures
        silent_mode_of(mode_code(m)) == Some(m),
{
}

/// The lua command of a menu-action payload: for `MenuAction` and
/// `LuaCommandPaged` the payload is an action key looked up in `actions`,
/// for `LuaCommand` it is the command itself; other modes have none.
pub fn menu_lua_command(mode: ExecutionMode, payload: &str, actions: Option<&MenuActions>) -> (r: Option<String>)
    ensures
        match mode {
            ExecutionMode::MenuAction | ExecutionMode::LuaCommandPaged => match actions {
                Some(a) => if a.has_key(payload@) {
                    r matches Some(c) && c@ == a.entries()[entry_index(a.entries(), payload@)].1.command@
                } else {
                    r is None
                },
                None => r is None,
            },
            ExecutionMode::LuaCommand => r matches Some(c) && c@ == payload@,
            _ => r is None,
        },
{
    match mode {
        ExecutionMode::MenuAction | ExecutionMode::LuaCommandPaged => match actions {
            Some(a) => match a.get(payload) {
                Some(act) => Some(act.command.clone()),
                None => None,
            },
            None => None,
        },
        ExecutionMode::LuaCommand => Some(payload.to_owned()),
        _ => None,
    }
}

/// The parent directory of a path, as `Path::parent` gives it.
pub uninterp spec fn path_parent(p: Seq<char>) -> Option<Seq<char>>;

/// `Path::parent`: the path without its final component; `None` for a
/// path that ends in a root or prefix, and for the empty path.
#[verifier::external_body]
pub(crate) fn parent_of(p: &str) -> (r: Option<String>)
    ensures
        match r {
            Some(s) => path_parent(p@) == Some(s@),
            None => path_parent(p@) is None,
        },
        p@.len() == 0 ==> r is None,
{
    std::path::Path::new(p).parent().map(|q| q.to_string_lossy().into_owned())
}

/// The target of an execute action: the working directory while the
/// cursor is disabled, else the cursor item's path, or its parent when the
/// store asks the handler to act on the parent. That request is taken from
/// the store once read, unless `no_take`.
pub fn resolve_target(
    cursor_disabled: bool,
    cwd: Option<String>,
    current: Option<String>,
    store: &mut StoreState,
    no_take: bool,
) -> (r: Option<String>)
    ensures
        cursor_disabled ==> r == cwd,
        !cursor_disabled ==> match current {
            None => r is None,
            Some(p) => if old(store).process_parent {
                match path_parent(p@) {
                    Some(q) => r matches Some(s) && s@ == q,
                    None => r is None,
                }
            } else {
                r == Some(p)
            },
        },
        final(store).process_parent == (old(store).process_parent && (cursor_disabled || current is None
            || no_take)),
        final(store).bat_opts == old(store).bat_opts,
        final(store).menu_prompt == old(store).menu_prompt,
{
    if cursor_disabled {
        cwd
    } else {
        match current {
            None => None,
            Some(p) => {
                let process_parent = store.process_parent;
                if !no_take {
                    store.process_parent = false;
                }
                if process_parent {
                    parent_of(p.as_str())
                } else {
                    Some(p)
                }
            },
        }
    }
}

} // verus!

verus! {

/// Where a standard stream of an executed command is connected.
#[derive(Debug, Clone, Copy, PartialEq, Eq, Structural)]
pub enum StreamTarget {
    /// The stream the front end has.
    Inherit,
    /// The terminal when there is one, else the inherited stream.
    TtyOrInherit,
    /// The controlling terminal, opened for the command.
    Tty,
    /// Nothing.
    Null,
    /// A pipe back to the front end.
    Piped,
}

/// How the command of an execution mode is spawned.
#[derive(Debug, Clone, Copy, PartialEq, Eq, Structural)]
pub struct SpawnPlan {
    pub stdin: StreamTarget,
    pub stdout: StreamTarget,
    pub stderr: StreamTarget,
    /// Whether the command leaves the front end's process group.
    pub detach: bool,
}

/// The spawn plan of a mode: `Paged` pipes stdout (into the pager), `Tty`
/// connects everything to the terminal, the silent modes use null stdio
/// and `Detached` also detaches, `Copy` pipes stdout alone; the lua modes
/// spawn no command.
pub open spec fn spawn_plan_of(m: ExecutionMode) -> Option<SpawnPlan> {
    match m {
        ExecutionMode::Normal => Some(
            SpawnPlan {
                stdin: StreamTarget::TtyOrInherit,
                stdout: StreamTarget::Inherit,
                stderr: StreamTarget::Inherit,
                detach: false,
            },
        ),
        ExecutionMode::Paged => Some(
            SpawnPlan { stdin: StreamTarget::Null, stdout: StreamTarget::Piped, stderr: StreamTarget::Inherit, detach: false },
        ),
        ExecutionMode::Tty => Some(
            SpawnPlan { stdin: StreamTarget::Tty, stdout: StreamTarget::Tty, stderr: StreamTarget::Tty, detach: false },
        ),
        ExecutionMode::Detached => Some(
            SpawnPlan { stdin: StreamTarget::Null, stdout: StreamTarget::Null, stderr: StreamTarget::Null, detach: true },
        ),
        ExecutionMode::Silent => Some(
            SpawnPlan { stdin: StreamTarget::Null, stdout: StreamTarget::Null, stderr: StreamTarget::Null, detach: false },
        ),
        ExecutionMode::Copy => Some(
            SpawnPlan { stdin: StreamTarget::Null, stdout: StreamTarget::Piped, stderr: StreamTarget::Null, detach: false },
        ),
        ExecutionMode::MenuAction | ExecutionMode::LuaCommand | ExecutionMode::LuaCommandPaged => None,
    }
}

/// How the command of a mode is spawned; `None` for the lua modes.
pub fn spawn_plan(mode: ExecutionMode) -> (r: Option<SpawnPlan>)
    ensures
        r == spawn_plan_of(mode),
{
    match mode {
        ExecutionMode::Normal => Some(
            SpawnPlan {
                stdin: StreamTarget::TtyOrInherit,
                stdout: StreamTarget::Inherit,
                stderr: StreamTarget::Inherit,
                detach: false,
            },
        ),
        ExecutionMode::Paged => Some(SpawnPlan { stdin: StreamTarget::Null, stdout: StreamTarget::Piped, stderr: StreamTarget::Inherit, detach: false }),
        ExecutionMode::Tty => Some(SpawnPlan { stdin: StreamTarget::Tty, stdout: StreamTarget::Tty, stderr: StreamTarget::Tty, detach: false }),
        ExecutionMode::Detached => Some(SpawnPlan { stdin: StreamTarget::Null, stdout: StreamTarget::Null, stderr: StreamTarget::Null, detach: true }),
        ExecutionMode::Silent => Some(SpawnPlan { stdin: StreamTarget::Null, stdout: StreamTarget::Null, stderr: StreamTarget::Null, detach: false }),
        ExecutionMode::Copy => Some(SpawnPlan { stdin: StreamTarget::Null, stdout: StreamTarget::Piped, stderr: StreamTarget::Null, detach: false }),
        ExecutionMode::MenuAction | ExecutionMode::LuaCommand | ExecutionMode::LuaCommandPaged => None,
    }
}

/// What follows the spawn of a mode's command, and when it counts as a
/// success.
#[derive(Debug, Clone, Copy, PartialEq, Eq, Structural)]
pub enum WaitPlan {
    /// Feed stdout to the pager; the pager's verdict counts.
    Page,
    /// Wait for the command; its exit status counts.
    Wait,
    /// Do not wait; the given verdict counts.
    Settled(bool),
}

/// The wait plan of a mode: `Paged` pages, `Normal` and `Tty` wait, the
/// silent modes do not wait and count as no success, any other mode counts
/// as a success.
pub fn wait_plan(mode: ExecutionMode) -> (w: WaitPlan)
    ensures
        w == match mode {
            ExecutionMode::Paged => WaitPlan::Page,
            ExecutionMode::Normal | ExecutionMode::Tty => WaitPlan::Wait,
            ExecutionMode::Detached | ExecutionMode::Silent => WaitPlan::Settled(false),
            _ => WaitPlan::Settled(true),
        },
{
    match mode {
        ExecutionMode::Paged => WaitPlan::Page,
        ExecutionMode::Normal | ExecutionMode::Tty => WaitPlan::Wait,
        ExecutionMode::Detached | ExecutionMode::Silent => WaitPlan::Settled(false),
        _ => WaitPlan::Settled(true),
    }
}

} // verus!

verus! {

/// What an `ExecuteAsync` payload asks for.
#[derive(Debug, Clone, Copy, PartialEq, Eq, Structural)]
pub enum AsyncPlan {
    /// Run the command and copy its stdout to the clipboard (payloads `0` and `1`).
    Copy,
    /// Run the command, then the continuation stored in slot `id`: always,
    /// or only when the command succeeded (`require_success`).
    Continue { id: u8, require_success: bool },
}

/// The plan of an `ExecuteAsync` payload: below `2` a copy; else the
/// continuation slot is the payload halved and its low bit asks for success.
pub fn async_plan(payload: u8) -> (r: AsyncPlan)
    ensures
        payload < 2 ==> r is Copy,
        payload >= 2 ==> r == (AsyncPlan::Continue { id: payload / 2, require_success: payload % 2 == 1 }),
{
    if payload < 2 {
        AsyncPlan::Copy
    } else {
        AsyncPlan::Continue { id: payload / 2, require_success: payload % 2 == 1 }
    }
}

/// Whether the continuation runs after the command finished with `success`.
pub fn runs_continuation(require_success: bool, success: bool) -> (b: bool)
    ensures
        b == (!require_success || success),
{
    !require_success || success
}

} // verus!
