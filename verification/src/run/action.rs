//! The actions of the file manager: what an action does to the pane state
//! and which step the front end carries out for it, and how a key's action
//! is first rewritten for the prompt, the overlays and the pane.

use vstd::prelude::*;
use crate::paths::{base_name, basename};
use crate::run::register::{parent_of, path_parent, ExecutionMode};
use crate::run::state::stack::PaneKind;
use crate::text::{decimal, first_index, lemma_first_index_is, str_eq, usize_to_decimal};

verus! {

/// An action of the file manager, with its payload as plain values.
#[derive(Debug, Clone, PartialEq, Eq)]
pub enum FsActionKind {
    Advance,
    Parent,
    Find,
    Search,
    History,
    /// Jump between the listed directories.
    Jump(Vec<String>),
    App,
    Undo,
    Redo,
    ShowOptions,
    ShowQueue,
    /// Clear the queue; `true` skips the confirmation.
    ClearQueue(bool),
    Stash(String),
    AddStash(String),
    ShowMenu,
    /// Toggle directory/file visibility (the sort order in the history and stash panes).
    FsToggle,
    /// Toggle between the default visibility and showing hidden files.
    ToggleHidden,
    Cut,
    Copy,
    Push,
    CopyPath,
    New,
    NewDir,
    SetAlias(String),
    Rename,
    Backup,
    /// Trash the selection; `true` skips the confirmation.
    Trash(bool),
    /// Delete the selection; `true` skips the confirmation.
    Delete(bool),
    Confirm,
    /// Paste the queue into the given directory (the navigation directory when empty).
    Paste(String),
    /// Preview with the command a preset renders to.
    LessfilterPreview(String),
    /// Run the command a preset renders to (`show_binds` for the key-binding
    /// listing), through the pager with `paging`; `edit` for the edit preset.
    Lessfilter { command: String, paging: bool, show_binds: bool, edit: bool },
    Execute(String),
    ExecPaged(String),
    ExecTTY(String),
    ExecDetached(String),
    ExecSilent(String),
    CopyCommand(String),
    CopyCommandAsync(String),
    MenuAction(String),
    MenuActionSilent(String),
    MenuActionExecPaged(String),
    SaveInput,
    Reload,
    ReSort,
    Refilter,
    AcceptPrompt,
    Filtering(Option<bool>),
    /// Enter (`Some(true)`) or leave the prompt; `None` toggles.
    LockPrompt(Option<bool>),
    /// Jump to an item and accept it; `0` toggles the prompt.
    AutoJump(u8),
}

/// Which entries a listing shows.
#[derive(Debug, Clone, Copy, PartialEq, Eq, Structural)]
pub struct Visibility {
    /// Only directories.
    pub dirs: bool,
    /// Only files.
    pub files: bool,
    /// Hidden entries too.
    pub hidden: bool,
}

/// The pane state an action reads and changes.
#[derive(Debug, Clone)]
pub struct PaneState {
    pub kind: PaneKind,
    /// The name of the stash a stash pane lists.
    pub stash_name: Option<String>,
    pub vis: Visibility,
    /// Whether the query bar is active.
    pub in_prompt: bool,
}

/// What the front end reads for an action.
#[derive(Debug, Clone)]
pub struct ActionInputs {
    pub cursor_disabled: bool,
    /// The working directory of the pane.
    pub cwd: Option<String>,
    /// The directory of the directory pane.
    pub nav_cwd: Option<String>,
    /// The selected items (the cursor item when nothing is selected).
    pub selection: Vec<String>,
    /// Whether the visibility shows every entry.
    pub shows_all: bool,
    /// The configured default visibility.
    pub default_vis: Visibility,
    /// The jump targets, each in canonical form when it resolves.
    pub jump_targets: Vec<Option<String>>,
    /// The working directory in canonical form.
    pub canonical_cwd: Option<String>,
    /// Whether items are selected explicitly.
    pub has_selections: bool,
    /// The cursor item's path.
    pub current: Option<String>,
    /// Whether the cursor item is a directory.
    pub current_is_dir: bool,
    /// Whether the cursor item exists.
    pub current_exists: bool,
    /// Whether the cursor item is a regular file.
    pub current_is_file: bool,
    /// Whether the cursor item is an archive that can be entered.
    pub archive_supported: bool,
    /// Whether the current pane is the file listing that `Find` would open.
    pub same_find_pane: bool,
    /// In a search pane, whether it filters its results.
    pub search_filtering: Option<bool>,
    /// Whether accepting on the directory pane prints the directory and quits.
    pub alt_accept: bool,
    /// The pager's path, quoted for the shell, where it could be read.
    pub pager: Option<String>,
}

/// The interrupt an execute action is sent on.
#[derive(Debug, Clone, Copy, PartialEq, Eq, Structural)]
pub enum InterruptChannel {
    Execute,
    ExecuteSilent,
    ExecuteAsync,
}

/// The history table of a history pane.
#[derive(Debug, Clone, Copy, PartialEq, Eq, Structural)]
pub enum HistoryTable {
    Files,
    Dirs,
    Apps,
}

/// The step the front end carries out for an action.
#[derive(Debug, Clone, PartialEq, Eq)]
pub enum ActionStep {
    /// An action that the key handler rewrites before it comes here (an
    /// overlay, the prompt, a reload or a jump), which has no step of its own.
    Unhandled,
    /// Nothing to do.
    Nothing,
    /// Enter (`true`) or leave the prompt.
    LockPrompt(bool),
    /// Enter the directory of the jump target at this index.
    JumpTo(usize),
    /// Move the pane to its next sort order, then refilter.
    CycleSort,
    /// Refilter with the new visibility, showing `notice` when there is one.
    Refilter { notice: Option<String> },
    /// Ask first: the verb in red, then the detail; on yes, run `then`.
    Confirm { verb: String, detail: String, default_yes: bool, then: FsActionKind },
    RemoveFromStash { name: String, items: Vec<String> },
    RemoveFromHistory { table: HistoryTable, items: Vec<String> },
    TrashPaths(Vec<String>),
    DeletePaths(Vec<String>),
    /// Show a notice (an error notice with `error`).
    Notice { error: bool, text: String },
    /// Execute the queue into this directory.
    ExecuteQueue(String),
    /// Enqueue `items` under `kind`, toast them under `toast`, and put them
    /// on the clipboard with `clipboard`.
    Enqueue { kind: String, items: Vec<String>, toast: String, clipboard: bool },
    /// Clear the pending queue rows.
    ClearPending,
    /// Save the input; push the file listing of the working directory
    /// (`push`) or reload the current one.
    Find { push: bool },
    /// Save the input, swap to the other history pane and reload.
    SwapHistory,
    /// In a search pane: switch between filtering the results (`filtering`)
    /// and editing the patterns, then reload.
    ToggleSearchFilter { filtering: bool },
    /// Save the input and push a search pane over `paths` (everything below
    /// the working directory when empty).
    PushSearch { paths: Vec<String> },
    /// Save the input and open the application pane.
    OpenApps,
    /// Save the input and go back in the pane history.
    StackBack,
    /// Save the input and go forward in the pane history.
    StackForward,
    /// Enter the directory `dir`, keeping `remember` to put the cursor on.
    EnterDir { dir: String, remember: Option<String> },
    /// Open the existing non-directory `path`: record it in the history
    /// with `bump`, enter it as an archive with `archive`, and otherwise
    /// run the advance command on it.
    AdvanceFile { path: String, bump: bool, archive: bool },
    /// Save the input and open the stash pane of this name.
    OpenStash(String),
    /// Add `items` to the stash `name`, reloading with `reload`, and toast
    /// them after `toast`.
    StashItems { name: String, items: Vec<String>, reload: bool, toast: String },
    /// Put these paths on the clipboard as text.
    CopyPaths(Vec<String>),
    /// Run `template` as a command; with `process_parent`, on the cursor
    /// item's parent directory. `pager_missing` warns that the pager could
    /// not be found.
    ExecuteTemplate { template: String, process_parent: bool, pager_missing: bool },
    /// Send `template` on `channel` with the discriminant of `mode`.
    Interrupt { channel: InterruptChannel, mode: ExecutionMode, template: String },
    /// Print the directory, record it, and quit.
    PrintAndQuit(String),
    /// Open the directory with the configured opener; quit with `quit`.
    OpenDir { path: String, quit: bool },
}

/// The model of a step.
pub enum StepView {
    Unhandled,
    Nothing,
    LockPrompt(bool),
    JumpTo(int),
    CycleSort,
    Refilter { notice: Option<Seq<char>> },
    Confirm { verb: Seq<char>, detail: Seq<char>, default_yes: bool, then: FsActionKind },
    RemoveFromStash { name: Seq<char>, items: Seq<Seq<char>> },
    RemoveFromHistory { table: HistoryTable, items: Seq<Seq<char>> },
    TrashPaths(Seq<Seq<char>>),
    DeletePaths(Seq<Seq<char>>),
    Notice { error: bool, text: Seq<char> },
    ExecuteQueue(Seq<char>),
    Enqueue { kind: Seq<char>, items: Seq<Seq<char>>, toast: Seq<char>, clipboard: bool },
    ClearPending,
    Find { push: bool },
    SwapHistory,
    ToggleSearchFilter { filtering: bool },
    PushSearch { paths: Seq<Seq<char>> },
    OpenApps,
    StackBack,
    StackForward,
    EnterDir { dir: Seq<char>, remember: Option<Seq<char>> },
    AdvanceFile { path: Seq<char>, bump: bool, archive: bool },
    OpenStash(Seq<char>),
    StashItems { name: Seq<char>, items: Seq<Seq<char>>, reload: bool, toast: Seq<char> },
    CopyPaths(Seq<Seq<char>>),
    ExecuteTemplate { template: Seq<char>, process_parent: bool, pager_missing: bool },
    Interrupt { channel: InterruptChannel, mode: ExecutionMode, template: Seq<char> },
    PrintAndQuit(Seq<char>),
    OpenDir { path: Seq<char>, quit: bool },
}

/// An optional text by its characters.
pub open spec fn opt_view(o: Option<String>) -> Option<Seq<char>> {
    match o {
        Some(t) => Some(t@),
        None => None,
    }
}

/// The model of a step.
pub open spec fn step_view(s: ActionStep) -> StepView {
    match s {
        ActionStep::Unhandled => StepView::Unhandled,
        ActionStep::Nothing => StepView::Nothing,
        ActionStep::LockPrompt(b) => StepView::LockPrompt(b),
        ActionStep::JumpTo(i) => StepView::JumpTo(i as int),
        ActionStep::CycleSort => StepView::CycleSort,
        ActionStep::Refilter { notice } => StepView::Refilter {
            notice: match notice {
                Some(t) => Some(t@),
                None => None,
            },
        },
        ActionStep::Confirm { verb, detail, default_yes, then } => StepView::Confirm {
            verb: verb@,
            detail: detail@,
            default_yes,
            then,
        },
        ActionStep::RemoveFromStash { name, items } => StepView::RemoveFromStash {
            name: name@,
            items: items.deep_view(),
        },
        ActionStep::RemoveFromHistory { table, items } => StepView::RemoveFromHistory {
            table,
            items: items.deep_view(),
        },
        ActionStep::TrashPaths(v) => StepView::TrashPaths(v.deep_view()),
        ActionStep::DeletePaths(v) => StepView::DeletePaths(v.deep_view()),
        ActionStep::Notice { error, text } => StepView::Notice { error, text: text@ },
        ActionStep::ExecuteQueue(b) => StepView::ExecuteQueue(b@),
        ActionStep::Enqueue { kind, items, toast, clipboard } => StepView::Enqueue {
            kind: kind@,
            items: items.deep_view(),
            toast: toast@,
            clipboard,
        },
        ActionStep::ClearPending => StepView::ClearPending,
        ActionStep::Find { push } => StepView::Find { push },
        ActionStep::SwapHistory => StepView::SwapHistory,
        ActionStep::ToggleSearchFilter { filtering } => StepView::ToggleSearchFilter { filtering },
        ActionStep::PushSearch { paths } => StepView::PushSearch { paths: paths.deep_view() },
        ActionStep::OpenApps => StepView::OpenApps,
        ActionStep::StackBack => StepView::StackBack,
        ActionStep::StackForward => StepView::StackForward,
        ActionStep::EnterDir { dir, remember } => StepView::EnterDir { dir: dir@, remember: opt_view(remember) },
        ActionStep::AdvanceFile { path, bump, archive } => StepView::AdvanceFile { path: path@, bump, archive },
        ActionStep::OpenStash(n) => StepView::OpenStash(n@),
        ActionStep::StashItems { name, items, reload, toast } => StepView::StashItems {
            name: name@,
            items: items.deep_view(),
            reload,
            toast: toast@,
        },
        ActionStep::CopyPaths(v) => StepView::CopyPaths(v.deep_view()),
        ActionStep::ExecuteTemplate { template, process_parent, pager_missing } => StepView::ExecuteTemplate {
            template: template@,
            process_parent,
            pager_missing,
        },
        ActionStep::Interrupt { channel, mode, template } => StepView::Interrupt { channel, mode, template: template@ },
        ActionStep::PrintAndQuit(p) => StepView::PrintAndQuit(p@),
        ActionStep::OpenDir { path, quit } => StepView::OpenDir { path: path@, quit },
    }
}

/// The channel and mode an execute action is sent with.
pub open spec fn interrupt_of(a: FsActionKind) -> Option<(InterruptChannel, ExecutionMode)> {
    match a {
        FsActionKind::Execute(_) => Some((InterruptChannel::Execute, ExecutionMode::Normal)),
        FsActionKind::ExecPaged(_) => Some((InterruptChannel::Execute, ExecutionMode::Paged)),
        FsActionKind::ExecTTY(_) => Some((InterruptChannel::Execute, ExecutionMode::Tty)),
        FsActionKind::ExecDetached(_) => Some((InterruptChannel::ExecuteSilent, ExecutionMode::Detached)),
        FsActionKind::ExecSilent(_) => Some((InterruptChannel::ExecuteSilent, ExecutionMode::Silent)),
        FsActionKind::CopyCommand(_) => Some((InterruptChannel::ExecuteSilent, ExecutionMode::Copy)),
        FsActionKind::CopyCommandAsync(_) => Some((InterruptChannel::ExecuteAsync, ExecutionMode::Copy)),
        FsActionKind::MenuAction(_) => Some((InterruptChannel::Execute, ExecutionMode::MenuAction)),
        FsActionKind::MenuActionSilent(_) => Some((InterruptChannel::ExecuteSilent, ExecutionMode::LuaCommand)),
        FsActionKind::MenuActionExecPaged(_) => Some((InterruptChannel::Execute, ExecutionMode::LuaCommandPaged)),
        _ => None,
    }
}

/// The template an execute action carries.
pub open spec fn template_of(a: FsActionKind) -> Seq<char> {
    match a {
        FsActionKind::Execute(t) | FsActionKind::ExecPaged(t) | FsActionKind::ExecTTY(t)
        | FsActionKind::ExecDetached(t) | FsActionKind::ExecSilent(t) | FsActionKind::CopyCommand(t)
        | FsActionKind::CopyCommandAsync(t) | FsActionKind::MenuAction(t) | FsActionKind::MenuActionSilent(t)
        | FsActionKind::MenuActionExecPaged(t) => t@,
        _ => Seq::empty(),
    }
}

/// The command a `Lessfilter` action runs: `command`, piped into the pager
/// when paging and the pager is known (with the ini highlighting for the
/// key-binding listing).
pub open spec fn lessfilter_template(command: Seq<char>, paging: bool, show_binds: bool, pager: Option<Seq<char>>) -> Seq<char> {
    if paging {
        match pager {
            Some(pp) => command + " | "@ + (if show_binds { "PG_LANG=ini "@ } else { ""@ }) + pp + " > /dev/tty"@,
            None => command,
        }
    } else {
        command
    }
}

/// The path whose parent `Parent` enters: the directory of the directory
/// pane, else the cursor item.
pub open spec fn parent_source(inputs: ActionInputs) -> Option<Seq<char>> {
    match inputs.nav_cwd {
        Some(c) => Some(c@),
        None => opt_view(inputs.current),
    }
}

/// Whether `path` is absolute, as `Path::is_absolute` decides.
pub uninterp spec fn path_absolute(path: Seq<char>) -> bool;

/// `Path::is_absolute`.
#[verifier::external_body]
fn is_absolute(path: &str) -> (r: bool)
    ensures
        r == path_absolute(path@),
{
    std::path::Path::new(path).is_absolute()
}

/// The directory/file toggle: everything, then files only, then
/// directories only, then everything again.
pub open spec fn toggled_vis(v: Visibility) -> Visibility {
    if !v.dirs && !v.files {
        Visibility { dirs: false, files: true, hidden: v.hidden }
    } else if !v.dirs && v.files {
        Visibility { dirs: true, files: false, hidden: v.hidden }
    } else {
        Visibility { dirs: false, files: false, hidden: v.hidden }
    }
}

/// The panes whose toggle cycles the sort order instead.
pub open spec fn sorts_on_toggle(k: PaneKind) -> bool {
    k is Files || k is Folders || k is Stash
}

/// The history table of a pane, for the history panes.
pub open spec fn history_table_of(k: PaneKind) -> Option<HistoryTable> {
    match k {
        PaneKind::Files => Some(HistoryTable::Files),
        PaneKind::Folders => Some(HistoryTable::Dirs),
        PaneKind::Apps => Some(HistoryTable::Apps),
        _ => None,
    }
}

/// The confirmation detail for `items`: ` <name>?` for one item, else
/// ` <n> items?`, with ` from <place>` before the `?` when removing from a
/// stash or the history.
pub open spec fn confirm_detail(items: Seq<Seq<char>>, from: Option<Seq<char>>) -> Seq<char> {
    let what = if items.len() == 1 { base_name(items[0]) } else { decimal(items.len()) + " items"@ };
    " "@ + what + match from {
        Some(place) => " from "@ + place,
        None => ""@,
    } + "?"@
}

/// The items a cut, copy or push takes: the working directory while the
/// cursor is disabled, else the selection.
pub open spec fn active_items(inputs: ActionInputs) -> Seq<Seq<char>> {
    if inputs.cursor_disabled {
        match inputs.cwd {
            Some(c) => seq![c@],
            None => Seq::empty(),
        }
    } else {
        inputs.selection.deep_view()
    }
}

/// The jump targets seen by their texts.
pub open spec fn targets_view(v: Seq<Option<String>>) -> Seq<Option<Seq<char>>> {
    v.map_values(|t: Option<String>| match t {
        Some(s) => Some(s@),
        None => None,
    })
}

/// Whether a jump target is `c`.
pub open spec fn is_target(c: Seq<char>) -> spec_fn(Option<Seq<char>>) -> bool {
    |t: Option<Seq<char>>| t == Some(c)
}

/// The index of the jump target after the one that is the working
/// directory, wrapping; the first without a working directory or a match.
pub open spec fn jump_index(targets: Seq<Option<Seq<char>>>, cwd: Option<Seq<char>>) -> int {
    match cwd {
        Some(c) => {
            let i = first_index(targets, is_target(c));
            if i >= 0 {
                (i + 1) % (targets.len() as int)
            } else {
                0
            }
        },
        None => 0,
    }
}

/// The step of `action` on `state` with `inputs`, and the new visibility.
pub open spec fn fs_action_spec(state: PaneState, action: FsActionKind, inputs: ActionInputs) -> (StepView, Visibility) {
    let v = state.vis;
    let sel = inputs.selection.deep_view();
    match action {
        FsActionKind::LockPrompt(enter) => (
            StepView::LockPrompt(
                match enter {
                    Some(e) => e,
                    None => !state.in_prompt,
                },
            ),
            v,
        ),
        FsActionKind::Jump(_) => (
            if inputs.jump_targets@.len() == 0 {
                StepView::Nothing
            } else {
                StepView::JumpTo(
                    jump_index(
                        targets_view(inputs.jump_targets@),
                        match inputs.canonical_cwd {
                            Some(c) => Some(c@),
                            None => None,
                        },
                    ),
                )
            },
            v,
        ),
        FsActionKind::FsToggle => if sorts_on_toggle(state.kind) {
            (StepView::CycleSort, v)
        } else {
            (StepView::Refilter { notice: None }, toggled_vis(v))
        },
        FsActionKind::ToggleHidden => if v.hidden || inputs.shows_all {
            (StepView::Refilter { notice: Some("Default filters"@) }, inputs.default_vis)
        } else {
            (StepView::Refilter { notice: Some("Showing hidden"@) }, Visibility { hidden: true, ..v })
        },
        FsActionKind::Trash(no_confirm) => (
            if sel.len() == 0 {
                StepView::Nothing
            } else if !no_confirm {
                StepView::Confirm {
                    verb: "Trash"@,
                    detail: confirm_detail(sel, None),
                    default_yes: true,
                    then: FsActionKind::Trash(true),
                }
            } else {
                match state.stash_name {
                    Some(n) => StepView::RemoveFromStash { name: n@, items: sel },
                    None => StepView::TrashPaths(sel),
                }
            },
            v,
        ),
        FsActionKind::Delete(no_confirm) => (
            if sel.len() == 0 {
                StepView::Nothing
            } else if !no_confirm {
                let from = if state.stash_name is Some {
                    Some("stash"@)
                } else if history_table_of(state.kind) is Some {
                    Some("history"@)
                } else {
                    None
                };
                StepView::Confirm {
                    verb: if from is Some { "Remove"@ } else { "Delete"@ },
                    detail: confirm_detail(sel, from),
                    default_yes: false,
                    then: FsActionKind::Delete(true),
                }
            } else {
                match state.stash_name {
                    Some(n) => StepView::RemoveFromStash { name: n@, items: sel },
                    None => match history_table_of(state.kind) {
                        Some(t) => StepView::RemoveFromHistory { table: t, items: sel },
                        None => StepView::DeletePaths(sel),
                    },
                }
            },
            v,
        ),
        FsActionKind::Paste(dest) => (
            if dest@.len() == 0 {
                match inputs.nav_cwd {
                    Some(c) => StepView::ExecuteQueue(c@),
                    None => StepView::Notice { error: false, text: "No current directory."@ },
                }
            } else if !path_absolute(dest@) {
                StepView::Notice { error: true, text: dest@ + " is not absolute."@ }
            } else {
                StepView::ExecuteQueue(dest@)
            },
            v,
        ),
        FsActionKind::Cut => (
            if active_items(inputs).len() == 0 {
                StepView::Nothing
            } else {
                StepView::Enqueue { kind: "cut"@, items: active_items(inputs), toast: "Cut: "@, clipboard: true }
            },
            v,
        ),
        FsActionKind::Copy => (
            if active_items(inputs).len() == 0 {
                StepView::Nothing
            } else {
                StepView::Enqueue {
                    kind: "copy"@,
                    items: active_items(inputs),
                    toast: "Copied: "@,
                    clipboard: true,
                }
            },
            v,
        ),
        FsActionKind::Push => (
            if active_items(inputs).len() == 0 {
                StepView::Nothing
            } else {
                StepView::Enqueue {
                    kind: "copy"@,
                    items: active_items(inputs),
                    toast: "Stashed: "@,
                    clipboard: false,
                }
            },
            v,
        ),
        FsActionKind::ClearQueue(no_confirm) => (
            if no_confirm {
                StepView::ClearPending
            } else {
                StepView::Confirm {
                    verb: ""@,
                    detail: "Clear the queue?"@,
                    default_yes: false,
                    then: FsActionKind::ClearQueue(true),
                }
            },
            v,
        ),
        FsActionKind::Find => (StepView::Find { push: !inputs.same_find_pane }, v),
        FsActionKind::History => (StepView::SwapHistory, v),
        FsActionKind::Search => (
            match inputs.search_filtering {
                Some(f) => StepView::ToggleSearchFilter { filtering: !f },
                None => StepView::PushSearch { paths: if inputs.has_selections { sel } else { Seq::empty() } },
            },
            v,
        ),
        FsActionKind::App => (StepView::OpenApps, v),
        FsActionKind::Undo => (StepView::StackBack, v),
        FsActionKind::Redo => (StepView::StackForward, v),
        FsActionKind::Parent => (
            match parent_source(inputs) {
                Some(c) => match path_parent(c) {
                    Some(p) => StepView::EnterDir { dir: p, remember: Some(c) },
                    None => StepView::Nothing,
                },
                None => StepView::Nothing,
            },
            v,
        ),
        FsActionKind::Advance => (
            match inputs.current {
                None => StepView::Nothing,
                Some(c) => if inputs.current_is_dir {
                    StepView::EnterDir { dir: c@, remember: None }
                } else if inputs.current_exists {
                    StepView::AdvanceFile {
                        path: c@,
                        bump: inputs.current_is_file,
                        archive: inputs.current_is_file && inputs.archive_supported,
                    }
                } else {
                    StepView::Nothing
                },
            },
            v,
        ),
        FsActionKind::Stash(name) => (StepView::OpenStash(name@), v),
        FsActionKind::AddStash(name) => (
            if active_items(inputs).len() == 0 {
                StepView::Nothing
            } else {
                StepView::StashItems {
                    name: name@,
                    items: active_items(inputs),
                    reload: state.kind is Stash && opt_view(state.stash_name) == Some(name@),
                    toast: "Stashed ("@ + name@ + "): "@,
                }
            },
            v,
        ),
        FsActionKind::Backup | FsActionKind::Confirm => (StepView::Nothing, v),
        FsActionKind::CopyPath => (StepView::CopyPaths(active_items(inputs)), v),
        FsActionKind::Lessfilter { command, paging, show_binds, edit } => (
            if state.kind is Apps || (inputs.current is None && !inputs.cursor_disabled) {
                StepView::Nothing
            } else {
                StepView::ExecuteTemplate {
                    template: lessfilter_template(command@, paging, show_binds, opt_view(inputs.pager)),
                    process_parent: edit && inputs.current is Some && inputs.current_is_file,
                    pager_missing: paging && inputs.pager is None,
                }
            },
            v,
        ),
        FsActionKind::AcceptPrompt => (
            match inputs.nav_cwd {
                Some(p) => if inputs.alt_accept {
                    StepView::PrintAndQuit(p@)
                } else {
                    StepView::OpenDir { path: p@, quit: !inputs.has_selections }
                },
                None => match inputs.cwd {
                    Some(c) => StepView::EnterDir { dir: c@, remember: None },
                    None => StepView::Nothing,
                },
            },
            v,
        ),
        _ => (
            match interrupt_of(action) {
                Some((ch, m)) => StepView::Interrupt { channel: ch, mode: m, template: template_of(action) },
                None => StepView::Unhandled,
            },
            v,
        ),
    }
}

/// A copy of a list of paths.
fn copy_paths(v: &Vec<String>) -> (r: Vec<String>)
    ensures
        r.deep_view() == v.deep_view(),
{
    let mut r: Vec<String> = Vec::new();
    let mut i: usize = 0;
    while i < v.len()
        invariant
            i <= v@.len(),
            r@.len() == i,
            r.deep_view() == v.deep_view().take(i as int),
        decreases v@.len() - i,
    {
        let ghost before = r@;
        let s = v[i].clone();
        r.push(s);
        assert(r.deep_view() =~= v.deep_view().take(i + 1)) by {
            assert forall|k: int| 0 <= k < r@.len() implies r.deep_view()[k] == v.deep_view().take(i + 1)[k] by {
                if k < i {
                    assert(r@[k] == before[k]);
                }
            }
        }
        i = i + 1;
    }
    assert(v.deep_view().take(v@.len() as int) =~= v.deep_view());
    r
}

/// The confirmation detail for `items` (see [`confirm_detail`]).
fn make_detail(items: &Vec<String>, from: Option<&str>) -> (d: String)
    ensures
        d@ == confirm_detail(
            items.deep_view(),
            match from {
                Some(p) => Some(p@),
                None => None,
            },
        ),
{
    let ghost iv = items.deep_view();
    let ghost what = if iv.len() == 1 { base_name(iv[0]) } else { decimal(iv.len()) + " items"@ };
    let mut d = " ".to_string();
    if items.len() == 1 {
        let name = basename(items[0].as_str());
        d.append(name.as_str());
    } else {
        let n = usize_to_decimal(items.len());
        d.append(n.as_str());
        d.append(" items");
        assert(d@ =~= " "@ + (decimal(iv.len()) + " items"@));
    }
    assert(d@ == " "@ + what);
    let ghost mid = d@;
    if let Some(p) = from {
        d.append(" from ");
        d.append(p);
        assert(d@ =~= mid + (" from "@ + p@));
    } else {
        assert(d@ =~= mid + ""@) by {
            reveal_strlit("");
        }
    }
    d.append("?");
    d
}

/// The items a cut, copy or push takes.
fn take_active(inputs: &ActionInputs) -> (v: Vec<String>)
    ensures
        v.deep_view() == active_items(*inputs),
{
    if inputs.cursor_disabled {
        let mut v: Vec<String> = Vec::new();
        if let Some(c) = &inputs.cwd {
            v.push(c.clone());
        }
        assert(v.deep_view() =~= active_items(*inputs));
        v
    } else {
        copy_paths(&inputs.selection)
    }
}

/// The index of the jump target after the working directory's.
fn find_jump(targets: &Vec<Option<String>>, cwd: &Option<String>) -> (i: usize)
    requires
        targets@.len() > 0,
    ensures
        i == jump_index(
            targets_view(targets@),
            match cwd {
                Some(c) => Some(c@),
                None => None,
            },
        ),
{
    match cwd {
        None => 0,
        Some(c) => {
            let ghost tv = targets_view(targets@);
            let ghost p = is_target(c@);
            let mut k: usize = 0;
            while k < targets.len()
                invariant
                    k <= targets@.len(),
                    tv == targets_view(targets@),
                    p == is_target(c@),
                    *cwd == Some(*c),
                    forall|j: int| 0 <= j < k ==> !p(tv[j]),
                decreases targets@.len() - k,
            {
                let hit = match &targets[k] {
                    Some(t) => str_eq(t.as_str(), c.as_str()),
                    None => false,
                };
                assert(hit == p(tv[k as int]));
                if hit {
                    proof { lemma_first_index_is(tv, p, k as int); }
                    assert(tv.len() == targets@.len());
                    return (k + 1) % targets.len();
                }
                k = k + 1;
            }
            proof { lemma_first_index_is(tv, p, -1); }
            0
        },
    }
}

/// The step of `action` on the pane `state`, which it may change.
pub fn fs_action_step(state: &mut PaneState, action: &FsActionKind, inputs: &ActionInputs) -> (r: ActionStep)
    ensures
        step_view(r) == fs_action_spec(*old(state), *action, *inputs).0,
        final(state).vis == fs_action_spec(*old(state), *action, *inputs).1,
        final(state).kind == old(state).kind,
        final(state).stash_name == old(state).stash_name,
        final(state).in_prompt == old(state).in_prompt,
{
    match action {
        FsActionKind::LockPrompt(enter) => {
            let e = match *enter {
                Some(e) => e,
                None => !state.in_prompt,
            };
            ActionStep::LockPrompt(e)
        },
        FsActionKind::Jump(_) => {
            if inputs.jump_targets.len() == 0 {
                ActionStep::Nothing
            } else {
                ActionStep::JumpTo(find_jump(&inputs.jump_targets, &inputs.canonical_cwd))
            }
        },
        FsActionKind::FsToggle => {
            match state.kind {
                PaneKind::Files | PaneKind::Folders | PaneKind::Stash => ActionStep::CycleSort,
                _ => {
                    let v = state.vis;
                    let (dirs, files) = if !v.dirs && !v.files {
                        (false, true)
                    } else if !v.dirs && v.files {
                        (true, false)
                    } else {
                        (false, false)
                    };
                    state.vis = Visibility { dirs, files, hidden: v.hidden };
                    ActionStep::Refilter { notice: None }
                },
            }
        },
        FsActionKind::ToggleHidden => {
            if state.vis.hidden || inputs.shows_all {
                state.vis = inputs.default_vis;
                ActionStep::Refilter { notice: Some("Default filters".to_string()) }
            } else {
                state.vis = Visibility { hidden: true, ..state.vis };
                ActionStep::Refilter { notice: Some("Showing hidden".to_string()) }
            }
        },
        FsActionKind::Trash(no_confirm) => {
            let items = copy_paths(&inputs.selection);
            if items.len() == 0 {
                ActionStep::Nothing
            } else if !*no_confirm {
                ActionStep::Confirm {
                    verb: "Trash".to_string(),
                    detail: make_detail(&items, None),
                    default_yes: true,
                    then: FsActionKind::Trash(true),
                }
            } else {
                match &state.stash_name {
                    Some(n) => ActionStep::RemoveFromStash { name: n.clone(), items },
                    None => ActionStep::TrashPaths(items),
                }
            }
        },
        FsActionKind::Delete(no_confirm) => {
            let items = copy_paths(&inputs.selection);
            let table = match state.kind {
                PaneKind::Files => Some(HistoryTable::Files),
                PaneKind::Folders => Some(HistoryTable::Dirs),
                PaneKind::Apps => Some(HistoryTable::Apps),
                _ => None,
            };
            if items.len() == 0 {
                ActionStep::Nothing
            } else if !*no_confirm {
                let from: Option<&str> = if state.stash_name.is_some() {
                    Some("stash")
                } else if table.is_some() {
                    Some("history")
                } else {
                    None
                };
                let verb = if from.is_some() {
                    "Remove".to_string()
                } else {
                    "Delete".to_string()
                };
                ActionStep::Confirm {
                    verb,
                    detail: make_detail(&items, from),
                    default_yes: false,
                    then: FsActionKind::Delete(true),
                }
            } else {
                match &state.stash_name {
                    Some(n) => ActionStep::RemoveFromStash { name: n.clone(), items },
                    None => match table {
                        Some(t) => ActionStep::RemoveFromHistory { table: t, items },
                        None => ActionStep::DeletePaths(items),
                    },
                }
            }
        },
        FsActionKind::Paste(dest) => {
            if dest.unicode_len() == 0 {
                match &inputs.nav_cwd {
                    Some(c) => ActionStep::ExecuteQueue(c.clone()),
                    None => ActionStep::Notice { error: false, text: "No current directory.".to_string() },
                }
            } else if !is_absolute(dest.as_str()) {
                let mut t = dest.clone();
                t.append(" is not absolute.");
                ActionStep::Notice { error: true, text: t }
            } else {
                ActionStep::ExecuteQueue(dest.clone())
            }
        },
        FsActionKind::Cut | FsActionKind::Copy | FsActionKind::Push => {
            let items = take_active(inputs);
            if items.len() == 0 {
                ActionStep::Nothing
            } else {
                match action {
                    FsActionKind::Cut => ActionStep::Enqueue {
                        kind: "cut".to_string(),
                        items,
                        toast: "Cut: ".to_string(),
                        clipboard: true,
                    },
                    FsActionKind::Copy => ActionStep::Enqueue {
                        kind: "copy".to_string(),
                        items,
                        toast: "Copied: ".to_string(),
                        clipboard: true,
                    },
                    _ => ActionStep::Enqueue {
                        kind: "copy".to_string(),
                        items,
                        toast: "Stashed: ".to_string(),
                        clipboard: false,
                    },
                }
            }
        },
        FsActionKind::ClearQueue(no_confirm) => {
            if *no_confirm {
                ActionStep::ClearPending
            } else {
                ActionStep::Confirm {
                    verb: "".to_string(),
                    detail: "Clear the queue?".to_string(),
                    default_yes: false,
                    then: FsActionKind::ClearQueue(true),
                }
            }
        },
        FsActionKind::Find => ActionStep::Find { push: !inputs.same_find_pane },
        FsActionKind::History => ActionStep::SwapHistory,
        FsActionKind::Search => match inputs.search_filtering {
            Some(f) => ActionStep::ToggleSearchFilter { filtering: !f },
            None => ActionStep::PushSearch {
                paths: if inputs.has_selections {
                    copy_paths(&inputs.selection)
                } else {
                    let e: Vec<String> = Vec::new();
                    assert(e.deep_view() =~= Seq::<Seq<char>>::empty());
                    e
                },
            },
        },
        FsActionKind::App => ActionStep::OpenApps,
        FsActionKind::Undo => ActionStep::StackBack,
        FsActionKind::Redo => ActionStep::StackForward,
        FsActionKind::Parent => {
            let source = match &inputs.nav_cwd {
                Some(c) => Some(c.clone()),
                None => clone_opt(&inputs.current),
            };
            match source {
                None => ActionStep::Nothing,
                Some(c) => match parent_of(c.as_str()) {
                    Some(p) => ActionStep::EnterDir { dir: p, remember: Some(c) },
                    None => ActionStep::Nothing,
                },
            }
        },
        FsActionKind::Advance => match &inputs.current {
            None => ActionStep::Nothing,
            Some(c) => if inputs.current_is_dir {
                ActionStep::EnterDir { dir: c.clone(), remember: None }
            } else if inputs.current_exists {
                ActionStep::AdvanceFile {
                    path: c.clone(),
                    bump: inputs.current_is_file,
                    archive: inputs.current_is_file && inputs.archive_supported,
                }
            } else {
                ActionStep::Nothing
            },
        },
        FsActionKind::Stash(name) => ActionStep::OpenStash(name.clone()),
        FsActionKind::AddStash(name) => {
            let items = take_active(inputs);
            if items.len() == 0 {
                ActionStep::Nothing
            } else {
                let reload = match state.kind {
                    PaneKind::Stash => match &state.stash_name {
                        Some(n) => str_eq(n.as_str(), name.as_str()),
                        None => false,
                    },
                    _ => false,
                };
                let mut toast = "Stashed (".to_string();
                toast.append(name.as_str());
                toast.append("): ");
                ActionStep::StashItems { name: name.clone(), items, reload, toast }
            }
        },
        FsActionKind::Backup | FsActionKind::Confirm => ActionStep::Nothing,
        FsActionKind::CopyPath => ActionStep::CopyPaths(take_active(inputs)),
        FsActionKind::Lessfilter { command, paging, show_binds, edit } => {
            let in_apps = match state.kind {
                PaneKind::Apps => true,
                _ => false,
            };
            if in_apps || (inputs.current.is_none() && !inputs.cursor_disabled) {
                ActionStep::Nothing
            } else {
                ActionStep::ExecuteTemplate {
                    template: make_lessfilter_template(command.as_str(), *paging, *show_binds, &inputs.pager),
                    process_parent: *edit && inputs.current.is_some() && inputs.current_is_file,
                    pager_missing: *paging && inputs.pager.is_none(),
                }
            }
        },
        FsActionKind::AcceptPrompt => match &inputs.nav_cwd {
            Some(p) => if inputs.alt_accept {
                ActionStep::PrintAndQuit(p.clone())
            } else {
                ActionStep::OpenDir { path: p.clone(), quit: !inputs.has_selections }
            },
            None => match &inputs.cwd {
                Some(c) => ActionStep::EnterDir { dir: c.clone(), remember: None },
                None => ActionStep::Nothing,
            },
        },
        FsActionKind::Execute(t) => ActionStep::Interrupt {
            channel: InterruptChannel::Execute,
            mode: ExecutionMode::Normal,
            template: t.clone(),
        },
        FsActionKind::ExecPaged(t) => ActionStep::Interrupt {
            channel: InterruptChannel::Execute,
            mode: ExecutionMode::Paged,
            template: t.clone(),
        },
        FsActionKind::ExecTTY(t) => ActionStep::Interrupt {
            channel: InterruptChannel::Execute,
            mode: ExecutionMode::Tty,
            template: t.clone(),
        },
        FsActionKind::ExecDetached(t) => ActionStep::Interrupt {
            channel: InterruptChannel::ExecuteSilent,
            mode: ExecutionMode::Detached,
            template: t.clone(),
        },
        FsActionKind::ExecSilent(t) => ActionStep::Interrupt {
            channel: InterruptChannel::ExecuteSilent,
            mode: ExecutionMode::Silent,
            template: t.clone(),
        },
        FsActionKind::CopyCommand(t) => ActionStep::Interrupt {
            channel: InterruptChannel::ExecuteSilent,
            mode: ExecutionMode::Copy,
            template: t.clone(),
        },
        FsActionKind::CopyCommandAsync(t) => ActionStep::Interrupt {
            channel: InterruptChannel::ExecuteAsync,
            mode: ExecutionMode::Copy,
            template: t.clone(),
        },
        FsActionKind::MenuAction(t) => ActionStep::Interrupt {
            channel: InterruptChannel::Execute,
            mode: ExecutionMode::MenuAction,
            template: t.clone(),
        },
        FsActionKind::MenuActionSilent(t) => ActionStep::Interrupt {
            channel: InterruptChannel::ExecuteSilent,
            mode: ExecutionMode::LuaCommand,
            template: t.clone(),
        },
        FsActionKind::MenuActionExecPaged(t) => ActionStep::Interrupt {
            channel: InterruptChannel::Execute,
            mode: ExecutionMode::LuaCommandPaged,
            template: t.clone(),
        },
        _ => ActionStep::Unhandled,
    }
}

/// Copy, cut and push queue the same items: the working directory while
/// the cursor is disabled, else the selection. Copy queues them as copies
/// and puts them on the clipboard, cut as moves (on the clipboard too), and
/// push as copies without the clipboard; with no item nothing happens, and
/// none of them changes the visibility.
pub proof fn lemma_transfers_queue_their_kind(state: PaneState, inputs: ActionInputs)
    ensures
        ({
            let items = if inputs.cursor_disabled {
                match inputs.cwd {
                    Some(c) => seq![c@],
                    None => Seq::<Seq<char>>::empty(),
                }
            } else {
                inputs.selection.deep_view()
            };
            let copy = fs_action_spec(state, FsActionKind::Copy, inputs);
            let cut = fs_action_spec(state, FsActionKind::Cut, inputs);
            let push = fs_action_spec(state, FsActionKind::Push, inputs);
            &&& copy.1 == state.vis && cut.1 == state.vis && push.1 == state.vis
            &&& items.len() == 0 ==> copy.0 is Nothing && cut.0 is Nothing && push.0 is Nothing
            &&& items.len() > 0 ==> (copy.0 matches StepView::Enqueue { kind, items: i, toast, clipboard }
                && kind == "copy"@ && i == items && toast == "Copied: "@ && clipboard)
            &&& items.len() > 0 ==> (cut.0 matches StepView::Enqueue { kind, items: i, toast, clipboard }
                && kind == "cut"@ && i == items && toast == "Cut: "@ && clipboard)
            &&& items.len() > 0 ==> (push.0 matches StepView::Enqueue { kind, items: i, toast, clipboard }
                && kind == "copy"@ && i == items && toast == "Stashed: "@ && !clipboard)
        }),
{
}

/// The directory/file toggle outside the sorting panes cycles the
/// visibility through everything, files only and directories only: three
/// toggles come back to the start, each changes what is shown, and hidden
/// entries stay as they were; in the file, folder and stash panes it cycles
/// the sort order and leaves the visibility alone.
pub proof fn lemma_toggle_cycles(state: PaneState, inputs: ActionInputs)
    requires
        !(state.vis.dirs && state.vis.files),
    ensures
        ({
            let s1 = fs_action_spec(state, FsActionKind::FsToggle, inputs);
            let st1 = PaneState { vis: s1.1, ..state };
            let s2 = fs_action_spec(st1, FsActionKind::FsToggle, inputs);
            let st2 = PaneState { vis: s2.1, ..state };
            let s3 = fs_action_spec(st2, FsActionKind::FsToggle, inputs);
            &&& (state.kind is Files || state.kind is Folders || state.kind is Stash) ==> s1.0 is CycleSort && s1.1
                == state.vis
            &&& !(state.kind is Files || state.kind is Folders || state.kind is Stash) ==> {
                &&& s1.0 is Refilter && s2.0 is Refilter && s3.0 is Refilter
                &&& s3.1 == state.vis
                &&& s1.1 != state.vis && s2.1 != s1.1 && s2.1 != state.vis
                &&& s1.1.hidden == state.vis.hidden && s2.1.hidden == state.vis.hidden
                &&& !(s1.1.dirs && s1.1.files) && !(s2.1.dirs && s2.1.files)
            }
        }),
{
}

/// Showing hidden entries: the toggle turns hidden entries on when they are
/// off and not everything is shown, keeping the rest; otherwise it goes
/// back to the configured visibility. From the configured visibility with
/// hidden entries off, two toggles come back to it.
pub proof fn lemma_toggle_hidden(state: PaneState, inputs: ActionInputs)
    ensures
        ({
            let s1 = fs_action_spec(state, FsActionKind::ToggleHidden, inputs);
            &&& !state.vis.hidden && !inputs.shows_all ==> s1.1 == (Visibility { hidden: true, ..state.vis })
            &&& state.vis.hidden || inputs.shows_all ==> s1.1 == inputs.default_vis
            &&& s1.0 is Refilter
        }),
        state.vis == inputs.default_vis && !state.vis.hidden && !inputs.shows_all ==> fs_action_spec(
            PaneState { vis: fs_action_spec(state, FsActionKind::ToggleHidden, inputs).1, ..state },
            FsActionKind::ToggleHidden,
            inputs,
        ).1 == state.vis,
{
}

/// Trash and delete act on the selection: with nothing selected nothing
/// happens; asking first, the confirmation runs the same action without
/// asking; without asking, a stash pane drops the items from its stash, a
/// history pane (for delete) from its history, and any other pane trashes
/// or deletes the paths. No visibility changes.
pub proof fn lemma_trash_delete_targets(state: PaneState, inputs: ActionInputs)
    ensures
        ({
            let sel = inputs.selection.deep_view();
            let t = fs_action_spec(state, FsActionKind::Trash(false), inputs);
            let tn = fs_action_spec(state, FsActionKind::Trash(true), inputs);
            let d = fs_action_spec(state, FsActionKind::Delete(false), inputs);
            let dn = fs_action_spec(state, FsActionKind::Delete(true), inputs);
            &&& t.1 == state.vis && tn.1 == state.vis && d.1 == state.vis && dn.1 == state.vis
            &&& sel.len() == 0 ==> t.0 is Nothing && tn.0 is Nothing && d.0 is Nothing && dn.0 is Nothing
            &&& sel.len() > 0 ==> (t.0 matches StepView::Confirm { then, .. } && then == FsActionKind::Trash(true))
            &&& sel.len() > 0 ==> (d.0 matches StepView::Confirm { then, default_yes, .. } && then
                == FsActionKind::Delete(true) && !default_yes)
            &&& sel.len() > 0 && state.stash_name is Some ==> tn.0 == StepView::RemoveFromStash {
                name: state.stash_name->0@,
                items: sel,
            } && dn.0 == StepView::RemoveFromStash { name: state.stash_name->0@, items: sel }
            &&& sel.len() > 0 && state.stash_name is None ==> tn.0 == StepView::TrashPaths(sel)
            &&& sel.len() > 0 && state.stash_name is None && (state.kind is Files || state.kind is Folders
                || state.kind is Apps) ==> (dn.0 matches StepView::RemoveFromHistory { items, .. } && items == sel)
            &&& sel.len() > 0 && state.stash_name is None && !(state.kind is Files || state.kind is Folders
                || state.kind is Apps) ==> dn.0 == StepView::DeletePaths(sel)
        }),
{
}

/// Paste runs the queue into the given directory when it is absolute, into
/// the Nav directory when none is given, and otherwise only says why not.
pub proof fn lemma_paste_destination(state: PaneState, inputs: ActionInputs, dest: String)
    ensures
        ({
            let r = fs_action_spec(state, FsActionKind::Paste(dest), inputs);
            &&& r.1 == state.vis
            &&& dest@.len() > 0 && path_absolute(dest@) ==> r.0 == StepView::ExecuteQueue(dest@)
            &&& dest@.len() > 0 && !path_absolute(dest@) ==> r.0 is Notice
            &&& dest@.len() == 0 && inputs.nav_cwd is Some ==> r.0 == StepView::ExecuteQueue(inputs.nav_cwd->0@)
            &&& dest@.len() == 0 && inputs.nav_cwd is None ==> r.0 is Notice
        }),
{
}

/// Jumping goes to the target after the one that is the working directory,
/// wrapping around; from anywhere else it goes to the first target.
pub proof fn lemma_jump_moves_on(state: PaneState, inputs: ActionInputs, paths: Vec<String>, t: int)
    requires
        0 <= t < inputs.jump_targets@.len(),
        inputs.canonical_cwd matches Some(c) && inputs.jump_targets@[t] matches Some(x) && x@ == c@,
        forall|j: int| 0 <= j < t ==> !(#[trigger] inputs.jump_targets@[j] matches Some(x) && x@ == inputs.canonical_cwd->0@),
    ensures
        fs_action_spec(state, FsActionKind::Jump(paths), inputs).0 == StepView::JumpTo(
            if t + 1 == inputs.jump_targets@.len() {
                0
            } else {
                t + 1
            },
        ),
{
    let tv = targets_view(inputs.jump_targets@);
    let c = inputs.canonical_cwd->0@;
    let p = is_target(c);
    assert forall|j: int| 0 <= j < t implies !p(#[trigger] tv[j]) by {
        assert(tv[j] == opt_view(inputs.jump_targets@[j]));
    }
    assert(tv[t] == opt_view(inputs.jump_targets@[t]));
    assert(p(tv[t]));
    lemma_first_index_is(tv, p, t);
    let n = tv.len() as int;
    assert(n == inputs.jump_targets@.len());
    if t + 1 < n {
        assert((t + 1) % n == t + 1) by (nonlinear_arith)
            requires
                0 <= t + 1 < n,
        ;
    } else {
        assert((t + 1) % n == 0) by (nonlinear_arith)
            requires
                t + 1 == n,
                n > 0,
        ;
    }
}

/// Locking the prompt enters or leaves it as asked, and toggles it when
/// not asked; clearing the queue asks first unless told not to, and the
/// confirmation then clears without asking. Neither changes the visibility.
pub proof fn lemma_prompt_and_clear(state: PaneState, inputs: ActionInputs, enter: Option<bool>)
    ensures
        fs_action_spec(state, FsActionKind::LockPrompt(enter), inputs).0 == StepView::LockPrompt(
            match enter {
                Some(e) => e,
                None => !state.in_prompt,
            },
        ),
        fs_action_spec(state, FsActionKind::LockPrompt(enter), inputs).1 == state.vis,
        fs_action_spec(state, FsActionKind::ClearQueue(true), inputs).0 is ClearPending,
        fs_action_spec(state, FsActionKind::ClearQueue(false), inputs).0 matches StepView::Confirm {
            then,
            default_yes,
            ..
        } && then == FsActionKind::ClearQueue(true) && !default_yes,
        fs_action_spec(state, FsActionKind::ClearQueue(false), inputs).1 == state.vis,
{
}

/// A copy of an optional text.
fn clone_opt(o: &Option<String>) -> (r: Option<String>)
    ensures
        opt_view(r) == opt_view(*o),
{
    match o {
        Some(t) => Some(t.clone()),
        None => None,
    }
}

/// The command a `Lessfilter` action runs (see [`lessfilter_template`]).
fn make_lessfilter_template(command: &str, paging: bool, show_binds: bool, pager: &Option<String>) -> (t: String)
    ensures
        t@ == lessfilter_template(command@, paging, show_binds, opt_view(*pager)),
{
    let mut t = command.to_string();
    if paging {
        if let Some(pp) = pager {
            t.append(" | ");
            if show_binds {
                t.append("PG_LANG=ini ");
            } else {
                proof {
                    reveal_strlit("");
                }
                assert(t@ =~= t@ + ""@);
            }
            t.append(pp.as_str());
            t.append(" > /dev/tty");
        }
    }
    t
}

/// Every execute action is sent with a mode that its channel decodes back
/// to itself.
pub proof fn lemma_interrupt_decodes(a: FsActionKind)
    requires
        interrupt_of(a) is Some,
    ensures
        ({
            let (ch, m) = interrupt_of(a)->0;
            match ch {
                InterruptChannel::Execute => crate::run::register::execute_mode_of(
                    crate::run::register::mode_code(m),
                ) == Some(m),
                _ => crate::run::register::silent_mode_of(crate::run::register::mode_code(m)) == Some(m),
            }
        }),
{
}

} // verus!

verus! {

/// A picker action as a key produces it: one of the file manager's own, or
/// one of the picker's that the rewriting looks at; any other is `Other`.
#[derive(Debug, Clone, PartialEq, Eq)]
pub enum MmAction {
    Fs(FsActionKind),
    Up(u16),
    Down(u16),
    Accept,
    Print(String),
    Reload(String),
    ForwardChar,
    BackwardChar,
    DeleteWord,
    /// Open the overlay with this index.
    Overlay(u8),
    /// Move the cursor to this position.
    Pos(i32),
    /// Preview with this command.
    Preview(String),
    Other,
}

/// What the rewriting reads of the picker and the pane.
#[derive(Debug, Clone)]
pub struct AliasCtx {
    /// The query bar is active.
    pub in_prompt: bool,
    /// The open overlay.
    pub overlay: Option<u8>,
    pub in_app: bool,
    pub in_rg: bool,
    /// Delete and trash keep working in the prompt.
    pub allow_delete_actions: bool,
    /// There is a cursor item.
    pub has_current: bool,
    /// The cursor item's tail text (an alias prefills with it).
    pub current_tail: String,
    /// There is an indexed cursor item.
    pub has_current_indexed: bool,
    pub has_cwd: bool,
    pub has_nav_cwd: bool,
    pub cursor_disabled: bool,
    /// The cursor's index.
    pub index: u32,
    /// The results list runs bottom-up.
    pub reverse: bool,
    /// Autojump onto the cursor item advances rather than accepts.
    pub autojump_advance: bool,
    /// Accept and print swap roles.
    pub alt_accept: bool,
    /// The pane reads a stream (stdin), which cannot be reloaded.
    pub stream_pane: bool,
}

/// An internal action carried out at once.
#[derive(Debug, Clone, Copy, PartialEq, Eq, Structural)]
pub enum InternalAction {
    Reload,
    ReSort,
    Refilter,
    SaveInput,
    Filtering(Option<bool>),
}

/// The input bar a menu opens with.
#[derive(Debug, Clone, Copy, PartialEq, Eq, Structural)]
pub enum PromptFor {
    New,
    NewDir,
    SetAlias,
}

/// What the rewriting does besides the actions it hands on.
#[derive(Debug, Clone, PartialEq, Eq)]
pub struct AliasEffects {
    pub internal: Option<InternalAction>,
    /// Open the menu with this input bar and initial text.
    pub menu_prompt: Option<(PromptFor, String)>,
    pub leave_prompt: bool,
    pub enter_prompt: bool,
    /// The accept prints rather than opens.
    pub accept_flavor: bool,
    pub clear_toasts: bool,
    /// Tell that streams cannot be reloaded.
    pub stream_notice: bool,
}

/// The model of the effects.
pub struct EffectsView {
    pub internal: Option<InternalAction>,
    pub menu_prompt: Option<(PromptFor, Seq<char>)>,
    pub leave_prompt: bool,
    pub enter_prompt: bool,
    pub accept_flavor: bool,
    pub clear_toasts: bool,
    pub stream_notice: bool,
}

/// The model of the effects.
pub open spec fn effects_view(e: AliasEffects) -> EffectsView {
    EffectsView {
        internal: e.internal,
        menu_prompt: match e.menu_prompt {
            Some((k, t)) => Some((k, t@)),
            None => None,
        },
        leave_prompt: e.leave_prompt,
        enter_prompt: e.enter_prompt,
        accept_flavor: e.accept_flavor,
        clear_toasts: e.clear_toasts,
        stream_notice: e.stream_notice,
    }
}

/// No effect.
pub open spec fn no_effects() -> EffectsView {
    EffectsView {
        internal: None,
        menu_prompt: None,
        leave_prompt: false,
        enter_prompt: false,
        accept_flavor: false,
        clear_toasts: false,
        stream_notice: false,
    }
}

/// No effect.
fn none_effects() -> (e: AliasEffects)
    ensures
        effects_view(e) == no_effects(),
{
    AliasEffects {
        internal: None,
        menu_prompt: None,
        leave_prompt: false,
        enter_prompt: false,
        accept_flavor: false,
        clear_toasts: false,
        stream_notice: false,
    }
}

/// The rewriting of a key's action: what is handed on, and what is done
/// at once. In the prompt (or an overlay) `Parent`/`Advance` edit the
/// query, delete and trash delete a word (unless allowed); the overlay
/// actions open their overlay; the creating actions open the menu's input
/// bar; an autojump moves the cursor (and accepts when it is on the item
/// already), `0` toggling the prompt; moving past the first item enters the
/// prompt; accept in the prompt locks onto the directory first.
pub open spec fn alias_spec(a: MmAction, ctx: AliasCtx) -> (Seq<MmAction>, EffectsView) {
    let in_prompt = ctx.in_prompt;
    let raw_input = in_prompt || ctx.overlay is Some;
    let none = no_effects();
    match a {
        MmAction::Fs(fa) => match fa {
            FsActionKind::Reload => (Seq::empty(), EffectsView { internal: Some(InternalAction::Reload), ..none }),
            FsActionKind::ReSort => (Seq::empty(), EffectsView { internal: Some(InternalAction::ReSort), ..none }),
            FsActionKind::Refilter => (Seq::empty(), EffectsView { internal: Some(InternalAction::Refilter), ..none }),
            FsActionKind::SaveInput => (Seq::empty(), EffectsView { internal: Some(InternalAction::SaveInput), ..none }),
            FsActionKind::Filtering(f) => (
                Seq::empty(),
                EffectsView { internal: Some(InternalAction::Filtering(f)), ..none },
            ),
            FsActionKind::Parent => (
                if raw_input {
                    seq![MmAction::BackwardChar]
                } else if ctx.in_app {
                    Seq::empty()
                } else {
                    seq![a]
                },
                none,
            ),
            FsActionKind::Advance => (if raw_input { seq![MmAction::ForwardChar] } else { seq![a] }, none),
            FsActionKind::Delete(nc) | FsActionKind::Trash(nc) => (
                if !ctx.allow_delete_actions && in_prompt && !nc {
                    seq![MmAction::DeleteWord]
                } else if ctx.in_app {
                    Seq::empty()
                } else {
                    seq![a]
                },
                none,
            ),
            FsActionKind::ShowQueue => (
                if ctx.overlay is Some { seq![a] } else { seq![MmAction::Overlay(if ctx.in_app { 1 } else { 0 })] },
                none,
            ),
            FsActionKind::ShowOptions => (if ctx.overlay is Some { seq![a] } else { seq![MmAction::Overlay(2)] }, none),
            FsActionKind::Confirm => (if ctx.overlay is Some { seq![a] } else { seq![MmAction::Overlay(3)] }, none),
            FsActionKind::ShowMenu => (
                if ctx.overlay is Some {
                    seq![a]
                } else if !ctx.has_current_indexed && !ctx.has_cwd {
                    Seq::empty()
                } else {
                    seq![MmAction::Overlay(4)]
                },
                none,
            ),
            FsActionKind::New | FsActionKind::NewDir => if ctx.overlay == Some(4u8) {
                (seq![a], none)
            } else if ctx.overlay is Some || !(ctx.has_current || ctx.has_nav_cwd) {
                (Seq::empty(), none)
            } else {
                (
                    seq![MmAction::Overlay(4)],
                    EffectsView {
                        menu_prompt: Some((if fa is New { PromptFor::New } else { PromptFor::NewDir }, Seq::empty())),
                        ..none
                    },
                )
            },
            FsActionKind::SetAlias(_) => if ctx.overlay == Some(4u8) {
                (seq![a], none)
            } else if in_prompt || ctx.in_rg || ctx.overlay is Some || !ctx.has_current {
                (Seq::empty(), none)
            } else {
                (
                    seq![MmAction::Overlay(4)],
                    EffectsView { menu_prompt: Some((PromptFor::SetAlias, ctx.current_tail@)), ..none },
                )
            },
            FsActionKind::LessfilterPreview(cmd) => (seq![MmAction::Preview(cmd)], none),
            FsActionKind::AutoJump(d) => if ctx.overlay is Some {
                (seq![MmAction::Pos(if d == 0 { 0i32 } else { (d - 1) as i32 })], none)
            } else if d == 0 {
                if in_prompt {
                    (Seq::empty(), EffectsView { leave_prompt: true, ..none })
                } else {
                    (Seq::empty(), EffectsView { enter_prompt: ctx.has_cwd, ..none })
                }
            } else if in_prompt {
                (seq![MmAction::Pos((d - 1) as i32)], EffectsView { leave_prompt: true, ..none })
            } else if d - 1 == ctx.index {
                if ctx.autojump_advance {
                    (seq![MmAction::Pos((d - 1) as i32), MmAction::Fs(FsActionKind::Advance)], none)
                } else {
                    (
                        seq![MmAction::Pos((d - 1) as i32), MmAction::Accept],
                        EffectsView { accept_flavor: ctx.alt_accept && !ctx.in_app, ..none },
                    )
                }
            } else {
                (seq![MmAction::Pos((d - 1) as i32)], none)
            },
            _ => (seq![a], none),
        },
        MmAction::Up(i) => {
            let cleared = EffectsView { clear_toasts: true, ..none };
            if ctx.overlay is Some {
                (seq![a], cleared)
            } else if ctx.cursor_disabled {
                (
                    if !ctx.reverse { seq![a] } else { seq![MmAction::Up(if i == 0 { 0 } else { (i - 1) as u16 })] },
                    EffectsView { leave_prompt: true, ..cleared },
                )
            } else if i > ctx.index && !ctx.reverse {
                if ctx.has_cwd {
                    (Seq::empty(), EffectsView { enter_prompt: true, ..cleared })
                } else {
                    (seq![a], cleared)
                }
            } else {
                (seq![a], cleared)
            }
        },
        MmAction::Down(i) => {
            let cleared = EffectsView { clear_toasts: true, ..none };
            if ctx.overlay is Some {
                (seq![a], cleared)
            } else if ctx.cursor_disabled {
                (
                    if ctx.reverse { seq![a] } else { seq![MmAction::Down(if i == 0 { 0 } else { (i - 1) as u16 })] },
                    EffectsView { leave_prompt: true, ..cleared },
                )
            } else if i > ctx.index && ctx.reverse {
                if ctx.has_cwd {
                    (Seq::empty(), EffectsView { enter_prompt: true, ..cleared })
                } else {
                    (seq![a], cleared)
                }
            } else {
                (seq![a], cleared)
            }
        },
        MmAction::Accept | MmAction::Print(_) => {
            let is_print = a is Print;
            if (a matches MmAction::Print(s) && s@.len() > 0) || ctx.overlay is Some {
                (seq![a], none)
            } else if in_prompt {
                if ctx.cursor_disabled {
                    (seq![MmAction::Fs(FsActionKind::AcceptPrompt)], none)
                } else if ctx.has_cwd {
                    (Seq::empty(), EffectsView { enter_prompt: true, ..none })
                } else {
                    (seq![a], none)
                }
            } else {
                (seq![MmAction::Accept], EffectsView { accept_flavor: (ctx.alt_accept != is_print) && !ctx.in_app, ..none })
            }
        },
        MmAction::Reload(s) => if s@.len() == 0 && ctx.stream_pane {
            (Seq::empty(), EffectsView { stream_notice: true, ..none })
        } else {
            (seq![a], none)
        },
        MmAction::ForwardChar => if !ctx.cursor_disabled && in_prompt {
            (seq![MmAction::Fs(FsActionKind::Advance)], none)
        } else {
            (seq![a], none)
        },
        MmAction::BackwardChar => if !ctx.cursor_disabled && in_prompt {
            (seq![MmAction::Fs(FsActionKind::Parent)], none)
        } else {
            (seq![a], none)
        },
        _ => (seq![a], none),
    }
}

/// The rewritten actions and their effects.
#[derive(Debug, Clone, PartialEq, Eq)]
pub struct AliasStep {
    pub actions: Vec<MmAction>,
    pub effects: AliasEffects,
}

/// A vector of one action.
fn one(a: MmAction) -> (v: Vec<MmAction>)
    ensures
        v@ == seq![a],
{
    let mut v = Vec::new();
    v.push(a);
    v
}

/// Rewrites a key's action for the prompt, the overlays and the pane.
pub fn alias_action(a: MmAction, ctx: &AliasCtx) -> (r: AliasStep)
    ensures
        r.actions@ == alias_spec(a, *ctx).0,
        effects_view(r.effects) == alias_spec(a, *ctx).1,
{
    let in_prompt = ctx.in_prompt;
    let raw_input = in_prompt || ctx.overlay.is_some();
    let none = none_effects();
    let empty: Vec<MmAction> = Vec::new();
    match a {
        MmAction::Fs(fa) => match fa {
            FsActionKind::Reload => AliasStep {
                actions: empty,
                effects: AliasEffects { internal: Some(InternalAction::Reload), ..none },
            },
            FsActionKind::ReSort => AliasStep {
                actions: empty,
                effects: AliasEffects { internal: Some(InternalAction::ReSort), ..none },
            },
            FsActionKind::Refilter => AliasStep {
                actions: empty,
                effects: AliasEffects { internal: Some(InternalAction::Refilter), ..none },
            },
            FsActionKind::SaveInput => AliasStep {
                actions: empty,
                effects: AliasEffects { internal: Some(InternalAction::SaveInput), ..none },
            },
            FsActionKind::Filtering(f) => AliasStep {
                actions: empty,
                effects: AliasEffects { internal: Some(InternalAction::Filtering(f)), ..none },
            },
            FsActionKind::Parent => AliasStep {
                actions: if raw_input {
                    one(MmAction::BackwardChar)
                } else if ctx.in_app {
                    empty
                } else {
                    one(MmAction::Fs(FsActionKind::Parent))
                },
                effects: none,
            },
            FsActionKind::Advance => AliasStep {
                actions: if raw_input {
                    one(MmAction::ForwardChar)
                } else {
                    one(MmAction::Fs(FsActionKind::Advance))
                },
                effects: none,
            },
            FsActionKind::Delete(nc) => AliasStep {
                actions: if !ctx.allow_delete_actions && in_prompt && !nc {
                    one(MmAction::DeleteWord)
                } else if ctx.in_app {
                    empty
                } else {
                    one(MmAction::Fs(FsActionKind::Delete(nc)))
                },
                effects: none,
            },
            FsActionKind::Trash(nc) => AliasStep {
                actions: if !ctx.allow_delete_actions && in_prompt && !nc {
                    one(MmAction::DeleteWord)
                } else if ctx.in_app {
                    empty
                } else {
                    one(MmAction::Fs(FsActionKind::Trash(nc)))
                },
                effects: none,
            },
            FsActionKind::ShowQueue => AliasStep {
                actions: if ctx.overlay.is_some() {
                    one(MmAction::Fs(FsActionKind::ShowQueue))
                } else {
                    one(MmAction::Overlay(if ctx.in_app { 1 } else { 0 }))
                },
                effects: none,
            },
            FsActionKind::ShowOptions => AliasStep {
                actions: if ctx.overlay.is_some() {
                    one(MmAction::Fs(FsActionKind::ShowOptions))
                } else {
                    one(MmAction::Overlay(2))
                },
                effects: none,
            },
            FsActionKind::Confirm => AliasStep {
                actions: if ctx.overlay.is_some() {
                    one(MmAction::Fs(FsActionKind::Confirm))
                } else {
                    one(MmAction::Overlay(3))
                },
                effects: none,
            },
            FsActionKind::ShowMenu => AliasStep {
                actions: if ctx.overlay.is_some() {
                    one(MmAction::Fs(FsActionKind::ShowMenu))
                } else if !ctx.has_current_indexed && !ctx.has_cwd {
                    empty
                } else {
                    one(MmAction::Overlay(4))
                },
                effects: none,
            },
            FsActionKind::New | FsActionKind::NewDir => {
                let is_new = match fa {
                    FsActionKind::New => true,
                    _ => false,
                };
                if ctx.overlay == Some(4u8) {
                    AliasStep { actions: one(MmAction::Fs(fa)), effects: none }
                } else if ctx.overlay.is_some() || !(ctx.has_current || ctx.has_nav_cwd) {
                    AliasStep { actions: empty, effects: none }
                } else {
                    let kind = if is_new {
                        PromptFor::New
                    } else {
                        PromptFor::NewDir
                    };
                    let text = String::new();
                    AliasStep {
                        actions: one(MmAction::Overlay(4)),
                        effects: AliasEffects { menu_prompt: Some((kind, text)), ..none },
                    }
                }
            },
            FsActionKind::SetAlias(t) => {
                if ctx.overlay == Some(4u8) {
                    AliasStep { actions: one(MmAction::Fs(FsActionKind::SetAlias(t))), effects: none }
                } else if in_prompt || ctx.in_rg || ctx.overlay.is_some() || !ctx.has_current {
                    AliasStep { actions: empty, effects: none }
                } else {
                    let tail = ctx.current_tail.clone();
                    AliasStep {
                        actions: one(MmAction::Overlay(4)),
                        effects: AliasEffects { menu_prompt: Some((PromptFor::SetAlias, tail)), ..none },
                    }
                }
            },
            FsActionKind::LessfilterPreview(cmd) => AliasStep {
                actions: one(MmAction::Preview(cmd)),
                effects: none,
            },
            FsActionKind::AutoJump(d) => {
                if ctx.overlay.is_some() {
                    let p: i32 = if d == 0 {
                        0
                    } else {
                        (d - 1) as i32
                    };
                    AliasStep { actions: one(MmAction::Pos(p)), effects: none }
                } else if d == 0 {
                    if in_prompt {
                        AliasStep { actions: empty, effects: AliasEffects { leave_prompt: true, ..none } }
                    } else {
                        AliasStep { actions: empty, effects: AliasEffects { enter_prompt: ctx.has_cwd, ..none } }
                    }
                } else if in_prompt {
                    AliasStep {
                        actions: one(MmAction::Pos((d - 1) as i32)),
                        effects: AliasEffects { leave_prompt: true, ..none },
                    }
                } else if (d - 1) as u32 == ctx.index {
                    let mut v = one(MmAction::Pos((d - 1) as i32));
                    if ctx.autojump_advance {
                        v.push(MmAction::Fs(FsActionKind::Advance));
                        AliasStep { actions: v, effects: none }
                    } else {
                        v.push(MmAction::Accept);
                        AliasStep {
                            actions: v,
                            effects: AliasEffects { accept_flavor: ctx.alt_accept && !ctx.in_app, ..none },
                        }
                    }
                } else {
                    AliasStep { actions: one(MmAction::Pos((d - 1) as i32)), effects: none }
                }
            },
            other => AliasStep { actions: one(MmAction::Fs(other)), effects: none },
        },
        MmAction::Up(i) => {
            let cleared = AliasEffects { clear_toasts: true, ..none };
            if ctx.overlay.is_some() {
                AliasStep { actions: one(MmAction::Up(i)), effects: cleared }
            } else if ctx.cursor_disabled {
                let n: u16 = if i == 0 {
                    0
                } else {
                    i - 1
                };
                AliasStep {
                    actions: if !ctx.reverse {
                        one(MmAction::Up(i))
                    } else {
                        one(MmAction::Up(n))
                    },
                    effects: AliasEffects { leave_prompt: true, ..cleared },
                }
            } else if i as u32 > ctx.index && !ctx.reverse && ctx.has_cwd {
                AliasStep { actions: empty, effects: AliasEffects { enter_prompt: true, ..cleared } }
            } else {
                AliasStep { actions: one(MmAction::Up(i)), effects: cleared }
            }
        },
        MmAction::Down(i) => {
            let cleared = AliasEffects { clear_toasts: true, ..none };
            if ctx.overlay.is_some() {
                AliasStep { actions: one(MmAction::Down(i)), effects: cleared }
            } else if ctx.cursor_disabled {
                let n: u16 = if i == 0 {
                    0
                } else {
                    i - 1
                };
                AliasStep {
                    actions: if ctx.reverse {
                        one(MmAction::Down(i))
                    } else {
                        one(MmAction::Down(n))
                    },
                    effects: AliasEffects { leave_prompt: true, ..cleared },
                }
            } else if i as u32 > ctx.index && ctx.reverse && ctx.has_cwd {
                AliasStep { actions: empty, effects: AliasEffects { enter_prompt: true, ..cleared } }
            } else {
                AliasStep { actions: one(MmAction::Down(i)), effects: cleared }
            }
        },
        MmAction::Accept | MmAction::Print(_) => {
            let is_print = match &a {
                MmAction::Print(_) => true,
                _ => false,
            };
            let passes = match &a {
                MmAction::Print(s) => s.unicode_len() > 0,
                _ => false,
            };
            if passes || ctx.overlay.is_some() {
                AliasStep { actions: one(a), effects: none }
            } else if in_prompt {
                if ctx.cursor_disabled {
                    AliasStep { actions: one(MmAction::Fs(FsActionKind::AcceptPrompt)), effects: none }
                } else if ctx.has_cwd {
                    AliasStep { actions: empty, effects: AliasEffects { enter_prompt: true, ..none } }
                } else {
                    AliasStep { actions: one(a), effects: none }
                }
            } else {
                AliasStep {
                    actions: one(MmAction::Accept),
                    effects: AliasEffects { accept_flavor: (ctx.alt_accept != is_print) && !ctx.in_app, ..none },
                }
            }
        },
        MmAction::Reload(s) => {
            if s.unicode_len() == 0 && ctx.stream_pane {
                AliasStep { actions: empty, effects: AliasEffects { stream_notice: true, ..none } }
            } else {
                AliasStep { actions: one(MmAction::Reload(s)), effects: none }
            }
        },
        MmAction::ForwardChar => {
            if !ctx.cursor_disabled && in_prompt {
                AliasStep { actions: one(MmAction::Fs(FsActionKind::Advance)), effects: none }
            } else {
                AliasStep { actions: one(MmAction::ForwardChar), effects: none }
            }
        },
        MmAction::BackwardChar => {
            if !ctx.cursor_disabled && in_prompt {
                AliasStep { actions: one(MmAction::Fs(FsActionKind::Parent)), effects: none }
            } else {
                AliasStep { actions: one(MmAction::BackwardChar), effects: none }
            }
        },
        other => AliasStep { actions: one(other), effects: none },
    }
}

} // verus!

verus! {

/// How a refilter lands: a reload re-reads the pane, a fill computes the
/// sort values and then re-sorts.
#[derive(Debug, Clone, Copy, PartialEq, Eq, Structural)]
pub enum RefilterPlan {
    Reload,
    FillThenResort,
}

/// The refilter after the pane's visibility was synced from the filters: a
/// changed visibility, or a pane that its source sorts, reloads; any other
/// fills its sort values and re-sorts.
pub fn refilter_plan(vis_changed: bool, reloads_by_sorting: bool) -> (p: RefilterPlan)
    ensures
        p == (if vis_changed || reloads_by_sorting { RefilterPlan::Reload } else { RefilterPlan::FillThenResort }),
{
    if vis_changed || reloads_by_sorting {
        RefilterPlan::Reload
    } else {
        RefilterPlan::FillThenResort
    }
}

} // verus!
