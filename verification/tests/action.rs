use fist::run::action::{
    alias_action, fs_action_step, ActionInputs, ActionStep, AliasCtx, FsActionKind, HistoryTable, InternalAction,
    MmAction, PaneState, PromptFor, Visibility,
};
use fist::run::action::{refilter_plan, InterruptChannel, RefilterPlan};
use fist::run::register::ExecutionMode;
use fist::run::state::stack::PaneKind;

fn vis(dirs: bool, files: bool, hidden: bool) -> Visibility {
    Visibility { dirs, files, hidden }
}

fn pane(kind: PaneKind) -> PaneState {
    PaneState { kind, stash_name: None, vis: vis(false, false, false), in_prompt: false }
}

fn inputs(selection: &[&str]) -> ActionInputs {
    ActionInputs {
        cursor_disabled: false,
        cwd: Some("/w".into()),
        nav_cwd: Some("/n".into()),
        selection: selection.iter().map(|s| s.to_string()).collect(),
        shows_all: false,
        default_vis: vis(false, false, false),
        jump_targets: vec![],
        canonical_cwd: None,
        has_selections: false,
        current: None,
        current_is_dir: false,
        current_exists: false,
        current_is_file: false,
        archive_supported: false,
        same_find_pane: false,
        search_filtering: None,
        alt_accept: false,
        pager: None,
    }
}

fn strs(v: &[&str]) -> Vec<String> {
    v.iter().map(|s| s.to_string()).collect()
}

#[test]
fn toggles_cycle_visibility_or_sort() {
    let mut p = pane(PaneKind::Nav);
    let i = inputs(&[]);
    let mut seen = vec![];
    for _ in 0..3 {
        assert_eq!(fs_action_step(&mut p, &FsActionKind::FsToggle, &i), ActionStep::Refilter { notice: None });
        seen.push((p.vis.dirs, p.vis.files));
    }
    assert_eq!(seen, vec![(false, true), (true, false), (false, false)]);
    let mut files = pane(PaneKind::Files);
    assert_eq!(fs_action_step(&mut files, &FsActionKind::FsToggle, &i), ActionStep::CycleSort);

    assert_eq!(
        fs_action_step(&mut p, &FsActionKind::ToggleHidden, &i),
        ActionStep::Refilter { notice: Some("Showing hidden".into()) }
    );
    assert!(p.vis.hidden);
    assert_eq!(
        fs_action_step(&mut p, &FsActionKind::ToggleHidden, &i),
        ActionStep::Refilter { notice: Some("Default filters".into()) }
    );
    assert!(!p.vis.hidden);
}

#[test]
fn trash_and_delete_ask_then_route() {
    let mut nav = pane(PaneKind::Nav);
    let one = inputs(&["/w/a.txt"]);
    let two = inputs(&["/w/a", "/w/b"]);
    assert_eq!(
        fs_action_step(&mut nav, &FsActionKind::Trash(false), &one),
        ActionStep::Confirm {
            verb: "Trash".into(),
            detail: " a.txt?".into(),
            default_yes: true,
            then: FsActionKind::Trash(true)
        }
    );
    assert_eq!(fs_action_step(&mut nav, &FsActionKind::Trash(true), &two), ActionStep::TrashPaths(strs(&["/w/a", "/w/b"])));
    assert_eq!(
        fs_action_step(&mut nav, &FsActionKind::Delete(false), &two),
        ActionStep::Confirm {
            verb: "Delete".into(),
            detail: " 2 items?".into(),
            default_yes: false,
            then: FsActionKind::Delete(true)
        }
    );
    assert_eq!(fs_action_step(&mut nav, &FsActionKind::Delete(true), &one), ActionStep::DeletePaths(strs(&["/w/a.txt"])));
    assert_eq!(fs_action_step(&mut nav, &FsActionKind::Delete(true), &inputs(&[])), ActionStep::Nothing);

    let mut history = pane(PaneKind::Folders);
    assert_eq!(
        fs_action_step(&mut history, &FsActionKind::Delete(false), &one),
        ActionStep::Confirm {
            verb: "Remove".into(),
            detail: " a.txt from history?".into(),
            default_yes: false,
            then: FsActionKind::Delete(true)
        }
    );
    assert_eq!(
        fs_action_step(&mut history, &FsActionKind::Delete(true), &one),
        ActionStep::RemoveFromHistory { table: HistoryTable::Dirs, items: strs(&["/w/a.txt"]) }
    );
    let mut stash = pane(PaneKind::Stash);
    stash.stash_name = Some("work".into());
    assert_eq!(
        fs_action_step(&mut stash, &FsActionKind::Delete(false), &two),
        ActionStep::Confirm {
            verb: "Remove".into(),
            detail: " 2 items from stash?".into(),
            default_yes: false,
            then: FsActionKind::Delete(true)
        }
    );
    assert_eq!(
        fs_action_step(&mut stash, &FsActionKind::Trash(true), &one),
        ActionStep::RemoveFromStash { name: "work".into(), items: strs(&["/w/a.txt"]) }
    );
}

#[test]
fn paste_checks_its_base_and_items_follow_the_cursor() {
    let mut p = pane(PaneKind::Nav);
    let mut i = inputs(&["/w/a"]);
    assert_eq!(fs_action_step(&mut p, &FsActionKind::Paste(String::new()), &i), ActionStep::ExecuteQueue("/n".into()));
    assert_eq!(fs_action_step(&mut p, &FsActionKind::Paste("/dst".into()), &i), ActionStep::ExecuteQueue("/dst".into()));
    assert_eq!(
        fs_action_step(&mut p, &FsActionKind::Paste("rel".into()), &i),
        ActionStep::Notice { error: true, text: "rel is not absolute.".into() }
    );
    i.nav_cwd = None;
    assert_eq!(
        fs_action_step(&mut p, &FsActionKind::Paste(String::new()), &i),
        ActionStep::Notice { error: false, text: "No current directory.".into() }
    );
    assert_eq!(
        fs_action_step(&mut p, &FsActionKind::Cut, &i),
        ActionStep::Enqueue { kind: "cut".into(), items: strs(&["/w/a"]), toast: "Cut: ".into(), clipboard: true }
    );
    i.cursor_disabled = true;
    assert_eq!(
        fs_action_step(&mut p, &FsActionKind::Push, &i),
        ActionStep::Enqueue { kind: "copy".into(), items: strs(&["/w"]), toast: "Stashed: ".into(), clipboard: false }
    );
    i.cwd = None;
    assert_eq!(fs_action_step(&mut p, &FsActionKind::Copy, &i), ActionStep::Nothing);
    assert_eq!(fs_action_step(&mut p, &FsActionKind::ClearQueue(true), &i), ActionStep::ClearPending);
    assert_eq!(fs_action_step(&mut p, &FsActionKind::LockPrompt(None), &i), ActionStep::LockPrompt(true));
    assert_eq!(fs_action_step(&mut p, &FsActionKind::Rename, &i), ActionStep::Unhandled);
}

#[test]
fn jumps_cycle_through_their_targets() {
    let mut p = pane(PaneKind::Nav);
    let mut i = inputs(&[]);
    i.jump_targets = vec![Some("/a".into()), None, Some("/c".into())];
    assert_eq!(fs_action_step(&mut p, &FsActionKind::Jump(vec![]), &i), ActionStep::JumpTo(0));
    i.canonical_cwd = Some("/a".into());
    assert_eq!(fs_action_step(&mut p, &FsActionKind::Jump(vec![]), &i), ActionStep::JumpTo(1));
    i.canonical_cwd = Some("/c".into());
    assert_eq!(fs_action_step(&mut p, &FsActionKind::Jump(vec![]), &i), ActionStep::JumpTo(0));
    i.canonical_cwd = Some("/zzz".into());
    assert_eq!(fs_action_step(&mut p, &FsActionKind::Jump(vec![]), &i), ActionStep::JumpTo(0));
}

fn ctx() -> AliasCtx {
    AliasCtx {
        in_prompt: false,
        overlay: None,
        in_app: false,
        in_rg: false,
        allow_delete_actions: false,
        has_current: true,
        current_tail: "tail".into(),
        has_current_indexed: true,
        has_cwd: true,
        has_nav_cwd: true,
        cursor_disabled: false,
        index: 2,
        reverse: false,
        autojump_advance: false,
        alt_accept: false,
        stream_pane: false,
    }
}

#[test]
fn the_prompt_turns_navigation_into_editing() {
    let mut c = ctx();
    assert_eq!(alias_action(MmAction::Fs(FsActionKind::Parent), &c).actions, vec![MmAction::Fs(FsActionKind::Parent)]);
    c.in_prompt = true;
    assert_eq!(alias_action(MmAction::Fs(FsActionKind::Parent), &c).actions, vec![MmAction::BackwardChar]);
    assert_eq!(alias_action(MmAction::Fs(FsActionKind::Advance), &c).actions, vec![MmAction::ForwardChar]);
    assert_eq!(alias_action(MmAction::Fs(FsActionKind::Delete(false)), &c).actions, vec![MmAction::DeleteWord]);
    assert_eq!(
        alias_action(MmAction::Fs(FsActionKind::Trash(true)), &c).actions,
        vec![MmAction::Fs(FsActionKind::Trash(true))]
    );
    assert_eq!(alias_action(MmAction::ForwardChar, &c).actions, vec![MmAction::Fs(FsActionKind::Advance)]);
    let s = alias_action(MmAction::Accept, &c);
    assert!(s.actions.is_empty() && s.effects.enter_prompt);
    c.cursor_disabled = true;
    assert_eq!(alias_action(MmAction::Accept, &c).actions, vec![MmAction::Fs(FsActionKind::AcceptPrompt)]);
}

#[test]
fn overlays_and_menus_open() {
    let mut c = ctx();
    assert_eq!(alias_action(MmAction::Fs(FsActionKind::ShowQueue), &c).actions, vec![MmAction::Overlay(0)]);
    assert_eq!(alias_action(MmAction::Fs(FsActionKind::ShowOptions), &c).actions, vec![MmAction::Overlay(2)]);
    let s = alias_action(MmAction::Fs(FsActionKind::SetAlias(String::new())), &c);
    assert_eq!(s.actions, vec![MmAction::Overlay(4)]);
    assert_eq!(s.effects.menu_prompt, Some((PromptFor::SetAlias, "tail".to_string())));
    let s = alias_action(MmAction::Fs(FsActionKind::NewDir), &c);
    assert_eq!(s.effects.menu_prompt, Some((PromptFor::NewDir, String::new())));
    c.overlay = Some(4);
    assert_eq!(alias_action(MmAction::Fs(FsActionKind::New), &c).actions, vec![MmAction::Fs(FsActionKind::New)]);
    c.overlay = None;
    c.in_app = true;
    assert_eq!(alias_action(MmAction::Fs(FsActionKind::ShowQueue), &c).actions, vec![MmAction::Overlay(1)]);
    let s = alias_action(MmAction::Fs(FsActionKind::Refilter), &c);
    assert_eq!(s.effects.internal, Some(InternalAction::Refilter));
}

#[test]
fn autojump_moves_accepts_and_toggles_the_prompt() {
    let mut c = ctx();
    assert_eq!(alias_action(MmAction::Fs(FsActionKind::AutoJump(1)), &c).actions, vec![MmAction::Pos(0)]);
    let s = alias_action(MmAction::Fs(FsActionKind::AutoJump(3)), &c);
    assert_eq!(s.actions, vec![MmAction::Pos(2), MmAction::Accept]);
    c.autojump_advance = true;
    assert_eq!(
        alias_action(MmAction::Fs(FsActionKind::AutoJump(3)), &c).actions,
        vec![MmAction::Pos(2), MmAction::Fs(FsActionKind::Advance)]
    );
    assert!(alias_action(MmAction::Fs(FsActionKind::AutoJump(0)), &c).effects.enter_prompt);
    c.in_prompt = true;
    let s = alias_action(MmAction::Fs(FsActionKind::AutoJump(2)), &c);
    assert_eq!(s.actions, vec![MmAction::Pos(1)]);
    assert!(s.effects.leave_prompt);
}

#[test]
fn moving_past_the_top_enters_the_prompt() {
    let mut c = ctx();
    let s = alias_action(MmAction::Up(3), &c);
    assert!(s.actions.is_empty() && s.effects.enter_prompt && s.effects.clear_toasts);
    assert_eq!(alias_action(MmAction::Up(1), &c).actions, vec![MmAction::Up(1)]);
    c.cursor_disabled = true;
    let s = alias_action(MmAction::Down(1), &c);
    assert_eq!(s.actions, vec![MmAction::Down(0)]);
    assert!(s.effects.leave_prompt);
    c.cursor_disabled = false;
    c.stream_pane = true;
    assert!(alias_action(MmAction::Reload(String::new()), &c).effects.stream_notice);
    c.alt_accept = true;
    let s = alias_action(MmAction::Print(String::new()), &c);
    assert_eq!(s.actions, vec![MmAction::Accept]);
    assert!(!s.effects.accept_flavor);
    assert!(alias_action(MmAction::Accept, &c).effects.accept_flavor);
}

#[test]
fn refilters_reload_or_resort() {
    assert_eq!(refilter_plan(true, false), RefilterPlan::Reload);
    assert_eq!(refilter_plan(false, true), RefilterPlan::Reload);
    assert_eq!(refilter_plan(false, false), RefilterPlan::FillThenResort);
}

#[test]
fn navigation_actions_pick_their_steps() {
    let mut p = pane(PaneKind::Nav);
    let mut i = inputs(&["/w/a"]);
    assert_eq!(fs_action_step(&mut p, &FsActionKind::Find, &i), ActionStep::Find { push: true });
    i.same_find_pane = true;
    assert_eq!(fs_action_step(&mut p, &FsActionKind::Find, &i), ActionStep::Find { push: false });
    assert_eq!(fs_action_step(&mut p, &FsActionKind::History, &i), ActionStep::SwapHistory);
    assert_eq!(fs_action_step(&mut p, &FsActionKind::App, &i), ActionStep::OpenApps);
    assert_eq!(fs_action_step(&mut p, &FsActionKind::Undo, &i), ActionStep::StackBack);
    assert_eq!(fs_action_step(&mut p, &FsActionKind::Redo, &i), ActionStep::StackForward);
    assert_eq!(fs_action_step(&mut p, &FsActionKind::Backup, &i), ActionStep::Nothing);
    assert_eq!(
        fs_action_step(&mut p, &FsActionKind::Stash("s".into()), &i),
        ActionStep::OpenStash("s".into())
    );
}

#[test]
fn search_toggles_filtering_or_opens_a_search_pane() {
    let mut p = pane(PaneKind::Search);
    let mut i = inputs(&["/w/a", "/w/b"]);
    assert_eq!(fs_action_step(&mut p, &FsActionKind::Search, &i), ActionStep::PushSearch { paths: vec![] });
    i.has_selections = true;
    assert_eq!(
        fs_action_step(&mut p, &FsActionKind::Search, &i),
        ActionStep::PushSearch { paths: strs(&["/w/a", "/w/b"]) }
    );
    i.search_filtering = Some(false);
    assert_eq!(fs_action_step(&mut p, &FsActionKind::Search, &i), ActionStep::ToggleSearchFilter { filtering: true });
    i.search_filtering = Some(true);
    assert_eq!(fs_action_step(&mut p, &FsActionKind::Search, &i), ActionStep::ToggleSearchFilter { filtering: false });
}

#[test]
fn parent_and_advance_follow_the_cursor_item() {
    let mut p = pane(PaneKind::Find);
    let mut i = inputs(&[]);
    assert_eq!(
        fs_action_step(&mut p, &FsActionKind::Parent, &i),
        ActionStep::EnterDir { dir: "/".into(), remember: Some("/n".into()) }
    );
    i.nav_cwd = None;
    assert_eq!(fs_action_step(&mut p, &FsActionKind::Parent, &i), ActionStep::Nothing);
    i.current = Some("/w/d/f.zip".into());
    assert_eq!(
        fs_action_step(&mut p, &FsActionKind::Parent, &i),
        ActionStep::EnterDir { dir: "/w/d".into(), remember: Some("/w/d/f.zip".into()) }
    );
    assert_eq!(fs_action_step(&mut p, &FsActionKind::Advance, &i), ActionStep::Nothing);
    i.current_exists = true;
    i.current_is_file = true;
    assert_eq!(
        fs_action_step(&mut p, &FsActionKind::Advance, &i),
        ActionStep::AdvanceFile { path: "/w/d/f.zip".into(), bump: true, archive: false }
    );
    i.archive_supported = true;
    assert_eq!(
        fs_action_step(&mut p, &FsActionKind::Advance, &i),
        ActionStep::AdvanceFile { path: "/w/d/f.zip".into(), bump: true, archive: true }
    );
    i.current_is_dir = true;
    assert_eq!(
        fs_action_step(&mut p, &FsActionKind::Advance, &i),
        ActionStep::EnterDir { dir: "/w/d/f.zip".into(), remember: None }
    );
}

#[test]
fn add_stash_names_the_stash_and_reloads_its_pane() {
    let mut p = pane(PaneKind::Stash);
    p.stash_name = Some("work".into());
    let i = inputs(&["/w/a"]);
    assert_eq!(
        fs_action_step(&mut p, &FsActionKind::AddStash("work".into()), &i),
        ActionStep::StashItems { name: "work".into(), items: strs(&["/w/a"]), reload: true, toast: "Stashed (work): ".into() }
    );
    assert_eq!(
        fs_action_step(&mut p, &FsActionKind::AddStash("other".into()), &i),
        ActionStep::StashItems { name: "other".into(), items: strs(&["/w/a"]), reload: false, toast: "Stashed (other): ".into() }
    );
    assert_eq!(fs_action_step(&mut p, &FsActionKind::AddStash("work".into()), &inputs(&[])), ActionStep::Nothing);
}

#[test]
fn lessfilter_and_execute_actions_send_commands() {
    let mut p = pane(PaneKind::Nav);
    let mut i = inputs(&[]);
    let lf = FsActionKind::Lessfilter { command: "lf show".into(), paging: true, show_binds: true, edit: false };
    assert_eq!(fs_action_step(&mut p, &lf, &i), ActionStep::Nothing);
    i.current = Some("/w/f".into());
    assert_eq!(
        fs_action_step(&mut p, &lf, &i),
        ActionStep::ExecuteTemplate { template: "lf show".into(), process_parent: false, pager_missing: true }
    );
    i.pager = Some("'/p/pg'".into());
    assert_eq!(
        fs_action_step(&mut p, &lf, &i),
        ActionStep::ExecuteTemplate {
            template: "lf show | PG_LANG=ini '/p/pg' > /dev/tty".into(),
            process_parent: false,
            pager_missing: false
        }
    );
    i.current_is_file = true;
    let edit = FsActionKind::Lessfilter { command: "ed".into(), paging: false, show_binds: false, edit: true };
    assert_eq!(
        fs_action_step(&mut p, &edit, &i),
        ActionStep::ExecuteTemplate { template: "ed".into(), process_parent: true, pager_missing: false }
    );
    let mut apps = pane(PaneKind::Apps);
    assert_eq!(fs_action_step(&mut apps, &edit, &i), ActionStep::Nothing);
    assert_eq!(
        fs_action_step(&mut p, &FsActionKind::ExecSilent("x".into()), &i),
        ActionStep::Interrupt { channel: InterruptChannel::ExecuteSilent, mode: ExecutionMode::Silent, template: "x".into() }
    );
    assert_eq!(
        fs_action_step(&mut p, &FsActionKind::CopyCommandAsync("y".into()), &i),
        ActionStep::Interrupt { channel: InterruptChannel::ExecuteAsync, mode: ExecutionMode::Copy, template: "y".into() }
    );
    assert_eq!(fs_action_step(&mut p, &FsActionKind::Rename, &i), ActionStep::Unhandled);
}

#[test]
fn accepting_the_prompt_opens_or_prints_the_directory() {
    let mut p = pane(PaneKind::Nav);
    let mut i = inputs(&[]);
    assert_eq!(fs_action_step(&mut p, &FsActionKind::AcceptPrompt, &i), ActionStep::OpenDir { path: "/n".into(), quit: true });
    i.has_selections = true;
    assert_eq!(fs_action_step(&mut p, &FsActionKind::AcceptPrompt, &i), ActionStep::OpenDir { path: "/n".into(), quit: false });
    i.alt_accept = true;
    assert_eq!(fs_action_step(&mut p, &FsActionKind::AcceptPrompt, &i), ActionStep::PrintAndQuit("/n".into()));
    i.nav_cwd = None;
    assert_eq!(
        fs_action_step(&mut p, &FsActionKind::AcceptPrompt, &i),
        ActionStep::EnterDir { dir: "/w".into(), remember: None }
    );
    assert_eq!(fs_action_step(&mut p, &FsActionKind::CopyPath, &i), ActionStep::CopyPaths(vec![]));
}
