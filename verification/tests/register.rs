use fist::run::register::{menu_lua_command, resolve_target, ExecutionMode};
use fist::run::state::temp::StoreState;
use fist::menu::{MenuAction, MenuActions, MenuStrategy};

fn action(command: &str) -> MenuAction {
    MenuAction {
        condition: Vec::new(),
        command: command.to_string(),
        alias: None,
        strategy: MenuStrategy::Execute,
        requires_dest: false,
        close: None,
    }
}

#[test]
fn execute_and_silent_discriminants_round_trip() {
    for m in [
        ExecutionMode::Normal,
        ExecutionMode::Paged,
        ExecutionMode::Tty,
        ExecutionMode::MenuAction,
        ExecutionMode::LuaCommand,
        ExecutionMode::LuaCommandPaged,
    ] {
        assert_eq!(ExecutionMode::from_discriminant_for_execute(m.discriminant()), Some(m));
    }
    for m in [
        ExecutionMode::Copy,
        ExecutionMode::Detached,
        ExecutionMode::Silent,
        ExecutionMode::MenuAction,
        ExecutionMode::LuaCommand,
    ] {
        assert_eq!(ExecutionMode::from_discriminant_for_silent(m.discriminant()), Some(m));
    }
    assert_eq!(ExecutionMode::from_discriminant_for_silent(3), None);
    assert_eq!(ExecutionMode::from_discriminant_for_execute(200), None);
    assert_eq!(ExecutionMode::from_discriminant_for_silent(200), None);
}

#[test]
fn lua_command_of_payloads() {
    let mut actions = MenuActions::new();
    actions.insert("zip".to_string(), action("print('zip')"));
    assert_eq!(
        menu_lua_command(ExecutionMode::MenuAction, "zip", Some(&actions)),
        Some("print('zip')".to_string())
    );
    assert_eq!(menu_lua_command(ExecutionMode::MenuAction, "rar", Some(&actions)), None);
    assert_eq!(menu_lua_command(ExecutionMode::LuaCommandPaged, "zip", None), None);
    assert_eq!(
        menu_lua_command(ExecutionMode::LuaCommand, "print(1)", None),
        Some("print(1)".to_string())
    );
    assert_eq!(menu_lua_command(ExecutionMode::Normal, "zip", Some(&actions)), None);
}

#[test]
fn target_resolution() {
    let mut store = StoreState::new();
    store.process_parent = true;
    assert_eq!(
        resolve_target(true, Some("/cwd".to_string()), Some("/cwd/f".to_string()), &mut store, false),
        Some("/cwd".to_string())
    );
    assert!(store.process_parent);
    assert_eq!(resolve_target(false, Some("/c".to_string()), None, &mut store, false), None);
    assert!(store.process_parent);
    assert_eq!(resolve_target(false, None, Some("/a/b".to_string()), &mut store, true), Some("/a".to_string()));
    assert!(store.process_parent);
    assert_eq!(resolve_target(false, None, Some("/".to_string()), &mut store, false), None);
    assert!(!store.process_parent);
    assert_eq!(resolve_target(false, None, Some("/a/b".to_string()), &mut store, false), Some("/a/b".to_string()));
    assert_eq!(resolve_target(true, None, Some("/x".to_string()), &mut store, false), None);
}

use fist::run::register::{spawn_plan, wait_plan, SpawnPlan, StreamTarget, WaitPlan};

#[test]
fn spawn_plans_follow_the_mode() {
    assert_eq!(
        spawn_plan(ExecutionMode::Normal),
        Some(SpawnPlan { stdin: StreamTarget::TtyOrInherit, stdout: StreamTarget::Inherit, stderr: StreamTarget::Inherit, detach: false })
    );
    assert_eq!(
        spawn_plan(ExecutionMode::Paged),
        Some(SpawnPlan { stdin: StreamTarget::Null, stdout: StreamTarget::Piped, stderr: StreamTarget::Inherit, detach: false })
    );
    assert_eq!(spawn_plan(ExecutionMode::Tty), Some(SpawnPlan { stdin: StreamTarget::Tty, stdout: StreamTarget::Tty, stderr: StreamTarget::Tty, detach: false }));
    assert_eq!(
        spawn_plan(ExecutionMode::Detached),
        Some(SpawnPlan { stdin: StreamTarget::Null, stdout: StreamTarget::Null, stderr: StreamTarget::Null, detach: true })
    );
    assert_eq!(
        spawn_plan(ExecutionMode::Silent),
        Some(SpawnPlan { stdin: StreamTarget::Null, stdout: StreamTarget::Null, stderr: StreamTarget::Null, detach: false })
    );
    assert_eq!(
        spawn_plan(ExecutionMode::Copy),
        Some(SpawnPlan { stdin: StreamTarget::Null, stdout: StreamTarget::Piped, stderr: StreamTarget::Null, detach: false })
    );
    assert_eq!(spawn_plan(ExecutionMode::MenuAction), None);
    assert_eq!(spawn_plan(ExecutionMode::LuaCommand), None);
    assert_eq!(spawn_plan(ExecutionMode::LuaCommandPaged), None);
}

#[test]
fn wait_plans_follow_the_mode() {
    assert_eq!(wait_plan(ExecutionMode::Paged), WaitPlan::Page);
    assert_eq!(wait_plan(ExecutionMode::Normal), WaitPlan::Wait);
    assert_eq!(wait_plan(ExecutionMode::Tty), WaitPlan::Wait);
    assert_eq!(wait_plan(ExecutionMode::Detached), WaitPlan::Settled(false));
    assert_eq!(wait_plan(ExecutionMode::Silent), WaitPlan::Settled(false));
    assert_eq!(wait_plan(ExecutionMode::Copy), WaitPlan::Settled(true));
    assert_eq!(wait_plan(ExecutionMode::LuaCommand), WaitPlan::Settled(true));
}

use fist::run::register::{async_plan, runs_continuation, AsyncPlan};

#[test]
fn async_payloads_pick_copy_or_a_continuation() {
    assert_eq!(async_plan(0), AsyncPlan::Copy);
    assert_eq!(async_plan(1), AsyncPlan::Copy);
    assert_eq!(async_plan(2), AsyncPlan::Continue { id: 1, require_success: false });
    assert_eq!(async_plan(7), AsyncPlan::Continue { id: 3, require_success: true });
    assert!(runs_continuation(false, false));
    assert!(runs_continuation(true, true));
    assert!(!runs_continuation(true, false));
}
