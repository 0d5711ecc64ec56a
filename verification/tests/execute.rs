use fist::menu::{MenuAction, MenuActions, MenuStrategy};
use fist::run::queue::execute::{perform_step, QueueStep};
use fist::run::queue::state::QueueItem;
use fist::run::stash::execute::{progress_fraction, stash_formatter, transfer_step, ExecuteStrategy, TransferStep};

#[test]
fn stash_command_template() {
    assert_eq!(stash_formatter("/a", "/b", "cp {1} {2}"), "cp /a /b");
    assert_eq!(stash_formatter("/a", "/b", "{1}{1}-{2}"), "/a/a-/b");
    assert_eq!(stash_formatter("/x{2}", "/y", "mv {1}"), "mv /x/y");
}

#[test]
fn stash_transfer_strategies() {
    let cmd = ExecuteStrategy::Command("zip {2} {1}".to_string());
    assert_eq!(transfer_step("copy", &cmd, "/s", "/d"), TransferStep::Builtin { is_move: false });
    assert_eq!(transfer_step("cut", &cmd, "/s", "/d"), TransferStep::Builtin { is_move: true });
    assert_eq!(transfer_step("symlink", &ExecuteStrategy::Symlink, "/s", "/d"), TransferStep::Builtin { is_move: false });
    assert_eq!(transfer_step("zip", &cmd, "/s", "/d"), TransferStep::Run("zip /d /s".to_string()));
    assert_eq!(transfer_step("ln", &ExecuteStrategy::Symlink, "/s", "/d"), TransferStep::Symlink);
    assert_eq!(transfer_step("nop", &ExecuteStrategy::NoOp, "/s", "/d"), TransferStep::Nothing);
    assert_eq!(transfer_step("mv", &ExecuteStrategy::Cut, "/s", "/d"), TransferStep::Builtin { is_move: true });
}

#[test]
fn progress_fractions() {
    assert_eq!(progress_fraction(0, 0), 0);
    assert_eq!(progress_fraction(50, 100), 127);
    assert_eq!(progress_fraction(100, 100), 255);
    assert_eq!(progress_fraction(1, 3), 85);
}

fn row(kind: &str, src: &[&str], dst: &str) -> QueueItem {
    let mut it = QueueItem::new(kind.to_string(), src.first().unwrap_or(&"").to_string(), 0);
    if src.is_empty() {
        it.src.clear();
    }
    it.dst = dst.to_string();
    it
}

#[test]
fn queue_rows_by_kind() {
    let mut actions = MenuActions::new();
    actions.insert(
        "zip".to_string(),
        MenuAction {
            condition: vec![],
            command: "print('zip')".to_string(),
            alias: None,
            strategy: MenuStrategy::Queue,
            requires_dest: false,
            close: None,
        },
    );
    assert_eq!(perform_step(&row("extract", &["/a"], "/b"), None), QueueStep::Reject);
    assert_eq!(perform_step(&row("symlink", &["/a"], ""), None), QueueStep::Unresolved);
    assert_eq!(perform_step(&row("symlink", &["/a"], "/a"), None), QueueStep::Identity);
    assert_eq!(perform_step(&row("symlink", &["/a"], "/b"), None), QueueStep::Symlink);
    assert_eq!(perform_step(&row("none", &["/a"], ""), None), QueueStep::Noop);
    assert_eq!(perform_step(&row("copy", &["/a"], "/b"), None), QueueStep::Transfer { is_move: false });
    assert_eq!(perform_step(&row("move", &["/a"], "/b"), None), QueueStep::Transfer { is_move: true });
    assert_eq!(perform_step(&row("zip", &["/a"], ""), Some(&actions)), QueueStep::Script("print('zip')".to_string()));
    assert_eq!(perform_step(&row("rar", &["/a"], ""), Some(&actions)), QueueStep::NoAction);
    assert_eq!(perform_step(&row("zip", &["/a"], ""), None), QueueStep::NoAction);
}

use fist::run::handlers::{paste_handler, PasteOutcome};
use fist::run::queue::state::QueueState;
use fist::run::state::toast::{ToastContent, ToastState};

#[test]
fn paste_runs_builtins_or_inserts_text() {
    let mut toasts = ToastState::new();
    let empty = QueueState::new();
    match paste_handler("txt".to_string(), None, false, false, false, &empty, &mut toasts, None) {
        PasteOutcome::Insert(t) => assert_eq!(t, "txt"),
        _ => panic!("expected an insert"),
    }
    match paste_handler("txt".to_string(), Some("/nav".into()), false, true, false, &empty, &mut toasts, None) {
        PasteOutcome::Insert(t) => assert_eq!(t, "txt"),
        _ => panic!("expected an insert"),
    }
    assert!(matches!(
        paste_handler("txt".to_string(), Some("/nav".into()), false, false, false, &empty, &mut toasts, None),
        PasteOutcome::Nothing
    ));
    assert_eq!(toasts.lines.len(), 1);
    match &toasts.lines[0].content {
        ToastContent::Line(spans) => assert_eq!(spans[0].content, "No items queued."),
        _ => panic!("expected a line"),
    }

    let mut queue = QueueState::new();
    queue.shared.push(QueueItem::new("copy".into(), "/a".into(), 1));
    queue.shared.push(QueueItem::new("zip".into(), "/b".into(), 1));
    queue.shared.push(QueueItem::new("move".into(), "/c".into(), 1));
    match paste_handler("txt".to_string(), Some("/nav".into()), false, false, false, &queue, &mut toasts, None) {
        PasteOutcome::Dispatch(rows, base) => {
            assert_eq!(rows, vec![0, 2]);
            assert_eq!(base, "/nav");
        }
        _ => panic!("expected a dispatch"),
    }
}

use fist::run::queue::execute::{finish_from, finish_row, watch_outcome, EngineState, FinishEffects, WatchOutcome};
use fist::run::queue::status::{AtomicQueueItemState, QueueItemState};

#[test]
fn engine_states_read_as_outcomes() {
    assert_eq!(watch_outcome(EngineState::Pending, 0), WatchOutcome::Running);
    assert_eq!(watch_outcome(EngineState::Started, 3), WatchOutcome::Running);
    assert_eq!(watch_outcome(EngineState::CompleteOk, 0), WatchOutcome::Succeeded);
    assert_eq!(watch_outcome(EngineState::Canceled, 2), WatchOutcome::Failed("canceled".into()));
    assert_eq!(watch_outcome(EngineState::CompleteErr, 2), WatchOutcome::Failed("2 file(s) failed".into()));
}

#[test]
fn a_row_is_finished_once() {
    let status = AtomicQueueItemState::new();
    assert_eq!(finish_row(&status, "copy", QueueItemState::CompleteOk), None);
    status.store(QueueItemState::Started);
    assert_eq!(
        finish_row(&status, "extract", QueueItemState::CompleteErr),
        Some(FinishEffects { mark_extraction_failed: true, retire_extracting_toast: true })
    );
    assert_eq!(status.load(), QueueItemState::CompleteErr);
    assert_eq!(finish_row(&status, "extract", QueueItemState::CompleteErr), None);
    let other = AtomicQueueItemState::new();
    other.store(QueueItemState::Started);
    assert_eq!(
        finish_row(&other, "copy", QueueItemState::CompleteOk),
        Some(FinishEffects { mark_extraction_failed: false, retire_extracting_toast: false })
    );
}

#[test]
fn finishing_follows_the_exchange_outcome() {
    assert_eq!(finish_from(Err(QueueItemState::CompleteOk), "extract", QueueItemState::CompleteErr), None);
    assert_eq!(
        finish_from(Ok(QueueItemState::Started), "extract", QueueItemState::CompleteErr),
        Some(FinishEffects { mark_extraction_failed: true, retire_extracting_toast: true })
    );
    assert_eq!(
        finish_from(Ok(QueueItemState::Started), "extract", QueueItemState::CompleteOk),
        Some(FinishEffects { mark_extraction_failed: false, retire_extracting_toast: true })
    );
    assert_eq!(
        finish_from(Ok(QueueItemState::Started), "trash", QueueItemState::CompleteErr),
        Some(FinishEffects { mark_extraction_failed: false, retire_extracting_toast: false })
    );
}
