use fist::run::state::tasks::{waiting_on, JobTable, TaskId, TASKS};

#[test]
fn low_ids_keep_only_the_newest_child() {
    let mut jobs: JobTable<u32> = JobTable::new();
    assert!(TASKS::register_child(&mut jobs, TaskId::Populate, 1).is_empty());
    assert_eq!(TASKS::register_child(&mut jobs, TaskId::Populate, 2), vec![1]);
    assert_eq!(jobs.populate, vec![2]);
    assert!(TASKS::register_child(&mut jobs, TaskId::Batch, 7).is_empty());
    assert!(TASKS::register_child(&mut jobs, TaskId::Batch, 8).is_empty());
    assert_eq!(jobs.batch, vec![7, 8]);
    assert_eq!(TaskId::Lessfilter.code(), 3);
    assert_eq!(TaskId::Batch.code(), 32);
}

#[test]
fn killing_takes_children_in_id_order() {
    let mut jobs: JobTable<u32> = JobTable::new();
    TASKS::register_child(&mut jobs, TaskId::Batch, 30);
    TASKS::register_child(&mut jobs, TaskId::Lessfilter, 20);
    TASKS::register_child(&mut jobs, TaskId::Populate, 10);
    assert_eq!(TASKS::kill_child(&mut jobs, TaskId::Lessfilter), vec![20]);
    assert!(TASKS::kill_child(&mut jobs, TaskId::Lessfilter).is_empty());
    assert_eq!(TASKS::kill_children(&mut jobs, 0, 31), vec![10]);
    TASKS::register_child(&mut jobs, TaskId::Populate, 11);
    assert_eq!(TASKS::kill_children(&mut jobs, 0, u8::MAX), vec![11, 30]);
    assert!(jobs.batch.is_empty());
}

#[test]
fn wait_message_names_the_first_task() {
    assert_eq!(waiting_on(1, Some("db stash")), "Waiting on db stash.");
    assert_eq!(waiting_on(2, Some("db stash")), "Waiting on db stash and 1 other.");
    assert_eq!(waiting_on(3, Some("db stash")), "Waiting on db stash and 2 others.");
    assert_eq!(waiting_on(12, None), "Waiting on 12 task(s).");
    assert_eq!(waiting_on(0, None), "Waiting on 0 task(s).");
}

use fist::run::state::tasks::{shutdown_step, shutdown_text, ShutdownAction, ShutdownEvent};

#[test]
fn shutdown_waits_warns_and_announces() {
    let mut warned = false;
    assert_eq!(shutdown_step(&mut warned, ShutdownEvent::TaskDone { remaining: 2 }), ShutdownAction::Report { remaining: 2 });
    assert_eq!(shutdown_step(&mut warned, ShutdownEvent::WarnTimer { remaining: 0 }), ShutdownAction::Continue);
    assert!(!warned);
    assert_eq!(shutdown_step(&mut warned, ShutdownEvent::WarnTimer { remaining: 2 }), ShutdownAction::Warn { remaining: 2 });
    assert!(warned);
    assert_eq!(
        shutdown_step(&mut warned, ShutdownEvent::TaskDone { remaining: 0 }),
        ShutdownAction::Finish { announce: true }
    );
    let mut quiet = false;
    assert_eq!(shutdown_step(&mut quiet, ShutdownEvent::AllDone), ShutdownAction::Finish { announce: false });
    assert_eq!(
        shutdown_step(&mut quiet, ShutdownEvent::Timeout { remaining: 3 }),
        ShutdownAction::Abort { remaining: 3 }
    );
}

#[test]
fn shutdown_texts() {
    assert_eq!(shutdown_text(ShutdownAction::Finish { announce: true }, None).unwrap(), "All tasks finished");
    assert_eq!(shutdown_text(ShutdownAction::Finish { announce: false }, None), None);
    assert_eq!(shutdown_text(ShutdownAction::Report { remaining: 2 }, Some("db")).unwrap(), "Waiting on 2 task(s).");
    assert_eq!(
        shutdown_text(ShutdownAction::Warn { remaining: 3 }, Some("db stash")).unwrap(),
        "Waiting on db stash and 2 others. (Press Ctrl-C to exit)."
    );
    assert_eq!(
        shutdown_text(ShutdownAction::Abort { remaining: 4 }, None).unwrap(),
        "Shutdown timeout reached. Aborting 4 task(s)."
    );
    assert_eq!(shutdown_text(ShutdownAction::Continue, None), None);
}

#[test]
fn exited_children_are_dropped() {
    let mut jobs: JobTable<u32> = JobTable::new();
    TASKS::register_child(&mut jobs, TaskId::Batch, 1);
    TASKS::register_child(&mut jobs, TaskId::Batch, 2);
    TASKS::register_child(&mut jobs, TaskId::Batch, 3);
    TASKS::register_child(&mut jobs, TaskId::Populate, 9);
    jobs.retain_running(TaskId::Batch, &vec![true, false, true]);
    assert_eq!(jobs.batch, vec![1, 3]);
    assert_eq!(jobs.populate, vec![9]);
}

use fist::run::state::tasks::TaskNames;

#[test]
fn task_names_count_and_name_the_first() {
    let mut names = TaskNames::new();
    assert_eq!(names.first(), None);
    names.register("db stash".to_string());
    names.register("copy".to_string());
    names.register("copy".to_string());
    assert_eq!(names.count("copy"), 2);
    assert_eq!(names.first(), Some("copy".to_string()));
    names.unregister("copy");
    assert_eq!(names.count("copy"), 1);
    names.unregister("copy");
    assert_eq!(names.count("copy"), 0);
    assert_eq!(names.first(), Some("db stash".to_string()));
    names.unregister("missing");
    assert_eq!(names.count("db stash"), 1);
}
