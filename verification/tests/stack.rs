use fist::run::state::stack::{NavStack, PaneKind, StackPane};

fn pane(kind: PaneKind, cwd: &str) -> StackPane<u8> {
    StackPane { kind, cwd: cwd.to_string(), input: (String::new(), 0), data: 0 }
}

#[test]
fn test_cwd() {
    let mut s = NavStack::init(pane(PaneKind::Nav, "/tmp/test_dir1"));
    assert_eq!(s.cwd("/start"), Some("/tmp/test_dir1".to_string()));
    s.push(pane(PaneKind::Nav, "/tmp/test_dir2"));
    assert_eq!(s.cwd("/start"), Some("/tmp/test_dir2".to_string()));
}

#[test]
fn history_panes_fall_back_to_the_nearest_directory() {
    let mut s = NavStack::init(pane(PaneKind::Files, ""));
    assert_eq!(s.cwd("/start"), Some("/start".to_string()));
    s.push(pane(PaneKind::Nav, "/a"));
    s.push(pane(PaneKind::Folders, ""));
    assert_eq!(s.cwd("/start"), Some("/a".to_string()));
    s.push(pane(PaneKind::Apps, ""));
    assert_eq!(s.cwd("/start"), None);
    assert!(s.in_app());
}

#[test]
fn stepping_back_and_forth() {
    let mut s = NavStack::init(pane(PaneKind::Nav, "/a"));
    assert!(!s.push(pane(PaneKind::Search, "/b")));
    assert!(s.push(pane(PaneKind::Search, "/c")));
    assert!(s.is_last());
    assert!(s.stack_prev());
    assert!(s.stack_prev());
    assert!(!s.stack_prev());
    assert_eq!(s.nav_cwd(), Some("/a".to_string()));
    assert!(s.stack_next());
    assert!(s.in_rg());
    assert_eq!(s.nav_cwd(), None);
    s.push(pane(PaneKind::Custom, "/d"));
    assert_eq!(s.len(), 3);
    assert!(!s.stack_next());
}

#[test]
fn swapping_history_panes() {
    let mut s = NavStack::init(pane(PaneKind::Nav, "/a"));
    assert!(s.swap_history(1));
    assert_eq!(s.current().kind, PaneKind::Folders);
    assert!(!s.swap_history(2));
    assert_eq!(s.current().kind, PaneKind::Files);
    assert_eq!(s.len(), 3);
    assert!(!s.swap_history(3));
    assert_eq!(s.current().kind, PaneKind::Folders);
    assert!(s.reloads_by_sorting());
}

#[test]
fn saved_index_is_taken_once() {
    let mut s = NavStack::init(pane(PaneKind::Nav, "/a"));
    s.save_input("query".to_string(), 7);
    assert_eq!(s.current().input.0, "query");
    assert_eq!(s.take_maybe_index(), Some(7));
    assert_eq!(s.take_maybe_index(), None);
    assert!(!s.set_or_push(pane(PaneKind::Nav, "/b")));
    assert_eq!(s.len(), 1);
    assert!(s.set_or_push(pane(PaneKind::Apps, "")));
    s.save_input("x".to_string(), 3);
    assert_eq!(s.current().input.1, 0);
    assert_eq!(s.take_maybe_index(), None);
}
