use fist::menu::{MenuAction, MenuActions, MenuStrategy};
use fist::run::queue::selector::{is_valid_queue_kind, validate_queue_kind, QueueSelector};
use fist::run::queue::state::{show_queue_variant, QueueItem, QueueState, QueueView, QUEUE};
use fist::run::queue::status::{QueueItemState, QueueItems};

#[test]
fn selector_parsing() {
    assert_eq!("".parse::<QueueSelector>().unwrap(), QueueSelector::Kind(String::new()));
    assert_eq!("all".parse::<QueueSelector>().unwrap(), QueueSelector::All);
    assert_eq!("ALL".parse::<QueueSelector>().unwrap(), QueueSelector::All);
    assert_eq!("builtins".parse::<QueueSelector>().unwrap(), QueueSelector::Builtins);
    assert_eq!("FIRST".parse::<QueueSelector>().unwrap(), QueueSelector::First);
    assert_eq!("Last".parse::<QueueSelector>().unwrap(), QueueSelector::Last);
    assert_eq!("copy".parse::<QueueSelector>().unwrap(), QueueSelector::Kind("copy".into()));
    assert_eq!(
        "My-Action".parse::<QueueSelector>().unwrap(),
        QueueSelector::Kind("My-Action".into())
    );
}

#[test]
fn selector_display() {
    assert_eq!(QueueSelector::All.to_string(), "All");
    assert_eq!(QueueSelector::Builtins.to_string(), "Builtins");
    assert_eq!(QueueSelector::First.to_string(), "First");
    assert_eq!(QueueSelector::Kind("k".into()).to_string(), "k");
}

#[test]
fn selector_as_kind() {
    assert_eq!(QueueSelector::All.as_kind(), None);
    assert_eq!(QueueSelector::Builtins.as_kind(), None);
    assert_eq!(QueueSelector::First.as_kind(), None);
    assert_eq!(QueueSelector::Last.as_kind(), None);
    assert_eq!(QueueSelector::Kind("copy".into()).as_kind(), Some("copy"));
    assert_eq!(QueueSelector::Kind("zip".into()).as_kind(), Some("zip"));
}

#[test]
fn test_is_valid_queue_kind() {
    assert!(!is_valid_queue_kind(""));
    assert!(!is_valid_queue_kind("all"));
    assert!(!is_valid_queue_kind("ALL"));
    assert!(!is_valid_queue_kind("builtins"));
    assert!(!is_valid_queue_kind("first"));
    assert!(!is_valid_queue_kind("last"));

    assert!(is_valid_queue_kind("copy"));
    assert!(is_valid_queue_kind("move"));
    assert!(is_valid_queue_kind("symlink"));
    assert!(is_valid_queue_kind("none"));
    assert!(is_valid_queue_kind("zip"));
    assert!(is_valid_queue_kind("my-action"));
}

fn queue_action(command: &str) -> MenuAction {
    MenuAction {
        condition: Vec::new(),
        command: command.to_string(),
        alias: None,
        strategy: MenuStrategy::Queue,
        requires_dest: false,
        close: None,
    }
}

#[test]
fn test_validate_queue_kind() {
    assert!(validate_queue_kind("copy", None).is_ok());
    assert!(validate_queue_kind("move", None).is_ok());
    assert!(validate_queue_kind("symlink", None).is_ok());
    assert!(validate_queue_kind("none", None).is_ok());

    assert_eq!(validate_queue_kind("all", None).unwrap_err(), "Unknown queue kind: all");
    assert_eq!(validate_queue_kind("ALL", None).unwrap_err(), "Unknown queue kind: ALL");
    assert_eq!(
        validate_queue_kind("builtins", None).unwrap_err(),
        "Unknown queue kind: builtins"
    );
    assert_eq!(validate_queue_kind("first", None).unwrap_err(), "Unknown queue kind: first");
    assert_eq!(validate_queue_kind("last", None).unwrap_err(), "Unknown queue kind: last");
    assert_eq!(validate_queue_kind("", None).unwrap_err(), "Unknown queue kind: ");

    assert_eq!(validate_queue_kind("unknown", None).unwrap_err(), "Unknown queue kind: unknown");

    let mut actions = MenuActions::new();
    actions.insert("zip".to_string(), queue_action("print('zip')"));

    assert!(validate_queue_kind("zip", Some(&actions)).is_ok());
    assert_eq!(
        validate_queue_kind("rar", Some(&actions)).unwrap_err(),
        "Unknown queue kind: rar"
    );
}

#[test]
fn bitflag_round_trip() {
    for state in [
        QueueItemState::Pending,
        QueueItemState::PendingErr,
        QueueItemState::Started,
        QueueItemState::CompleteOk,
        QueueItemState::CompleteErr,
    ] {
        assert_eq!(state.to_bitflag().bits(), 1u8 << state.code());
    }

    let flags = [
        QueueItems::Pending,
        QueueItems::PendingErr,
        QueueItems::Started,
        QueueItems::CompleteOk,
        QueueItems::CompleteErr,
    ];
    for (i, flag) in flags.iter().enumerate() {
        assert_eq!(flag.bits(), 1u8 << i);
    }
}

#[test]
fn clear_selected_removes_pending_err_rows() {
    let mut state = QueueState::new();
    state.shared.push(QueueItem::new("copy".into(), "/tmp/clr_src.txt".into(), 1));
    let mut rejected = QueueItem::new("move".into(), "/tmp/clr_src.txt".into(), 1);
    rejected.status.state = QueueItemState::PendingErr;
    state.shared.push(rejected);

    assert!(QUEUE::clear_selected(&mut state, &QueueSelector::All));
    assert!(!state.shared.iter().any(|i| i.src.first().is_some_and(|p| p == "/tmp/clr_src.txt")));
}

#[test]
fn clear_selected_keeps_started_rows() {
    let mut state = QueueState::new();
    let mut running = QueueItem::new("copy".into(), "/a".into(), 1);
    running.status.state = QueueItemState::Started;
    state.shared.push(running);
    state.shared.push(QueueItem::new("copy".into(), "/b".into(), 1));

    assert!(QUEUE::clear_selected(&mut state, &QueueSelector::All));
    assert_eq!(state.shared.len(), 1);
    assert_eq!(state.shared[0].src, vec!["/a".to_string()]);
    assert!(!QUEUE::clear_selected(&mut state, &QueueSelector::All));
}

#[test]
fn selector_words_round_trip_through_display() {
    for s in [QueueSelector::All, QueueSelector::Builtins, QueueSelector::First, QueueSelector::Last] {
        assert_eq!(s.to_string().parse::<QueueSelector>().unwrap(), s);
    }
}

fn two_kind_queue() -> QueueState {
    let mut st = QueueState::new();
    QUEUE::enqueue(&mut st, "copy".into(), vec!["/a".into(), "/b".into()], vec![1, 2]);
    QUEUE::enqueue(&mut st, "cut".into(), vec!["/c".into()], vec![3]);
    st
}

#[test]
fn visible_rows_follow_the_kind_filter() {
    let st = two_kind_queue();
    assert_eq!(st.visible_indices(None), vec![0, 1, 2]);
    assert_eq!(st.visible_indices(Some("cut")), vec![2]);
    assert_eq!(st.visible_position_of(Some("cut"), 2), Some(0));
    assert_eq!(st.visible_position_of(Some("copy"), 1), Some(1));
    assert_eq!(st.visible_position_of(Some("copy"), 2), None);
}

#[test]
fn kind_filter_cycles_with_wrapping() {
    let st = two_kind_queue();
    assert_eq!(st.next_kind(None, 1), Some("copy".to_string()));
    assert_eq!(st.next_kind(Some("copy"), 1), Some("cut".to_string()));
    assert_eq!(st.next_kind(Some("cut"), 1), None);
    assert_eq!(st.next_kind(None, -1), Some("cut".to_string()));
    assert_eq!(QueueState::new().next_kind(None, 1), None);
}

#[test]
fn show_queue_picks_the_app_view_in_app_panes() {
    assert_eq!(show_queue_variant(true), 1);
    assert_eq!(show_queue_variant(false), 0);
}

#[test]
fn overlay_views_edit_their_own_list() {
    let mut st = two_kind_queue();
    let mut apps: Vec<String> = vec!["/x".into(), "/y".into()];
    assert_eq!(QUEUE::view_len(&st, QueueView::Shared, &apps), 3);
    assert_eq!(QUEUE::view_len(&st, QueueView::Apps, &apps), 2);
    assert_eq!(QUEUE::view_get(&st, QueueView::Apps, 1, &apps), Some((vec!["/y".to_string()], String::new())));
    assert_eq!(QUEUE::view_get(&st, QueueView::Apps, 2, &apps), None);
    let (src, _) = QUEUE::view_get(&st, QueueView::Shared, 2, &apps).unwrap();
    assert_eq!(src, vec!["/c".to_string()]);
    QUEUE::view_swap(&mut st, QueueView::Shared, 0, 2, &mut apps);
    assert_eq!(st.shared[0].kind, "cut");
    assert_eq!(st.shared[2].src, vec!["/a".to_string()]);
    QUEUE::view_swap(&mut st, QueueView::Apps, 0, 1, &mut apps);
    assert_eq!(apps, vec!["/y".to_string(), "/x".to_string()]);
    QUEUE::view_remove(&mut st, QueueView::Apps, 5, &mut apps);
    assert_eq!(apps.len(), 2);
    QUEUE::view_remove(&mut st, QueueView::Shared, 0, &mut apps);
    assert_eq!(st.shared.len(), 2);
    assert_eq!(st.shared[0].kind, "copy");
}
