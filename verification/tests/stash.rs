use fist::run::stash::mem::{mem_add_at, mem_get, mem_has, mem_remove, mem_set_tail, MemStashes};
use fist::run::stash::scratch_list::ScratchList;
use fist::run::stash::status::{AtomicStashItemState, StashItemState, StashItemStatus};
use fist::run::stash::{StashAddRule, StashItem, StashMode, StashRun, StashState, STASH};

fn mode(scratch: bool, unique: StashAddRule) -> StashMode {
    StashMode { scratch, target: false, unique, batch: false }
}

fn initialised(modes: Vec<(String, StashMode)>) -> StashState {
    let mut state = StashState::new();
    STASH::init(&mut state, modes);
    state
}

fn srcs(state: &StashState) -> Vec<String> {
    state.shared.iter().map(|i| i.src.clone()).collect()
}

#[test]
fn init_puts_app_and_revert_first() {
    let state = initialised(vec![
        ("zip".to_string(), mode(true, StashAddRule::Limit(2))),
        ("app".to_string(), mode(true, StashAddRule::True)),
        ("keep".to_string(), mode(false, StashAddRule::False)),
        ("set".to_string(), mode(true, StashAddRule::True)),
    ]);
    let names: Vec<&str> = state.scratch.iter().map(|(n, _)| n.as_str()).collect();
    assert_eq!(names, vec!["app", "revert", "zip", "set"]);
    assert_eq!(STASH::current_scratch(&state), "app");
    assert_eq!(STASH::scratch_title(&state), "App (To open)");
}

#[test]
fn modes_and_builtin_kinds() {
    let state = initialised(vec![
        ("zip".to_string(), StashMode { scratch: false, target: true, unique: StashAddRule::True, batch: true }),
        ("copy".to_string(), StashMode { scratch: false, target: true, unique: StashAddRule::False, batch: false }),
    ]);
    assert!(STASH::is_scratch(&state, "app"));
    assert!(STASH::is_scratch(&state, "revert"));
    let mut unconfigured = initialised(vec![]);
    STASH::stash(&mut unconfigured, "app", "/p".to_string(), 0);
    assert_eq!(unconfigured.shared.len(), 1);
    assert!(!STASH::is_scratch(&state, "zip"));
    assert!(STASH::has_target(&state, "zip"));
    assert!(!STASH::has_target(&state, "copy"));
    assert!(!STASH::has_target(&state, "unknown"));
    assert!(STASH::is_unique(&state, "zip"));
    assert!(!STASH::is_unique(&state, "copy"));
    assert_eq!(STASH::get_mode(&state, "nothing"), StashMode::default());
}

#[test]
fn scratch_selection_and_cycling() {
    let mut state = initialised(vec![("zip".to_string(), mode(true, StashAddRule::False))]);
    assert!(STASH::set_scratch(&mut state, "zip"));
    assert_eq!(STASH::current_scratch(&state), "zip");
    assert_eq!(STASH::scratch_title(&state), "zip");
    assert!(!STASH::set_scratch(&mut state, "nope"));
    assert_eq!(state.current_scratch, 2);
    STASH::cycle_scratch(&mut state, true);
    assert_eq!(state.current_scratch, 0);
    STASH::cycle_scratch(&mut state, false);
    assert_eq!(state.current_scratch, 2);
    STASH::cycle_scratch(&mut state, false);
    assert_eq!(state.current_scratch, 1);
    STASH::cycle_scratch(&mut state, true);
    assert_eq!(state.current_scratch, 2);
}

#[test]
fn unique_kind_adds_a_path_once() {
    let mut state = initialised(vec![("u".to_string(), mode(false, StashAddRule::True))]);
    STASH::stash(&mut state, "u", "/a".to_string(), 1);
    STASH::stash(&mut state, "u", "/a".to_string(), 2);
    STASH::stash(&mut state, "other", "/a".to_string(), 3);
    STASH::stash(&mut state, "other", "/a".to_string(), 4);
    assert_eq!(srcs(&state), vec!["/a", "/a", "/a"]);
    assert_eq!(state.shared[0].status.size, 1);
}

#[test]
fn limited_kind_keeps_at_most_n_rows() {
    let mut state = initialised(vec![("lim".to_string(), mode(false, StashAddRule::Limit(2)))]);
    let paths: Vec<String> = vec!["/a".into(), "/b".into(), "/c".into()];
    STASH::extend(&mut state, "lim", &paths, &vec![1, 2, 3]);
    assert_eq!(srcs(&state), vec!["/a", "/c"]);
    STASH::stash(&mut state, "lim", "/a".to_string(), 9);
    assert_eq!(srcs(&state), vec!["/c", "/a"]);
    assert_eq!(state.shared[1].status.size, 9);
}

#[test]
fn scratch_kinds_fill_their_lists() {
    let mut state = initialised(vec![
        ("cap".to_string(), mode(true, StashAddRule::Limit(2))),
        ("set".to_string(), mode(true, StashAddRule::True)),
    ]);
    let paths: Vec<String> = vec!["/a".into(), "/b".into(), "/c".into(), "/b".into()];
    let sizes = vec![0, 0, 0, 0];
    STASH::extend(&mut state, "cap", &paths, &sizes);
    STASH::extend(&mut state, "set", &paths, &sizes);
    STASH::extend(&mut state, "new", &paths, &sizes);
    assert!(state.shared.len() == 4);
    let cap = &state.scratch[2].1;
    assert_eq!(cap.as_slice(), vec![("/a".to_string(), String::new()), ("/b".to_string(), String::new())]);
    let set = &state.scratch[3].1;
    assert_eq!(set.len(), 3);
    assert_eq!(set.position("/c"), Some(2));
}

#[test]
fn scratch_get_update_swap_remove() {
    let mut state = initialised(vec![("app".to_string(), mode(true, StashAddRule::True))]);
    STASH::extend(&mut state, "app", &vec!["/x".to_string(), "/y".to_string()], &vec![0, 0]);
    assert_eq!(STASH::get(&state, true, 1), Some(("/y".to_string(), String::new())));
    assert_eq!(STASH::get(&state, true, 2), None);
    STASH::update(&mut state, true, 0, Some("/z".to_string()), Some("dst".to_string()));
    assert_eq!(STASH::get(&state, true, 0), Some(("/z".to_string(), "dst".to_string())));
    STASH::swap(&mut state, true, 0, 1);
    assert_eq!(STASH::stashed_apps(&state), vec!["/y".to_string(), "/z".to_string()]);
    STASH::remove(&mut state, true, 0);
    STASH::remove(&mut state, true, 5);
    assert_eq!(STASH::stashed_apps(&state), vec!["/z".to_string()]);
}

#[test]
fn shared_get_update_swap_remove() {
    let mut state = initialised(vec![]);
    STASH::extend(&mut state, "k", &vec!["/x".to_string(), "/y".to_string()], &vec![0, 0]);
    STASH::update(&mut state, false, 1, None, Some("out".to_string()));
    assert_eq!(STASH::get(&state, false, 1), Some(("/y".to_string(), "out".to_string())));
    STASH::swap(&mut state, false, 0, 1);
    assert_eq!(srcs(&state), vec!["/y", "/x"]);
    STASH::remove(&mut state, false, 0);
    assert_eq!(srcs(&state), vec!["/x"]);
}

#[test]
fn clearing_by_kind_spares_running_rows() {
    let mut state = initialised(vec![("s".to_string(), mode(true, StashAddRule::False))]);
    STASH::extend(&mut state, "k", &vec!["/a".to_string(), "/b".to_string()], &vec![0, 0]);
    STASH::stash(&mut state, "j", "/c".to_string(), 0);
    state.shared[0].status.state = StashItemState::Started;
    STASH::clear(&mut state, Some("k"));
    assert_eq!(srcs(&state), vec!["/a", "/c"]);

    STASH::stash(&mut state, "s", "/d".to_string(), 0);
    STASH::clear(&mut state, Some("s"));
    assert_eq!(state.scratch[2].1.len(), 0);
    assert_eq!(srcs(&state), vec!["/a", "/c"]);

    state.shared[1].status.state = StashItemState::CompleteOk;
    STASH::clear_completed_shared(&mut state);
    assert_eq!(srcs(&state), vec!["/a"]);
    STASH::clear_completed_scratch(&mut state);
    STASH::stash(&mut state, "j", "/e".to_string(), 0);
    STASH::clear(&mut state, None);
    assert_eq!(srcs(&state), vec!["/a"]);
    state.shared[0].status.state = StashItemState::CompleteOk;
    STASH::clear(&mut state, None);
    assert!(state.shared.is_empty());
}

#[test]
fn validity_marks_missing_pending_sources() {
    let mut state = initialised(vec![]);
    STASH::extend(&mut state, "k", &vec!["/gone".to_string(), "/here".to_string()], &vec![0, 0]);
    STASH::check_validity(&mut state, &vec!["/gone".to_string()]);
    assert_eq!(state.shared[0].status.state, StashItemState::PendingErr);
    assert_eq!(state.shared[1].status.state, StashItemState::Pending);
}

#[test]
fn execute_all_plans() {
    let mut state = initialised(vec![("app".to_string(), mode(true, StashAddRule::True))]);
    STASH::extend(&mut state, "k", &vec!["/a".to_string(), "/b".to_string(), "/c".to_string()], &vec![0, 0, 0]);
    state.shared[1].status.state = StashItemState::CompleteOk;
    match STASH::execute_all(&state, false, &vec![0, 1, 2, 7], Some("/nav".to_string())) {
        StashRun::Shared(base, rows) => {
            assert_eq!(base, "/nav");
            assert_eq!(rows, vec![0, 2]);
        }
        _ => panic!("expected shared rows"),
    }
    assert!(matches!(STASH::execute_all(&state, false, &vec![0], None), StashRun::NotInNav));
    STASH::stash(&mut state, "app", "/p".to_string(), 0);
    match STASH::execute_all(&state, true, &vec![0, 3], None) {
        StashRun::Scratch(v) => assert_eq!(v, vec![0]),
        _ => panic!("expected scratch positions"),
    }
}

#[test]
fn status_and_atomic_state() {
    let s = StashItemStatus::new(42);
    assert_eq!(s.state, StashItemState::Pending);
    assert_eq!(s.size, 42);
    let cell = AtomicStashItemState::new();
    assert!(cell.is_pending());
    assert_eq!(cell.compare_exchange(StashItemState::Pending, StashItemState::Started), Ok(StashItemState::Pending));
    assert_eq!(cell.compare_exchange(StashItemState::Pending, StashItemState::CompleteOk), Err(StashItemState::Started));
    cell.store(StashItemState::CompleteErr);
    assert!(cell.is_complete() && cell.is_error());
    assert_eq!(cell.load(), StashItemState::CompleteErr);
}

#[test]
fn plain_list_cap_replaces_last() {
    let mut l = ScratchList::new_vec(1);
    l.push("/a".to_string(), String::new());
    l.push("/b".to_string(), String::new());
    assert_eq!(l.as_slice(), vec![("/b".to_string(), String::new())]);
    assert!(l.iter_any("/b"));
    assert!(!l.iter_any("/a"));
}

#[test]
fn unique_list_update_moves_onto_existing_path() {
    let mut l = ScratchList::new_map();
    for p in ["/a", "/b", "/c"] {
        l.push(p.to_string(), String::new());
    }
    l.update(0, Some("/b".to_string()), Some("d".to_string()));
    assert_eq!(l.as_slice(), vec![("/b".to_string(), "d".to_string()), ("/c".to_string(), String::new())]);
    let item = StashItem::new("copy".into(), "/s".into(), 3);
    assert_eq!(item.copy().src, "/s");
}

#[test]
fn mem_stashes_round_trip() {
    let mut store = MemStashes::new();
    assert!(mem_get(&store, "s").is_empty());
    mem_add_at(&mut store, "s", "/a", 10);
    mem_add_at(&mut store, "s", "/b", 20);
    let got = mem_get(&store, "s");
    assert_eq!(got.len(), 2);
    assert_eq!(got[0].stash, "/b");
    assert_eq!(got[0].add_time, 20);
    assert_eq!(got[1].name, "s");
    assert!(mem_has(&store, "s", "/a"));
    assert!(!mem_has(&store, "t", "/a"));
    assert!(mem_set_tail(&mut store, "s", "/a", "alias"));
    assert!(!mem_set_tail(&mut store, "s", "/zz", "alias"));
    assert_eq!(mem_get(&store, "s")[1].tail, "alias");
    assert_eq!(mem_remove(&mut store, "s", &vec!["/a".to_string(), "/q".to_string()]), 1);
    assert_eq!(mem_remove(&mut store, "none", &vec!["/a".to_string()]), 0);
    assert_eq!(mem_get(&store, "s").len(), 1);
}
