use fist::run::globals::{TempState, TEMP};
use fist::run::queue::state::QueueItem;
use fist::run::selection::{hash_items, hash_path, rehydrate, snapshot_selections, PendingSelections};
use fist::run::stash::StashItem;
use fist::run::state::toast::{SpanStyle, ToastContent, ToastSpan, ToastState, TOAST};
use fist::text::usize_to_decimal;

#[test]
fn decimal_text() {
    assert_eq!(usize_to_decimal(0), "0");
    assert_eq!(usize_to_decimal(7), "7");
    assert_eq!(usize_to_decimal(1024), "1024");
    assert_eq!(usize_to_decimal(usize::MAX), usize::MAX.to_string());
}

fn first_text(state: &ToastState, i: usize) -> String {
    match &state.lines[i].content {
        ToastContent::Line(spans) => spans[0].content.clone(),
        _ => panic!("expected a line"),
    }
}

#[test]
fn skipped_counter_increments() {
    let mut state = ToastState::new();
    TOAST::push_skipped(&mut state);
    assert_eq!(state.lines.len(), 1);
    assert_eq!(first_text(&state, 0), "Skipped");
    TOAST::push_skipped(&mut state);
    assert_eq!(first_text(&state, 0), "Skipped (2)");
    TOAST::push_skipped(&mut state);
    TOAST::push_skipped(&mut state);
    assert_eq!(first_text(&state, 0), "Skipped (4)");
    match &state.lines[0].content {
        ToastContent::Line(spans) => assert_eq!(spans[0].style, SpanStyle::Dim),
        _ => panic!("expected a line"),
    }
    TOAST::clear_msgs(&mut state);
    assert!(state.lines.is_empty());
}

#[test]
fn skipped_counter_restarts_on_odd_text() {
    let mut state = ToastState::new();
    TOAST::msg(&mut state, vec![ToastSpan::raw("Skipped (x)".to_string())], false);
    TOAST::push_skipped(&mut state);
    assert_eq!(first_text(&state, 0), "Skipped (2)");
}

#[test]
fn rehydrate_maps_hashes_to_first_items() {
    let items = vec![(10u32, 1u64), (11, 2), (12, 1), (13, 3)];
    assert_eq!(rehydrate(&vec![3, 1, 9, 2], &items), vec![13, 10, 11]);
    assert!(rehydrate(&vec![], &items).is_empty());
    let pending = PendingSelections(vec![2, 2]);
    assert_eq!(rehydrate(&pending.0, &items), vec![11, 11]);
}

#[test]
fn temp_values_are_taken_once() {
    let mut t = TempState::new();
    TEMP::set_prev_dir(&mut t, Some("/prev".to_string()));
    TEMP::set_initial_relative_path(&mut t, true);
    assert_eq!(TEMP::take_prev_dir(&mut t), Some("/prev".to_string()));
    assert_eq!(TEMP::take_prev_dir(&mut t), None);
    assert_eq!(TEMP::take_original_relative_path(&mut t), Some(true));
    assert_eq!(TEMP::take_original_relative_path(&mut t), None);
}

#[test]
fn row_display_abbreviates_home() {
    let mut one = QueueItem::new("copy".into(), "/home/u/docs/a.txt".into(), 0);
    assert_eq!(one.display("/home/u"), "~/docs/a.txt");
    assert_eq!(one.display("/other"), "/home/u/docs/a.txt");
    one.src.push("/b".into());
    one.src.push("/c".into());
    assert_eq!(one.display("/home/u"), "[3 items]");
    one.src.clear();
    assert_eq!(one.display("/home/u"), "");
    let s = StashItem::new("k".into(), "/home/u/x".into(), 0);
    assert_eq!(s.display("/home/u"), "~/x");
}

#[test]
fn selections_survive_a_reload() {
    let selected = vec!["/a".to_string(), "/b".to_string()];
    let pending = snapshot_selections(&selected);
    assert_eq!(pending.0.len(), 2);
    assert_eq!(pending.0[0], hash_path("/a"));
    let items = vec![(5u32, "/b".to_string()), (7, "/a".to_string()), (9, "/c".to_string())];
    let hashed = hash_items(&items);
    assert_eq!(hashed.iter().map(|e| e.0).collect::<Vec<_>>(), vec![5, 7, 9]);
    assert_eq!(rehydrate(&pending.0, &hashed), vec![7, 5]);
}

use fist::pager::{pager_plan, status_source, PagerPlan, StatusSource};

#[test]
fn the_pager_skips_empty_output_and_passes_pipes_through() {
    assert_eq!(pager_plan(0, true, true, true, true), PagerPlan::Skip);
    assert_eq!(pager_plan(5, true, true, false, true), PagerPlan::Page { bat: true });
    assert_eq!(pager_plan(5, true, false, true, false), PagerPlan::Page { bat: false });
    assert_eq!(pager_plan(5, false, true, false, false), PagerPlan::PassThrough { bat: false });
    assert_eq!(status_source(true, true), StatusSource::Command);
    assert_eq!(status_source(false, true), StatusSource::Bat);
    assert_eq!(status_source(false, false), StatusSource::Done);
}
