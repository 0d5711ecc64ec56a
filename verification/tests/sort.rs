use fist::run::state::sort::{
    engage_pane_sort, item_before, sort_fill, tail_cell, take_hide_metadata, SortFill, SortKey, SortMode,
    SortOrder, TailCell,
};
use fist::run::state::stack::PaneKind;

#[test]
fn panes_offer_their_orders() {
    assert_eq!(PaneKind::Search.sort_options(), vec![SortOrder::Name, SortOrder::Mtime, SortOrder::Atime, SortOrder::Unsorted]);
    assert_eq!(PaneKind::search_sort_options(), PaneKind::Search.sort_options());
    assert_eq!(PaneKind::Files.sort_options(), vec![SortOrder::Name, SortOrder::Atime, SortOrder::Size, SortOrder::Unsorted]);
    assert_eq!(PaneKind::Apps.sort_options(), vec![SortOrder::Name, SortOrder::Atime, SortOrder::Size, SortOrder::Unsorted]);
    assert_eq!(PaneKind::Stash.sort_options(), vec![SortOrder::Name, SortOrder::Atime, SortOrder::Unsorted]);
    assert_eq!(PaneKind::Nav.sort_options(), vec![SortOrder::Name, SortOrder::Mtime, SortOrder::Atime, SortOrder::Size, SortOrder::Unsorted]);
    assert!(PaneKind::Custom.supports_sort());
    assert!(PaneKind::Find.supports_vis());
    assert!(!PaneKind::Stash.supports_vis());
    assert!(!PaneKind::Folders.supports_vis());
}

#[test]
fn stability_depends_on_kind_and_sort() {
    assert_eq!(PaneKind::Files.stability_threshold(false, SortOrder::Name), 5);
    assert_eq!(PaneKind::Stash.stability_threshold(true, SortOrder::Unsorted), 5);
    assert_eq!(PaneKind::Search.stability_threshold(false, SortOrder::Name), u32::MAX);
    assert_eq!(PaneKind::Search.stability_threshold(true, SortOrder::Unsorted), 0);
    assert_eq!(PaneKind::Search.stability_threshold(true, SortOrder::Mtime), 40);
    assert_eq!(PaneKind::Custom.stability_threshold(false, SortOrder::Unsorted), 40);
    assert_eq!(PaneKind::Nav.stability_threshold(false, SortOrder::Unsorted), 0);
    assert_eq!(PaneKind::Find.stability_threshold(false, SortOrder::Size), 40);
}

#[test]
fn test_set_global_sort_sets_hidemetadata_on_none() {
    let mut hide = false;
    let mode = engage_pane_sort(SortOrder::Unsorted, false, 0, true, &mut hide);
    assert!(hide);
    assert_eq!(mode, SortMode { order: SortOrder::Unsorted, threshold: 0 });
}

#[test]
fn engaged_sorts_follow_the_marker() {
    let mut hide = true;
    let m = engage_pane_sort(SortOrder::Mtime, false, 40, false, &mut hide);
    assert_eq!(m, SortMode { order: SortOrder::Mtime, threshold: 40 });
    assert!(hide);
    let m = engage_pane_sort(SortOrder::Mtime, false, 40, true, &mut hide);
    assert_eq!(m, SortMode { order: SortOrder::Mtime, threshold: u32::MAX });
    assert!(!hide);
    let mut hide = true;
    let m = engage_pane_sort(SortOrder::Name, true, 5, true, &mut hide);
    assert_eq!(m, SortMode { order: SortOrder::Unsorted, threshold: 5 });
    assert!(hide);
}

#[test]
fn externally_sorted_panes_keep_the_marker() {
    let mut hide = true;
    assert!(!take_hide_metadata(true, &mut hide));
    assert!(hide);
    assert!(take_hide_metadata(false, &mut hide));
    assert!(!hide);
    assert!(!take_hide_metadata(false, &mut hide));
}

#[test]
fn orders_name_their_fill() {
    assert_eq!(sort_fill(SortOrder::Mtime), SortFill::Times);
    assert_eq!(sort_fill(SortOrder::Atime), SortFill::Times);
    assert_eq!(sort_fill(SortOrder::Size), SortFill::Sizes);
    assert_eq!(sort_fill(SortOrder::Name), SortFill::Nothing);
    assert_eq!(sort_fill(SortOrder::Unsorted), SortFill::Nothing);
}

fn key(name: &str, value: u64, size: Option<u64>) -> SortKey {
    SortKey { name: name.to_string(), value, size }
}

#[test]
fn comparators_sort_and_keep_insertion_order_on_ties() {
    let a = key("alpha", 10, Some(3));
    let b = key("beta", 20, None);
    let a2 = key("alpha", 10, Some(3));
    assert_eq!(item_before(SortOrder::Unsorted, 0, &a, 1, &b), None);
    assert_eq!(item_before(SortOrder::Name, 5, &a, 1, &b), Some(true));
    assert_eq!(item_before(SortOrder::Name, 0, &b, 1, &a), Some(false));
    assert_eq!(item_before(SortOrder::Name, 0, &a, 1, &a2), Some(true));
    assert_eq!(item_before(SortOrder::Name, 1, &a, 0, &a2), Some(false));
    assert_eq!(item_before(SortOrder::Name, 0, &key("ab", 0, None), 1, &key("a", 0, None)), Some(false));
    assert_eq!(item_before(SortOrder::Mtime, 0, &a, 1, &b), Some(false));
    assert_eq!(item_before(SortOrder::Atime, 1, &b, 0, &a), Some(true));
    assert_eq!(item_before(SortOrder::Size, 1, &a, 0, &b), Some(true));
    assert_eq!(item_before(SortOrder::Size, 0, &b, 1, &key("c", 0, Some(0))), Some(true));
}

#[test]
fn sorting_by_a_comparator_is_consistent() {
    let keys = [key("b", 3, Some(1)), key("a", 3, None), key("b", 1, Some(1)), key("é", 9, Some(9))];
    for order in [SortOrder::Name, SortOrder::Mtime, SortOrder::Size] {
        for i in 0..keys.len() {
            assert_eq!(item_before(order, i as u32, &keys[i], i as u32, &keys[i]), Some(false));
            for j in 0..keys.len() {
                if i != j {
                    let ij = item_before(order, i as u32, &keys[i], j as u32, &keys[j]).unwrap();
                    let ji = item_before(order, j as u32, &keys[j], i as u32, &keys[i]).unwrap();
                    assert_ne!(ij, ji);
                }
            }
        }
    }
}

#[test]
fn the_tail_shows_the_sort_value() {
    assert_eq!(tail_cell(SortOrder::Mtime, true, false, 1700, None), TailCell::Time(1700));
    assert_eq!(tail_cell(SortOrder::Atime, true, false, u64::MAX, None), TailCell::Blank);
    assert_eq!(tail_cell(SortOrder::Size, true, false, 0, Some(0)), TailCell::Size(0));
    assert_eq!(tail_cell(SortOrder::Size, true, false, 0, None), TailCell::Blank);
    assert_eq!(tail_cell(SortOrder::Name, true, false, 5, Some(5)), TailCell::Tail);
    assert_eq!(tail_cell(SortOrder::Mtime, false, false, 5, None), TailCell::Tail);
    assert_eq!(tail_cell(SortOrder::Mtime, true, true, 5, None), TailCell::Tail);
}
