use fist::run::reload::{
    dir_entry, git_visibility, reload_plan, results_layout, search_input, search_status, sync_search_query,
    ReloadPlan, ResultsLayout,
};

fn strs(v: &[&str]) -> Vec<String> {
    v.iter().map(|s| s.to_string()).collect()
}

#[test]
fn later_reloads_carry_the_query_into_a_search_pane() {
    let mut initial = true;
    let mut input = String::from("old");
    let mut patterns = strs(&["p"]);
    sync_search_query(false, &mut initial, false, "a 'b c'", &mut input, &mut patterns);
    assert!(!initial);
    assert_eq!(patterns, strs(&["p"]));
    sync_search_query(false, &mut initial, false, "a 'b c' d\\'e", &mut input, &mut patterns);
    assert_eq!(patterns, strs(&["a", "b c", "d'e"]));
    assert_eq!(input, "old");
    sync_search_query(false, &mut initial, true, "typed", &mut input, &mut patterns);
    assert_eq!(input, "typed");
    let mut fresh = true;
    sync_search_query(true, &mut fresh, true, "x", &mut input, &mut patterns);
    assert!(fresh);
    assert_eq!(input, "typed");
}

#[test]
fn search_panes_start_from_their_patterns() {
    let mut marker = false;
    assert_eq!(search_input(true, "flt", &strs(&["x"]), true, &mut marker), "flt");
    assert_eq!(search_input(false, "", &strs(&["foo", "a b", "it's"]), false, &mut marker), "foo 'a b' 'it\\'s'");
    assert_eq!(search_input(false, "", &strs(&["foo"]), true, &mut marker), "'foo");
    let mut marker = true;
    assert_eq!(search_input(false, "", &strs(&["foo"]), false, &mut marker), "'foo");
    assert!(!marker);
    assert_eq!(search_input(false, "", &strs(&["foo"]), false, &mut marker), "foo");
    let mut marker = true;
    assert_eq!(search_input(false, "", &strs(&["foo", "bar"]), true, &mut marker), "foo bar");
    assert!(marker);
}

#[test]
fn the_search_status_fills_its_template() {
    let spans = strs(&["rg: {}", " | ", "{}{}"]);
    assert_eq!(search_status(false, &strs(&["a", "b"]), "query", &spans), strs(&["rg: query", " | ", "queryquery"]));
    assert_eq!(search_status(true, &strs(&["a", "b"]), "query", &spans), strs(&["rg: a / b", " | ", "a / ba / b"]));
}

#[test]
fn search_panes_stack_and_reload_on_query() {
    assert_eq!(
        results_layout(Some((false, false))),
        ResultsLayout {
            right_align_last: false,
            stacked: true,
            search_status: true,
            reload_on_query: true,
            filtering: false,
            preview_at_match: true
        }
    );
    assert_eq!(results_layout(Some((true, true))).stacked, false);
    assert_eq!(results_layout(Some((true, true))).reload_on_query, false);
    assert_eq!(
        results_layout(None),
        ResultsLayout {
            right_align_last: true,
            stacked: false,
            search_status: false,
            reload_on_query: false,
            filtering: true,
            preview_at_match: false
        }
    );
}

#[test]
fn reload_steps() {
    assert_eq!(
        reload_plan(false, false, true, true, false, false, false, false),
        ReloadPlan {
            apply_default_visibility: false,
            snapshot_selections: true,
            clear_sizes: false,
            jump_to_top: true,
            as_new: false
        }
    );
    let p = reload_plan(true, false, true, true, true, true, false, true);
    assert!(p.apply_default_visibility && !p.snapshot_selections && p.clear_sizes && !p.jump_to_top && p.as_new);
    let p = reload_plan(true, true, true, true, true, true, true, false);
    assert!(!p.apply_default_visibility && !p.clear_sizes);
}

#[test]
fn entering_a_directory() {
    assert_eq!(dir_entry(None, "/a"), (true, false));
    assert_eq!(dir_entry(Some("/a"), "/a"), (false, false));
    assert_eq!(dir_entry(Some("/a/"), "/a"), (false, false));
    assert_eq!(dir_entry(Some("/a"), "/b"), (false, true));
}

#[test]
fn git_repositories_show_hidden_files() {
    let (mut hidden, mut ignore) = (false, false);
    git_visibility(false, false, true, &mut hidden, &mut ignore);
    assert!(hidden && ignore);
    git_visibility(false, true, true, &mut hidden, &mut ignore);
    assert!(hidden && ignore);
    git_visibility(true, true, false, &mut hidden, &mut ignore);
    assert!(hidden && ignore);
    git_visibility(false, true, false, &mut hidden, &mut ignore);
    assert!(!hidden && !ignore);
}

#[test]
fn query_tokens_follow_quotes_and_escapes() {
    let mut initial = false;
    let mut input = String::new();
    let mut patterns = Vec::new();
    sync_search_query(false, &mut initial, false, "  a\\b 'x  y'z \\", &mut input, &mut patterns);
    assert_eq!(patterns, strs(&["a\\b", "x  yz"]));
}
