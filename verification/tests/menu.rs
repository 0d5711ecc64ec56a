use fist::menu::is_reserved_action_key;

#[test]
fn reserved_keys_are_rejected() {
    assert!(is_reserved_action_key("copy"));
}

#[test]
fn selector_names_and_empty_keys_are_rejected() {
    for key in ["all", "builtins", "first", "last", "none", "", "ALL"] {
        assert!(is_reserved_action_key(key), "key {key:?} should be reserved");
    }
}

#[test]
fn non_reserved_keys_are_accepted() {
    assert!(!is_reserved_action_key("my-action"));
    assert!(!is_reserved_action_key("zip"));
    assert!(is_reserved_action_key("Move"));
    assert!(is_reserved_action_key("DEFAULT"));
}

use fist::menu::{
    condition_passes, FileRule, MenuAction, MenuCondition, MenuStrategy, RepeatCondition,
    SelectedCondition,
};

fn rule(s: &str) -> FileRule {
    FileRule { rule: s.to_string() }
}

fn repeat(selected: SelectedCondition, r: &str, strict: bool) -> MenuCondition {
    MenuCondition::Repeat(RepeatCondition { selected, condition: rule(r), strict })
}

fn txt_rule(p: &String, r: &FileRule) -> bool {
    r.rule == "txt" && p.ends_with(".txt")
}

fn strs(v: &[&str]) -> Vec<String> {
    v.iter().map(|s| s.to_string()).collect()
}

#[test]
fn empty_conditions_always_pass() {
    assert!(condition_passes(&vec![], &vec![], None, false, None, None, &txt_rule));
}

#[test]
fn sequence_needs_one_selected_item_per_rule() {
    let c = MenuCondition::Sequence(vec![rule("txt"), rule("txt")]);
    let sel = strs(&["/a.txt", "/b.txt"]);
    assert!(c.passes(&sel, None, false, None, None, &txt_rule));
    assert!(!c.passes(&strs(&["/a.txt"]), None, false, None, None, &txt_rule));
    assert!(!c.passes(&strs(&["/a.txt", "/b.rs"]), None, false, None, None, &txt_rule));
}

#[test]
fn cursor_scope_rules() {
    let cur = "/c.txt".to_string();
    let c = repeat(SelectedCondition::Cursor, "txt", false);
    assert!(c.passes(&vec![], Some(&cur), false, None, None, &txt_rule));
    assert!(!c.passes(&vec![], Some(&cur), true, None, None, &txt_rule));
    assert!(!c.passes(&vec![], None, false, None, None, &txt_rule));
    let strict = repeat(SelectedCondition::Cursor, "txt", true);
    assert!(!strict.passes(&strs(&["/x.txt"]), Some(&cur), false, None, None, &txt_rule));
    assert!(c.passes(&strs(&["/x.txt"]), Some(&cur), false, None, None, &txt_rule));
}

#[test]
fn cwd_scope_rules() {
    let cwd = "/d.txt".to_string();
    let nav = "/n.txt".to_string();
    let loose = repeat(SelectedCondition::Cwd, "txt", false);
    assert!(loose.passes(&vec![], None, true, Some(&cwd), None, &txt_rule));
    assert!(!loose.passes(&vec![], None, false, Some(&cwd), None, &txt_rule));
    let strict = repeat(SelectedCondition::Cwd, "txt", true);
    assert!(strict.passes(&vec![], None, false, None, Some(&nav), &txt_rule));
    assert!(!strict.passes(&vec![], None, true, Some(&cwd), None, &txt_rule));
}

#[test]
fn selections_and_active_scope_rules() {
    let two = strs(&["/a.txt", "/b.txt"]);
    assert!(repeat(SelectedCondition::Selections(2), "txt", true).passes(&two, None, false, None, None, &txt_rule));
    assert!(!repeat(SelectedCondition::Selections(1), "txt", true).passes(&two, None, false, None, None, &txt_rule));
    assert!(repeat(SelectedCondition::Selections(1), "txt", false).passes(&two, None, false, None, None, &txt_rule));
    assert!(!repeat(SelectedCondition::Selections(3), "txt", false).passes(&two, None, false, None, None, &txt_rule));
    let active = repeat(SelectedCondition::Active, "txt", true);
    assert!(!active.passes(&two, None, false, None, None, &txt_rule));
    let cur = "/c.txt".to_string();
    assert!(active.passes(&vec![], Some(&cur), false, None, None, &txt_rule));
    let cwd = "/w.rs".to_string();
    assert!(!active.passes(&vec![], Some(&cur), true, Some(&cwd), None, &txt_rule));
    assert!(!active.passes(&vec![], None, false, Some(&cwd), None, &txt_rule));
}

#[test]
fn any_condition_makes_the_action_visible() {
    let cur = "/c.rs".to_string();
    let conds = vec![
        repeat(SelectedCondition::Cursor, "txt", false),
        repeat(SelectedCondition::Selections(0), "txt", false),
    ];
    assert!(condition_passes(&conds, &vec![], Some(&cur), false, None, None, &txt_rule));
    let only_cursor = vec![repeat(SelectedCondition::Cursor, "txt", false)];
    assert!(!condition_passes(&only_cursor, &vec![], Some(&cur), false, None, None, &txt_rule));
}

#[test]
fn action_closing_and_targets() {
    let mut a = MenuAction {
        condition: vec![repeat(SelectedCondition::Cwd, "dir", true)],
        command: "x".to_string(),
        alias: None,
        strategy: MenuStrategy::Queue,
        requires_dest: false,
        close: None,
    };
    assert!(!a.closes());
    a.close = Some(true);
    assert!(a.closes());
    assert_eq!(
        a.resolve_targets(strs(&["/s"]), "/f".to_string(), false, Some("/cwd".to_string()), Some("/nav".to_string())),
        strs(&["/nav"])
    );
    a.condition.clear();
    assert_eq!(a.resolve_targets(vec![], "/f".to_string(), false, None, None), strs(&["/f"]));
    assert_eq!(a.resolve_targets(strs(&["/s"]), "/f".to_string(), false, None, None), strs(&["/s"]));
}

use fist::menu::{merge_actions, MenuActions, MenuConfigError};

fn action(command: &str) -> MenuAction {
    MenuAction {
        condition: vec![],
        command: command.to_string(),
        alias: None,
        strategy: MenuStrategy::ExecuteSilent,
        requires_dest: false,
        close: None,
    }
}

fn table(keys: &[&str]) -> Vec<(String, MenuAction)> {
    keys.iter().map(|k| (k.to_string(), action(&format!("print('{k}')")))).collect()
}

#[test]
fn non_reserved_keys_parse() {
    let mut entries = table(&["my-action"]);
    entries[0].1.strategy = MenuStrategy::Queue;
    entries[0].1.requires_dest = true;
    let actions = MenuActions::from_entries(entries).unwrap();
    assert_eq!(actions.len(), 1);
    assert_eq!(actions.get("my-action").unwrap().strategy, MenuStrategy::Queue);
    assert!(actions.get("my-action").unwrap().requires_dest);
}

#[test]
fn a_table_with_a_reserved_key_is_refused() {
    let r = MenuActions::from_entries(table(&["zip", "Copy", "last"]));
    assert_eq!(r.unwrap_err(), MenuConfigError::Reserved("Copy".to_string()));
    assert!(MenuActions::from_entries(table(&[""])).is_err());
}

#[test]
fn merging_appends_new_keys_in_order() {
    let mut merged = MenuActions::from_entries(table(&["top", "zip"])).unwrap();
    let inner = MenuActions::from_entries(table(&["inner", "other"])).unwrap();
    assert_eq!(merge_actions(&mut merged, inner), Ok(()));
    assert_eq!(merged.len(), 4);
    let keys: Vec<&String> = merged.inner.keys().collect();
    assert_eq!(keys, vec!["top", "zip", "inner", "other"]);
    assert_eq!(merged.get("inner").unwrap().command, "print('inner')");
}

#[test]
fn merging_a_known_key_is_refused_after_the_keys_before_it() {
    let mut merged = MenuActions::from_entries(table(&["top", "zip"])).unwrap();
    let later = MenuActions::from_entries(table(&["fresh", "zip", "never"])).unwrap();
    assert_eq!(
        merge_actions(&mut merged, later),
        Err(MenuConfigError::Duplicate("zip".to_string()))
    );
    assert!(merged.contains_key("fresh"));
    assert!(!merged.contains_key("never"));
    assert_eq!(merged.len(), 3);
}

#[test]
fn selected_condition_spellings_parse() {
    for (spelling, expected) in [
        ("cursor", SelectedCondition::Cursor),
        ("cwd", SelectedCondition::Cwd),
        ("active", SelectedCondition::Active),
        ("single", SelectedCondition::Active),
    ] {
        assert_eq!(SelectedCondition::from_spelling(spelling), Some(expected), "{spelling}");
    }
    assert_eq!(SelectedCondition::from_count(2), Some(SelectedCondition::Selections(2)));
    assert_eq!(SelectedCondition::from_spelling("count"), None);
    assert_eq!(SelectedCondition::from_spelling("Cursor"), None);
}

#[test]
fn negative_selection_counts_are_refused() {
    assert_eq!(SelectedCondition::from_count(-1), None);
    assert_eq!(SelectedCondition::from_count(0), Some(SelectedCondition::Selections(0)));
}

#[test]
fn scope_names_read_back() {
    for c in [SelectedCondition::Cursor, SelectedCondition::Cwd, SelectedCondition::Active] {
        let name = c.spelling().unwrap();
        assert_eq!(SelectedCondition::from_spelling(&name), Some(c));
    }
    assert_eq!(SelectedCondition::Selections(3).spelling(), None);
}

use fist::menu::order::load_order;

fn comps(p: &str) -> Vec<String> {
    p.split('/').map(|s| s.to_string()).collect()
}

#[test]
fn load_order_innermost_first() {
    let files = vec![
        comps("t/top.toml"),
        comps("t/sub/inner/inner.toml"),
        comps("t/b.toml"),
        comps("t/sub/x.toml"),
        comps("t/10-z.toml"),
        comps("t/sub/a.toml"),
    ];
    assert_eq!(load_order(&files), vec![1, 5, 3, 4, 2, 0]);
    assert!(load_order(&Vec::new()).is_empty());
}

#[test]
fn actions_load_in_merge_order() {
    let files = vec![comps("t/top.toml"), comps("t/sub/inner/inner.toml")];
    let tables = [table(&["top_action"]), table(&["inner_action"])];
    let mut merged = MenuActions::new();
    for i in load_order(&files) {
        let actions = MenuActions::from_entries(tables[i].clone()).unwrap();
        merge_actions(&mut merged, actions).unwrap();
    }
    assert!(merged.contains_key("top_action"));
    assert!(merged.contains_key("inner_action"));
    let keys: Vec<&String> = merged.inner.keys().collect();
    assert_eq!(keys, vec!["inner_action", "top_action"]);
}

/// The rule engine on the paths of the scenario: `*` matches anything,
/// `type:f` matches the one regular file.
fn scenario_rule(p: &String, r: &FileRule) -> bool {
    match r.rule.as_str() {
        "*" => true,
        "type:f" => p == "/tmp/x/a.txt",
        _ => false,
    }
}

#[test]
fn selected_condition_semantics() {
    let a = "/tmp/x/a.txt".to_string();
    let d = "/tmp/x".to_string();
    let cond = |selected: SelectedCondition, strict: bool| {
        vec![MenuCondition::Repeat(RepeatCondition { selected, condition: rule("*"), strict })]
    };
    let eval = |conds: &Vec<MenuCondition>,
                selected: &[String],
                cursor: Option<&String>,
                cursor_disabled: bool,
                cwd: Option<&String>,
                nav_cwd: Option<&String>| {
        condition_passes(conds, &selected.to_vec(), cursor, cursor_disabled, cwd, nav_cwd, &scenario_rule)
    };

    // Cursor: enabled cursor required; strict additionally forbids
    // selections; non-strict ignores them.
    assert!(eval(&cond(SelectedCondition::Cursor, false), &[], Some(&a), false, None, None));
    assert!(!eval(&cond(SelectedCondition::Cursor, false), &[], Some(&a), true, None, None));
    assert!(!eval(&cond(SelectedCondition::Cursor, true), &[d.clone()], Some(&a), false, None, None));
    assert!(eval(&cond(SelectedCondition::Cursor, false), &[d.clone()], Some(&a), false, None, None));

    // Cwd: non-strict needs a cwd while the cursor is disabled; strict
    // needs the nav cwd regardless of the cursor.
    assert!(eval(&cond(SelectedCondition::Cwd, false), &[], None, true, Some(&d), None));
    assert!(!eval(&cond(SelectedCondition::Cwd, false), &[], None, false, Some(&d), None));
    assert!(!eval(&cond(SelectedCondition::Cwd, false), &[], None, true, None, None));
    assert!(eval(&cond(SelectedCondition::Cwd, true), &[], None, false, None, Some(&d)));
    assert!(!eval(&cond(SelectedCondition::Cwd, true), &[], None, true, Some(&d), None));

    // Selections(n): strict exactly n, non-strict at least n.
    let two = [a.clone(), d.clone()];
    let three = [a.clone(), d.clone(), d.clone()];
    assert!(eval(&cond(SelectedCondition::Selections(2), true), &two, None, false, None, None));
    assert!(!eval(&cond(SelectedCondition::Selections(2), true), &[a.clone()], None, false, None, None));
    assert!(!eval(&cond(SelectedCondition::Selections(2), true), &three, None, false, None, None));
    assert!(eval(&cond(SelectedCondition::Selections(2), false), &three, None, false, None, None));
    assert!(!eval(&cond(SelectedCondition::Selections(2), false), &[a.clone()], None, false, None, None));

    // Active: selections → cursor → cwd chain; strict needs exactly one
    // resolved target.
    assert!(eval(&cond(SelectedCondition::Active, false), &two, None, false, None, None));
    assert!(!eval(&cond(SelectedCondition::Active, true), &two, None, false, None, None));
    assert!(eval(&cond(SelectedCondition::Active, true), &[a.clone()], None, false, None, None));
    assert!(eval(&cond(SelectedCondition::Active, false), &[], Some(&a), false, None, None));
    assert!(eval(&cond(SelectedCondition::Active, false), &[], None, true, Some(&d), None));
    assert!(eval(&cond(SelectedCondition::Active, true), &[], None, true, Some(&d), None));
    assert!(!eval(&cond(SelectedCondition::Active, false), &[], None, true, None, None));

    // the rule must match every target in the resolved set
    let file_rule: Vec<MenuCondition> = vec![MenuCondition::Repeat(RepeatCondition {
        selected: SelectedCondition::Active,
        condition: rule("type:f"),
        strict: false,
    })];
    assert!(eval(&file_rule, &[a.clone()], None, false, None, None));
    assert!(!eval(&file_rule, &two, None, false, None, None));
}
