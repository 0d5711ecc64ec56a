use fist::run::state::temp::{MenuPrompt, StoreState, STORE};

#[test]
fn menu_prompt_builder() {
    let p = MenuPrompt::new("Rename".to_string());
    assert_eq!(p.title, "Rename");
    assert_eq!(p.initial, "");
    assert_eq!(p.cursor, 0);
    let p = p.initial("héllo".to_string());
    assert_eq!(p.cursor, 5);
    assert_eq!(MenuPrompt::new("New".to_string()).initial("é".to_string()).cursor, 1);
    assert_eq!(MenuPrompt::new("New".to_string()).initial("abc".to_string()).cursor, 3);
    let p = p.title("New name".to_string()).cursor(2);
    assert_eq!(p.title, "New name");
    assert_eq!(p.kind, "Rename");
    assert_eq!(p.cursor, 2);
    assert_eq!(p.initial, "héllo");
}

#[test]
fn bat_opts_merge_base_then_extras() {
    let mut store = StoreState::new();
    STORE::set_bat_opts(&mut store, vec!["-l".into(), "md".into()]);
    assert_eq!(
        STORE::get_bat_opts(&mut store, Some(vec!["--paging=never".into()])),
        Some(vec!["--paging=never".to_string(), "-l".to_string(), "md".to_string()])
    );
    assert!(store.bat_opts.is_none());
    assert_eq!(STORE::get_bat_opts(&mut store, Some(vec!["x".into()])), None);
    STORE::set_bat_opts(&mut store, vec![]);
    assert_eq!(STORE::get_bat_opts(&mut store, None), None);
    assert!(store.bat_opts.is_none());
}

#[test]
fn menu_prompts_are_kept_until_replaced() {
    let mut store = StoreState::new();
    STORE::set_menu_prompt(&mut store, None);
    assert!(store.menu_prompt.is_none());
    STORE::set_menu_prompt(&mut store, Some(MenuPrompt::new("Rename".to_string())));
    STORE::set_menu_prompt(&mut store, None);
    assert_eq!(store.menu_prompt.as_ref().unwrap().kind, "Rename");
}
