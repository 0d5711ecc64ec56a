use fist::run::prompt::{enter_prompt, lock_prompt, prompt_line, PromptEffects, PromptLine};

#[test]
fn prompt_lines_follow_cursor_and_visibility() {
    assert_eq!(prompt_line(true, true, true, true, None, false), PromptLine::Directory);
    assert_eq!(prompt_line(true, false, true, false, None, false), PromptLine::Default);
    assert_eq!(prompt_line(false, true, true, false, None, false), PromptLine::Fixed("d: ".into()));
    assert_eq!(prompt_line(false, true, false, true, None, false), PromptLine::Fixed("f: ".into()));
    assert_eq!(prompt_line(false, true, true, true, None, false), PromptLine::Default);
    assert_eq!(
        prompt_line(false, true, true, true, Some("> ".into()), false),
        PromptLine::Pane { prompt: Some("> ".into()), styled: false }
    );
    assert_eq!(
        prompt_line(false, true, false, false, None, true),
        PromptLine::Pane { prompt: None, styled: true }
    );
}

#[test]
fn prompt_mode_is_pushed_and_popped_once() {
    let mut in_prompt = false;
    let e = lock_prompt(&mut in_prompt, true, false);
    assert!(in_prompt);
    assert_eq!(
        e,
        PromptEffects { mode: Some(true), show_border: true, stash_preview: false, set_cursor: false, disable_cursor: false }
    );
    assert_eq!(lock_prompt(&mut in_prompt, true, false).mode, None);
    let e = lock_prompt(&mut in_prompt, false, true);
    assert!(!in_prompt);
    assert_eq!(
        e,
        PromptEffects { mode: Some(false), show_border: false, stash_preview: true, set_cursor: true, disable_cursor: false }
    );
    assert_eq!(lock_prompt(&mut in_prompt, false, false).mode, None);
}

#[test]
fn entering_the_prompt_needs_a_directory() {
    let mut in_prompt = false;
    assert_eq!(enter_prompt(&mut in_prompt, false, false, true, true), None);
    assert!(!in_prompt);
    let e = enter_prompt(&mut in_prompt, true, false, true, true).unwrap();
    assert!(in_prompt);
    assert_eq!(
        e,
        PromptEffects { mode: Some(true), show_border: true, stash_preview: true, set_cursor: true, disable_cursor: true }
    );
    let e = enter_prompt(&mut in_prompt, true, true, true, true).unwrap();
    assert_eq!(e.mode, None);
    assert!(!e.stash_preview);
}
