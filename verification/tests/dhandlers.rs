use fist::run::dhandlers::{apply_newline_policy, ExecutionMode, COPY_COMMAND};

#[test]
fn execution_mode_round_trips_all_discriminants() {
    for mode in [
        ExecutionMode::Normal,
        ExecutionMode::Paged,
        ExecutionMode::Tty,
        ExecutionMode::Detached,
        ExecutionMode::Silent,
    ] {
        assert_eq!(ExecutionMode::from_discriminant(mode.discriminant()), Some(mode));
    }
    assert_eq!(ExecutionMode::from_discriminant(5), None);
    assert_eq!(ExecutionMode::from_discriminant(u8::MAX), None);
}

#[test]
fn copy_command_marker_classification() {
    assert_eq!(COPY_COMMAND, 0);
    assert!(!ExecutionMode::from_discriminant(COPY_COMMAND).unwrap().is_silent());
    assert!(ExecutionMode::Detached.is_silent());
    assert!(ExecutionMode::Silent.is_silent());
    assert!(!ExecutionMode::Normal.is_silent());
    assert!(!ExecutionMode::Paged.is_silent());
    assert!(!ExecutionMode::Tty.is_silent());
}

#[test]
fn newline_policy_trims_when_disabled() {
    let mut text = "hello\r\n".to_string();
    apply_newline_policy(&mut text, false);
    assert_eq!(text, "hello");

    let mut text = "hello\n".to_string();
    apply_newline_policy(&mut text, false);
    assert_eq!(text, "hello");

    let mut text = "a\n\n".to_string();
    apply_newline_policy(&mut text, false);
    assert_eq!(text, "a\n");

    let mut text = "hello".to_string();
    apply_newline_policy(&mut text, false);
    assert_eq!(text, "hello");
}

#[test]
fn newline_policy_keeps_output_when_enabled() {
    let mut text = "hello\r\n".to_string();
    apply_newline_policy(&mut text, true);
    assert_eq!(text, "hello\r\n");
}

#[test]
fn newline_policy_leaves_a_lone_carriage_return() {
    let mut text = "hello\r".to_string();
    apply_newline_policy(&mut text, false);
    assert_eq!(text, "hello\r");

    let mut text = String::new();
    apply_newline_policy(&mut text, false);
    assert_eq!(text, "");
}

#[test]
fn discriminants_follow_declaration_order() {
    assert_eq!(ExecutionMode::Normal.discriminant(), 0);
    assert_eq!(ExecutionMode::Paged.discriminant(), 1);
    assert_eq!(ExecutionMode::Tty.discriminant(), 2);
    assert_eq!(ExecutionMode::Detached.discriminant(), 3);
    assert_eq!(ExecutionMode::Silent.discriminant(), 4);
}
