use fist::run::state::toast::{
    make_toast, SpanStyle, ToastContent, ToastFlags, ToastSpan, ToastState, ToastStyle, TOAST,
};

fn raw(s: &str) -> ToastSpan {
    ToastSpan::raw(s.to_string())
}

fn list_len(c: &ToastContent) -> usize {
    match c {
        ToastContent::List(items) => items.len(),
        _ => panic!("Expected ToastContent::List"),
    }
}

#[test]
fn test_toast_push_and_pop() {
    let mut state = ToastState::new();

    TOAST::push_with_flag(
        &mut state,
        ToastStyle::Info,
        "Extracting: ".to_string(),
        vec![raw("archive1.zip"), raw("archive2.zip")],
        ToastFlags::cursor().union(ToastFlags::pane()),
    );

    assert_eq!(state.lines.len(), 1);
    assert_eq!(state.lines[0].prefix.content, "Extracting: ");
    assert_eq!(state.lines[0].flags, ToastFlags::cursor().union(ToastFlags::pane()));
    assert_eq!(list_len(&state.lines[0].content), 2);

    TOAST::pop(&mut state, "Extracting: ", &raw("archive1.zip"));
    assert_eq!(state.lines.len(), 1);
    match &state.lines[0].content {
        ToastContent::List(items) => {
            assert_eq!(items.len(), 1);
            assert_eq!(items[0].content, "archive2.zip");
            assert_eq!(items[0].style, SpanStyle::Raw);
        }
        _ => panic!("Expected ToastContent::List"),
    }

    TOAST::pop(&mut state, "Extracting: ", &raw("archive2.zip"));
    assert_eq!(state.lines.len(), 0);
}

#[test]
fn test_toast_clear_msgs_preserves_prefixed() {
    let mut state = ToastState::new();

    TOAST::push(&mut state, ToastStyle::Info, "Extracting: ".to_string(), vec![raw("test.zip")]);
    TOAST::msg(
        &mut state,
        vec![ToastSpan { content: "Entering archive".to_string(), style: SpanStyle::Level(ToastStyle::Info) }],
        false,
    );
    assert_eq!(state.lines.len(), 2);

    TOAST::clear_msgs(&mut state);
    assert_eq!(state.lines.len(), 1);
    assert_eq!(state.lines[0].prefix.content, "Extracting: ");
}

#[test]
fn test_push_with_flag_survives_clear() {
    let mut state = ToastState::new();

    TOAST::push(&mut state, ToastStyle::Success, "Copied: ".to_string(), vec![raw("a.rs")]);
    TOAST::push_with_flag(
        &mut state,
        ToastStyle::Info,
        "Extracting: ".to_string(),
        vec![raw("b.zip")],
        ToastFlags::cursor().union(ToastFlags::pane()),
    );

    TOAST::clear(&mut state);
    assert_eq!(state.lines.len(), 1);
    assert_eq!(state.lines[0].prefix.content, "Extracting: ");
    assert_eq!(state.lines[0].flags, ToastFlags::cursor().union(ToastFlags::pane()));
}

#[test]
fn push_merges_items_into_the_group_once() {
    let mut state = ToastState::new();
    TOAST::push(&mut state, ToastStyle::Success, "Copied: ".to_string(), vec![raw("a"), raw("b")]);
    TOAST::push(&mut state, ToastStyle::Error, "Copied: ".to_string(), vec![raw("b"), raw("c"), raw("c")]);
    assert_eq!(state.lines.len(), 1);
    assert_eq!(list_len(&state.lines[0].content), 3);
    assert_eq!(state.lines[0].prefix.style, SpanStyle::Level(ToastStyle::Success));
}

#[test]
fn notice_is_prefixed_by_the_style_label() {
    let mut state = ToastState::new();
    TOAST::notice(&mut state, ToastStyle::Normal, "hi".to_string());
    TOAST::notice(&mut state, ToastStyle::Warning, "low".to_string());
    assert_eq!(state.lines[0].prefix.content, "Note: ");
    assert_eq!(state.lines[1].prefix.content, "Warning: ");
    assert_eq!(state.lines[1].flags, ToastFlags::pane());
    TOAST::clear(&mut state);
    assert_eq!(state.lines.len(), 0);
}

#[test]
fn replacing_message_evicts_transient_lines() {
    let mut state = ToastState::new();
    TOAST::msg(&mut state, vec![raw("one")], false);
    TOAST::pair(&mut state, ToastStyle::Info, "Renamed: ".to_string(), raw("a"), raw("b"));
    TOAST::msg(&mut state, vec![raw("two")], true);
    assert_eq!(state.lines.len(), 2);
    assert_eq!(state.lines[0].prefix.content, "Renamed: ");
    TOAST::toast_empty(&mut state);
    assert_eq!(state.lines.len(), 2);
    match &state.lines[1].content {
        ToastContent::Line(spans) => {
            assert_eq!(spans[0].content, "No entries");
            assert_eq!(spans[0].style, SpanStyle::Faint);
        }
        _ => panic!("expected a line"),
    }
}

#[test]
fn flag_bits_and_containment() {
    assert_eq!(ToastFlags::empty().bits(), 0);
    assert_eq!(ToastFlags::cursor().bits(), 1);
    assert_eq!(ToastFlags::pane().bits(), 2);
    assert_eq!(ToastFlags::cursor().union(ToastFlags::pane()).bits(), 3);
    assert!(ToastFlags::cursor().union(ToastFlags::pane()).contains(ToastFlags::pane()));
    assert!(!ToastFlags::pane().contains(ToastFlags::cursor()));
    assert_eq!(ToastStyle::Normal.label(), "Note");
    assert_eq!(ToastStyle::Error.label(), "Error");
}

fn texts(row: &[ToastSpan]) -> Vec<&str> {
    row.iter().map(|s| s.content.as_str()).collect()
}

#[test]
fn footer_rows_join_lists_and_pairs() {
    let mut state = ToastState::new();
    TOAST::push(&mut state, ToastStyle::Info, "Copied: ".to_string(), vec![raw("a"), raw("b"), raw("c")]);
    TOAST::pair(&mut state, ToastStyle::Success, "Moved: ".to_string(), raw("x"), raw("y"));
    TOAST::notice(&mut state, ToastStyle::Error, "boom".to_string());
    TOAST::push(&mut state, ToastStyle::Info, "One: ".to_string(), vec![raw("solo")]);
    let rows = make_toast(&state);
    assert_eq!(rows.len(), 4);
    assert_eq!(texts(&rows[0]), vec!["Copied: ", "a", ", ", "b", ", ", "c"]);
    assert_eq!(rows[0][0].style, SpanStyle::Level(ToastStyle::Info));
    assert_eq!(rows[0][2].style, SpanStyle::Raw);
    assert_eq!(texts(&rows[1]), vec!["Moved: ", "x", " → ", "y"]);
    assert_eq!(texts(&rows[2]), vec!["Error: ", "boom"]);
    assert_eq!(texts(&rows[3]), vec!["One: ", "solo"]);
    assert!(make_toast(&ToastState::new()).is_empty());
}
