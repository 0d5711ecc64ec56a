use fist::run::rg::{
    heading_lines, heading_path, join_lines,
    rg_entry, rg_heading_flush, rg_heading_hit, rg_heading_step, rg_hit, rg_parse_loc, rg_split_line,
    rg_window_flush, rg_window_push, RgHeadingState, RgHit, RgLine, RgStream,
};

/// One line of one-line mode output through the window, as the stream
/// reader takes it: parsed after the path parts `prefix`, then pushed.
fn process(raw: &str, prefix: Option<&str>, ctx: [usize; 2], cwd: &str, buffer: &mut Vec<RgLine>, items: &mut Vec<RgHit>) {
    if let Some(line) = rg_entry(raw, prefix.unwrap_or(""), false) {
        if let Some(at) = rg_window_push(buffer, line, ctx[0], ctx[1]) {
            items.push(rg_hit(buffer, at, cwd));
        }
    }
}

fn heading_items(lines: Vec<String>, cwd: &str, eof: bool) -> Vec<RgHit> {
    let mut parser = RgHeadingState::new();
    let mut items = Vec::new();
    for line in lines {
        if let Some(group) = rg_heading_step(&mut parser, &line) {
            items.push(rg_heading_hit(group, cwd, false));
        }
    }
    if eof {
        if let Some(group) = rg_heading_flush(&mut parser) {
            items.push(rg_heading_hit(group, cwd, false));
        }
    }
    items
}

fn tail(item: &RgHit) -> String {
    item.lines.join("\n")
}

#[test]
fn test_process_rg_line_and_loc() {
    let raw = "\x1b[0m\x1b[35mfoo.rs\x1b[0m\0\x1b[0m\x1b[32m42\x1b[0m:\x1b[0m10\x1b[0m:pub fn test() {";
    let mut buffer = Vec::new();
    let mut items = Vec::new();
    process(raw, None, [0, 0], "/test", &mut buffer, &mut items);
    assert_eq!(items.len(), 1);
    let item = &items[0];
    assert_eq!(item.loc, Some((42, 10)));
    assert_eq!(tail(item), "pub fn test() {");
}

#[test]
fn test_process_rg_line_with_context() {
    let raw_ctx_before = "\x1b[0m\x1b[35mfoo.rs\x1b[0m\0\x1b[0m\x1b[32m41\x1b[0m-\x1b[0m// comment";
    let raw_match = "\x1b[0m\x1b[35mfoo.rs\x1b[0m\0\x1b[0m\x1b[32m42\x1b[0m:\x1b[0m10\x1b[0m:pub fn test() {";
    let raw_ctx_after = "\x1b[0m\x1b[35mfoo.rs\x1b[0m\0\x1b[0m\x1b[32m43\x1b[0m-\x1b[0m}";
    let mut buffer = Vec::new();
    let mut items = Vec::new();
    process(raw_ctx_before, None, [1, 1], "/test", &mut buffer, &mut items);
    assert_eq!(items.len(), 0);
    process(raw_match, None, [1, 1], "/test", &mut buffer, &mut items);
    assert_eq!(items.len(), 0);
    process(raw_ctx_after, None, [1, 1], "/test", &mut buffer, &mut items);
    assert_eq!(items.len(), 1);
    let item = &items[0];
    assert_eq!(item.loc, Some((42, 10)));
    assert_eq!(item.lines.len(), 3);
}

#[test]
fn test_multiline_rg_parser_single_file() {
    let lines = vec![
        "src/run/start.rs\028:20:        previewer::make_previewer,".to_string(),
        "253:21:    let previewer = make_previewer(".to_string(),
        "".to_string(),
    ];
    let items = heading_items(lines, "/workspace", false);
    assert_eq!(items.len(), 1);
    let item = &items[0];
    assert_eq!(item.path, "/workspace/src/run/start.rs");
    assert_eq!(item.loc, Some((28, 20)));
    let tail_str = tail(item);
    assert!(tail_str.contains("previewer::make_previewer,"));
    assert!(tail_str.contains("let previewer = make_previewer("));
    assert_eq!(item.lines.len(), 2);
}

#[test]
fn test_multiline_rg_parser_multiple_files_with_ansi_and_context() {
    let lines = vec![
        "\x1b[0m\x1b[35msrc/run/start.rs\x1b[0m\0\x1b[0m\x1b[32m27\x1b[0m-\x1b[0m// queue::QUEUE,".to_string(),
        "\x1b[0m\x1b[32m28\x1b[0m:\x1b[0m20\x1b[0m:previewer::make_previewer,".to_string(),
        "\x1b[0m\x1b[32m253\x1b[0m:\x1b[0m21\x1b[0m:let previewer = make_previewer(".to_string(),
        "".to_string(),
        "\x1b[0m\x1b[35msrc/run/previewer.rs\x1b[0m\0\x1b[0m\x1b[32m18\x1b[0m:\x1b[0m8\x1b[0m:pub fn make_previewer(".to_string(),
    ];
    let items = heading_items(lines, "/workspace", true);
    assert_eq!(items.len(), 2);

    let item1 = &items[0];
    assert_eq!(item1.path, "/workspace/src/run/start.rs");
    assert_eq!(item1.loc, Some((28, 20)));
    assert_eq!(item1.lines.len(), 3);
    let tail1 = tail(item1);
    assert!(tail1.contains("// queue::QUEUE,"));
    assert!(tail1.contains("previewer::make_previewer,"));
    assert!(tail1.contains("let previewer = make_previewer("));

    let item2 = &items[1];
    assert_eq!(item2.path, "/workspace/src/run/previewer.rs");
    assert_eq!(item2.loc, Some((18, 8)));
    assert_eq!(item2.lines.len(), 1);
    assert!(tail(item2).contains("pub fn make_previewer("));
}

#[test]
fn test_multiline_filepath_oneline_mode() {
    let raw_line = "\x1b[0m\x1b[35mbaz.rs\x1b[0m\0\x1b[0m\x1b[32m42\x1b[0m:\x1b[0m10\x1b[0m:pub fn test() {";
    let mut buffer = Vec::new();
    let mut items = Vec::new();
    let path_prefix = "foo\nbar/";
    process(raw_line, Some(path_prefix), [0, 0], "/workspace", &mut buffer, &mut items);
    assert_eq!(items.len(), 1);
    let item = &items[0];
    assert_eq!(item.path, "/workspace/foo\nbar/baz.rs");
    assert_eq!(item.loc, Some((42, 10)));
    assert_eq!(tail(item), "pub fn test() {");
}

#[test]
fn test_multiline_filepath_non_oneline_mode() {
    let lines = vec![
        "\x1b[0m\x1b[35mdeep/nested\x1b[0m".to_string(),
        "\x1b[0m\x1b[35mfolder/my\x1b[0m".to_string(),
        "\x1b[0m\x1b[35mfile.rs\x1b[0m\0\x1b[0m\x1b[32m10\x1b[0m:\x1b[0m5\x1b[0m:first line".to_string(),
        "\x1b[0m\x1b[32m11\x1b[0m:\x1b[0m5\x1b[0m:second line".to_string(),
        "".to_string(),
        "\x1b[0m\x1b[35manother/sub\x1b[0m".to_string(),
        "\x1b[0m\x1b[35mpath.rs\x1b[0m\0\x1b[0m\x1b[32m99\x1b[0m:\x1b[0m1\x1b[0m:final match".to_string(),
    ];
    let items = heading_items(lines, "/workspace", true);
    assert_eq!(items.len(), 2);

    let item1 = &items[0];
    assert_eq!(item1.path, "/workspace/deep/nested\nfolder/my\nfile.rs");
    assert_eq!(item1.loc, Some((10, 5)));
    assert_eq!(item1.lines.len(), 2);
    let tail1 = tail(item1);
    assert!(tail1.contains("first line"));
    assert!(tail1.contains("second line"));

    let item2 = &items[1];
    assert_eq!(item2.path, "/workspace/another/sub\npath.rs");
    assert_eq!(item2.loc, Some((99, 1)));
    assert_eq!(item2.lines.len(), 1);
    assert!(tail(item2).contains("final match"));
}

fn plain(path: &str, loc: &str, text: &str, is_match: bool) -> RgLine {
    RgLine { path: path.to_string(), loc: loc.to_string(), text: text.to_string(), is_match }
}

#[test]
fn the_window_keeps_the_last_lines() {
    let mut buffer = Vec::new();
    assert_eq!(rg_window_push(&mut buffer, plain("a", "1-", "one", false), 1, 1), None);
    assert_eq!(rg_window_push(&mut buffer, plain("a", "2:", "two", true), 1, 1), None);
    assert_eq!(rg_window_push(&mut buffer, plain("a", "3-", "three", false), 1, 1), Some((1, 0, 3)));
    assert_eq!(rg_window_push(&mut buffer, plain("a", "4-", "four", false), 1, 1), None);
    assert_eq!(buffer.len(), 3);
    assert_eq!(buffer[0].text, "two");
    assert_eq!(buffer[2].text, "four");
}

#[test]
fn a_flush_hands_out_the_last_matches() {
    let buffer = vec![
        plain("a", "1:", "one", true),
        plain("a", "2-", "two", false),
        plain("a", "3:", "three", true),
        plain("a", "4:", "four", true),
    ];
    assert_eq!(rg_window_flush(&buffer, 1, 2), vec![(2, 1, 4), (3, 2, 4)]);
    assert_eq!(rg_window_flush(&buffer, 2, 3), vec![(2, 0, 4), (3, 1, 4)]);
    assert_eq!(rg_window_flush(&buffer, 0, 9), vec![(0, 0, 4), (2, 2, 4), (3, 3, 4)]);
    assert_eq!(rg_window_flush(&Vec::new(), 0, 1), vec![]);
}

#[test]
fn lines_split_into_path_location_and_text() {
    assert_eq!(
        rg_split_line("a.rs\x0042:7:text", false),
        Some(("a.rs".to_string(), "42:7:".to_string(), "text".to_string()))
    );
    assert_eq!(
        rg_split_line("a.rs\x0042:7:text", true),
        Some(("a.rs".to_string(), "42:".to_string(), "7:text".to_string()))
    );
    assert_eq!(
        rg_split_line("a.rs\x0041-ctx", false),
        Some(("a.rs".to_string(), "41-".to_string(), "ctx".to_string()))
    );
    assert_eq!(rg_split_line("no nul here", false), None);
    assert_eq!(rg_split_line("a.rs\x00text", false), None);
}

#[test]
fn locations_read_as_line_and_column() {
    assert_eq!(rg_parse_loc("42:10:"), Some((42, 10)));
    assert_eq!(rg_parse_loc("42:"), Some((42, 0)));
    assert_eq!(rg_parse_loc("41-"), Some((41, 0)));
    assert_eq!(rg_parse_loc(":"), None);
    assert_eq!(rg_parse_loc("99999999999999999999999:"), None);
}

#[test]
fn the_stream_routes_separators_and_path_parts() {
    let mut s = RgStream::new(0, 1, false);
    assert!(s.feed("dir/with", "/w").is_empty());
    assert_eq!(s.path_buffer, "dir/with\n");
    assert!(s.feed("name.rs\x005:1:hit", "/w").is_empty());
    assert_eq!(s.path_buffer, "");
    assert_eq!(s.buffer[0].path, "dir/with\nname.rs");
    let hits = s.feed("--", "/w");
    assert_eq!(hits.len(), 1);
    assert_eq!(hits[0].path, "/w/dir/with\nname.rs");
    assert_eq!(hits[0].loc, Some((5, 1)));
    assert!(s.buffer.is_empty());
    let (hits, toast) = s.finish("/w", 0, true);
    assert!(hits.is_empty());
    assert!(toast);
}

use fist::run::populate::{find_stream_end, FindEnd};

#[test]
fn a_listing_ends_with_no_match_a_toast_or_a_watch() {
    assert_eq!(
        find_stream_end(Some(0), true, true, 100, 0, 5),
        FindEnd { no_match: true, toast_empty: false, watch: true }
    );
    assert_eq!(
        find_stream_end(Some(0), false, true, 100, 0, 5),
        FindEnd { no_match: false, toast_empty: true, watch: true }
    );
    assert_eq!(
        find_stream_end(Some(50), false, true, 100, 10, 5),
        FindEnd { no_match: false, toast_empty: false, watch: true }
    );
    assert_eq!(
        find_stream_end(Some(50), false, true, 100, 10, 10),
        FindEnd { no_match: false, toast_empty: false, watch: false }
    );
    assert_eq!(
        find_stream_end(Some(500), false, true, 100, 0, 1),
        FindEnd { no_match: false, toast_empty: false, watch: false }
    );
    assert_eq!(find_stream_end(None, true, true, 100, 0, 1), FindEnd { no_match: false, toast_empty: false, watch: false });
}

#[test]
fn heading_paths_and_lines_come_from_the_styled_text() {
    assert_eq!(heading_path(Some(vec!["a".into(), "b.rs".into()]), "raw".into()), "a\nb.rs");
    assert_eq!(heading_path(None, "raw\x1b".into()), "raw\x1b");
    assert_eq!(heading_lines(Some(vec!["x".into(), "y".into()]), "raw".into()), vec!["x", "y"]);
    assert_eq!(heading_lines(None, "raw".into()), vec!["raw"]);
    assert_eq!(join_lines(&vec!["one".into(), "two".into(), "three".into()]), "one\ntwo\nthree");
    assert_eq!(join_lines(&vec![]), "");
}
