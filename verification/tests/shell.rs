use fist::shell::{
    default_dir_widget_bind, default_file_widget_bind, default_rg_widget_bind, filter_by_tag,
    generate_nushell_keybindings, parse_nushell_key,
};

#[test]
fn toggle_blocks_and_keep_no_hash() {
    let input = "\
visible
#: foo
inside foo
interior #: foo
#:bar
hidden line
#:
  # trimmed
visible again
hidden #: bar
shown #: bar,foo
";

    let foo = "\
visible
inside foo
interior
visible again
shown";

    assert_eq!(filter_by_tag(input, "foo"), foo);

    let no_tag = "\
visible
visible again";
    assert_eq!(filter_by_tag(input, ""), no_tag);
}

#[test]
fn test_default_widget_binds() {
    assert_eq!(default_dir_widget_bind("zsh"), "^[[1;2D");
    assert_eq!(default_dir_widget_bind("bash"), "\\e[1;2D");
    assert_eq!(default_dir_widget_bind("fish"), "\\e[1;2D");
    assert_eq!(default_dir_widget_bind("nu"), "shift+left");

    assert_eq!(default_file_widget_bind("zsh"), "^[[1;2C");
    assert_eq!(default_file_widget_bind("bash"), "\\e[1;2C");
    assert_eq!(default_file_widget_bind("fish"), "\\e[1;2C");
    assert_eq!(default_file_widget_bind("nu"), "shift+right");

    assert_eq!(default_rg_widget_bind("zsh"), "^[[1;2B");
    assert_eq!(default_rg_widget_bind("bash"), "\\e[1;2B");
    assert_eq!(default_rg_widget_bind("fish"), "\\e[1;2B");
    assert_eq!(default_rg_widget_bind("nu"), "shift+down");
}

#[test]
fn test_parse_nushell_key() {
    assert_eq!(parse_nushell_key("shift+left"), Some(("shift".to_string(), "left".to_string())));
    assert_eq!(
        parse_nushell_key("control+shift+down"),
        Some(("[control shift]".to_string(), "down".to_string()))
    );
    assert_eq!(
        parse_nushell_key("control+alt+shift+k"),
        Some(("[control alt shift]".to_string(), "k".to_string()))
    );
    assert_eq!(parse_nushell_key("alt+enter"), Some(("alt".to_string(), "enter".to_string())));
    assert_eq!(parse_nushell_key("f1"), Some(("none".to_string(), "f1".to_string())));
    assert_eq!(parse_nushell_key(""), None);
    assert_eq!(parse_nushell_key("   "), None);
}

#[test]
fn nushell_key_ignores_empty_parts_and_spaces() {
    assert_eq!(
        parse_nushell_key(" shift + + left "),
        Some(("shift".to_string(), "left".to_string()))
    );
    assert_eq!(parse_nushell_key("+"), None);
    assert_eq!(parse_nushell_key("nushell"), Some(("none".to_string(), "nushell".to_string())));
}

#[test]
fn nushell_binds_apply_to_nushell_tag() {
    assert_eq!(default_dir_widget_bind("nushell"), "shift+left");
    assert_eq!(default_rg_widget_bind(""), "^[[1;2B");
}

#[test]
fn filter_drops_crlf_and_comment_lines() {
    assert_eq!(filter_by_tag("a\r\n# note\r\nb", "x"), "a\nb");
    assert_eq!(filter_by_tag("", "x"), "");
    assert_eq!(filter_by_tag("keep #: x\nskip #: y", "x"), "keep");
    assert_eq!(filter_by_tag("#: x,y\nin\n#:\nout", "y"), "in\nout");
}

#[test]
fn nushell_block_is_empty_without_binds() {
    assert_eq!(generate_nushell_keybindings(None, None, None), "");
}

#[test]
fn nushell_block_holds_each_bound_widget() {
    let block = generate_nushell_keybindings(
        Some(("shift".to_string(), "left".to_string())),
        None,
        Some(("[control shift]".to_string(), "down".to_string())),
    );
    assert!(block.starts_with("export-env {\n    $env.config = ("));
    assert!(block.contains("name: fist_dir_widget\n                modifier: shift\n                keycode: left\n"));
    assert!(block.contains("cmd: \"__fist_dir_widget\""));
    assert!(!block.contains("fist_file_widget"));
    assert!(block.contains("modifier: [control shift]\n                keycode: down\n"));
    assert!(block.ends_with("            }\n        ]\n    )\n}"));
}

use fist::shell::{generate_shell, ShellCommand};

fn command(shell: Option<&str>, aliases: bool) -> ShellCommand {
    ShellCommand {
        z_name: "z".to_string(),
        z_dot_args: "dot".to_string(),
        z_slash_args: "slash".to_string(),
        z_dir_args: "dir".to_string(),
        open_name: "o".to_string(),
        open_cmd: "open".to_string(),
        dir_widget_bind: None,
        file_widget_bind: Some("ctrl+f".to_string()),
        rg_widget_bind: None,
        file_open_cmd: None,
        rg_open_cmd: Some("rgopen".to_string()),
        dir_widget_args: "da".to_string(),
        file_widget_args: "fa".to_string(),
        rg_widget_args: "ra".to_string(),
        aliases,
        nav_name: "nav".to_string(),
        shell: shell.map(|s| s.to_string()),
    }
}

#[test]
fn shell_script_placeholders_are_filled() {
    let script = "alias $${Z_NAME}=$${BINARY_PATH}\nbind $${DIRW_BIND} #: zsh,bash\nbind $${FILEW_BIND} $${FILEW_CMD} $${RGW_CMD}\n#: fish\nfish only\n#:\n$${NU_KEYBINDINGS_BLOCK}";
    let out = generate_shell(&command(Some("bash"), false), "/bin/fs", script, "", "zsh");
    assert_eq!(out, "alias z=/bin/fs\nbind \\e[1;2D\nbind ctrl+f open rgopen\n");
    let out = generate_shell(&command(None, true), "/bin/fs", script, "ll #: zsh", "zsh");
    assert_eq!(out, "alias z=/bin/fs\nbind ^[[1;2D\nbind ctrl+f open rgopen\n\n\nll");
}

#[test]
fn nushell_script_gets_the_keybinding_block() {
    let out = generate_shell(&command(Some("nu"), false), "/bin/fs", "$${NU_KEYBINDINGS_BLOCK}", "", "zsh");
    assert!(out.starts_with("export-env {"));
    assert!(out.contains("modifier: shift\n                keycode: left"));
    assert!(out.contains("modifier: ctrl\n                keycode: f\n"));
}
