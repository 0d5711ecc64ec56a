use fist::run::item::{pack_loc, rg_env, unpack_loc};

#[test]
fn locations_pack_line_high_and_column_low() {
    assert_eq!(pack_loc(42, 10), (42u64 << 32) | 10);
    assert_eq!(unpack_loc((42u64 << 32) | 10), (42, 10));
    assert_eq!(unpack_loc(u64::MAX), (u32::MAX, u32::MAX));
}

#[test]
fn stored_locations_read_back() {
    for (line, col) in [(0, 0), (1, 0), (0, 1), (u32::MAX, 7), (123_456, u32::MAX)] {
        assert_eq!(unpack_loc(pack_loc(line, col)), (line, col));
    }
}

fn pairs(v: &[(String, String)]) -> Vec<(&str, &str)> {
    v.iter().map(|(k, x)| (k.as_str(), x.as_str())).collect()
}

#[test]
fn rg_panes_export_the_match_location() {
    assert_eq!(
        pairs(&rg_env(Some((42, 10)), Some(7))),
        vec![("HIGHLIGHT_LINE", "42"), ("HIGHLIGHT_COLUMN", "10"), ("SCROLL_LINE", "7")]
    );
    assert_eq!(pairs(&rg_env(Some((3, 0)), None)), vec![("HIGHLIGHT_LINE", "3")]);
    assert_eq!(pairs(&rg_env(None, Some(0))), vec![("SCROLL_LINE", "0")]);
    assert!(rg_env(None, None).is_empty());
}

use fist::run::item::{render_path, PathColor, PathDisplayCfg, PathIcon, PathStyle};

fn cfg(relative: bool, collapse_home: bool, colors: bool, icons: bool, icon_colors: bool) -> PathDisplayCfg {
    PathDisplayCfg {
        relative,
        collapse_home,
        dir_colors: colors,
        file_colors: colors,
        dir_icons: icons,
        file_icons: icons,
        icon_colors,
    }
}

#[test]
fn test_render_logical_paths() {
    let home = "/home/u";
    let cwd = "/home/u/proj";
    let path_in_cwd = "/home/u/proj/src/main.rs";
    let path_in_home = "/home/u/.config/app.conf";
    let absolute_path = "/var/log/syslog";

    let config = cfg(true, true, true, true, true);
    let rendered = render_path(config, path_in_cwd, Some(cwd), home, false, false, true);
    assert_eq!((rendered.icon, rendered.text.as_str()), (Some(PathIcon::OfFile), "src/main.rs"));
    let rendered = render_path(config, path_in_home, Some(cwd), home, false, false, true);
    assert_eq!((rendered.icon, rendered.text.as_str()), (Some(PathIcon::OfFile), "~/.config/app.conf"));
    let rendered = render_path(config, absolute_path, Some(cwd), home, false, false, true);
    assert_eq!((rendered.icon, rendered.text.as_str()), (Some(PathIcon::OfFile), "/var/log/syslog"));

    let config = cfg(false, false, false, false, false);
    let rendered = render_path(config, path_in_home, Some(cwd), home, false, false, true);
    assert_eq!(rendered.text, path_in_home);
    assert_eq!(rendered.icon, None);
    assert_eq!(rendered.style, None);
    let rendered = render_path(config, path_in_cwd, Some(cwd), home, false, false, true);
    assert_eq!(rendered.text, path_in_cwd);

    let config = cfg(true, true, false, false, false);
    let rendered = render_path(config, path_in_cwd, Some(cwd), home, false, false, true);
    assert_eq!(rendered.text, "src/main.rs");

    let rendered = render_path(config, home, Some(cwd), home, true, false, true);
    assert_eq!(rendered.text, "~");
}

#[test]
fn special_directories_render_short() {
    let home = "/home/u";
    let cwd = "/home/u/proj";
    let c = cfg(true, true, false, false, false);
    assert_eq!(render_path(c, cwd, Some(cwd), home, true, false, true).text, ".");
    assert_eq!(render_path(c, "/etc/x", None, home, false, false, true).text, "/etc/x");
    let home_dir = render_path(cfg(false, true, true, true, true), home, Some("/"), home, true, false, true);
    assert_eq!(home_dir.text, "~");
    assert_eq!(home_dir.icon, Some(PathIcon::Home));
    assert!(home_dir.icon_only_styled);
}

#[test]
fn render_styles_follow_the_file_kind() {
    let c = cfg(false, false, true, true, false);
    let d = render_path(c, "/d", None, "/h", true, false, true);
    assert_eq!(d.icon, Some(PathIcon::OfFile));
    assert_eq!(d.style, Some(PathStyle { category: false, fg: Some(PathColor::LightBlue) }));
    assert!(!d.icon_only_styled);
    let l = render_path(c, "/d", None, "/h", true, true, true);
    assert_eq!(l.style.unwrap().fg, Some(PathColor::LightCyan));
    let f = render_path(c, "/f", None, "/h", false, false, true);
    assert_eq!(f.style, Some(PathStyle { category: true, fg: None }));
    let broken = render_path(c, "/f", None, "/h", false, true, false);
    assert_eq!(broken.style.unwrap().fg, Some(PathColor::Red));
    let none = render_path(cfg(false, false, false, false, false), "/f", None, "/h", false, true, false);
    assert_eq!(none.style, None);
    assert_eq!(none.icon, None);
}
