//! The metadata word of a picker item: in ripgrep panes it packs the match
//! location, the line in the high half and the column in the low half;
//! sorted panes keep their sort value in it, and all bits set means unset.

use vstd::prelude::*;
use crate::text::{decimal, usize_to_decimal};

verus! {

/// The word a location is stored as: the line in the high 32 bits, the
/// column in the low 32 bits.
pub open spec fn loc_word(line: u32, col: u32) -> int {
    line * 0x1_0000_0000 + col
}

/// The metadata word of the location `(line, col)`.
pub fn pack_loc(line: u32, col: u32) -> (v: u64)
    ensures
        v == loc_word(line, col),
{
    let v: u64 = ((line as u64) << 32u64) | (col as u64);
    assert(v == (line as u64) * 0x1_0000_0000u64 + (col as u64)) by (bit_vector)
        requires
            v == ((line as u64) << 32u64) | (col as u64),
    ;
    v
}

/// The location a metadata word holds: the high half as the line, the low
/// half as the column.
pub fn unpack_loc(v: u64) -> (r: (u32, u32))
    ensures
        r.0 == v / 0x1_0000_0000,
        r.1 == v % 0x1_0000_0000,
{
    let line: u32 = (v >> 32u64) as u32;
    let col: u32 = (v & 0xFFFF_FFFFu64) as u32;
    assert((v >> 32u64) as u32 == v / 0x1_0000_0000u64 && (v & 0xFFFF_FFFFu64) as u32 == v % 0x1_0000_0000u64)
        by (bit_vector);
    (line, col)
}

/// A stored location reads back as itself.
pub proof fn lemma_loc_round_trip(line: u32, col: u32)
    ensures
        loc_word(line, col) / 0x1_0000_0000 == line,
        loc_word(line, col) % 0x1_0000_0000 == col,
{
    assert((line * 0x1_0000_0000 + col) / 0x1_0000_0000 == line as int) by (nonlinear_arith)
        requires
            col < 0x1_0000_0000,
    ;
    assert((line * 0x1_0000_0000 + col) % 0x1_0000_0000 == col as int) by (nonlinear_arith)
        requires
            col < 0x1_0000_0000,
    ;
}

/// The environment an execute command gets in a ripgrep pane: the
/// highlighted match line, its column unless it is `0`, and the preview's
/// scroll offset when there is a preview.
pub open spec fn rg_env_spec(loc: Option<(u32, u32)>, scroll: Option<usize>) -> Seq<(Seq<char>, Seq<char>)> {
    let at = match loc {
        Some((line, col)) => seq![("HIGHLIGHT_LINE"@, decimal(line as nat))] + if col != 0 {
            seq![("HIGHLIGHT_COLUMN"@, decimal(col as nat))]
        } else {
            Seq::empty()
        },
        None => Seq::empty(),
    };
    at + match scroll {
        Some(o) => seq![("SCROLL_LINE"@, decimal(o as nat))],
        None => Seq::empty(),
    }
}

/// The environment pairs of a ripgrep pane, for the cursor item's location
/// `loc` and the preview's scroll offset `scroll`.
pub fn rg_env(loc: Option<(u32, u32)>, scroll: Option<usize>) -> (vars: Vec<(String, String)>)
    ensures
        vars@.map_values(|e: (String, String)| (e.0@, e.1@)) == rg_env_spec(loc, scroll),
{
    let mut vars: Vec<(String, String)> = Vec::new();
    if let Some((line, col)) = loc {
        vars.push(("HIGHLIGHT_LINE".to_string(), usize_to_decimal(line as usize)));
        if col != 0 {
            vars.push(("HIGHLIGHT_COLUMN".to_string(), usize_to_decimal(col as usize)));
        }
    }
    if let Some(o) = scroll {
        vars.push(("SCROLL_LINE".to_string(), usize_to_decimal(o)));
    }
    assert(vars@.map_values(|e: (String, String)| (e.0@, e.1@)) =~= rg_env_spec(loc, scroll));
    vars
}

} // verus!

verus! {

/// The part of `path` below `base`, as `Path::strip_prefix` gives it (by
/// whole components); `None` when `base` is not a prefix.
pub uninterp spec fn path_strip(path: Seq<char>, base: Seq<char>) -> Option<Seq<char>>;

/// `Path::strip_prefix`, the remainder as text.
#[verifier::external_body]
fn strip_path_prefix(path: &str, base: &str) -> (r: Option<String>)
    ensures
        match r {
            Some(s) => path_strip(path@, base@) == Some(s@),
            None => path_strip(path@, base@) is None,
        },
{
    std::path::Path::new(path).strip_prefix(base).ok().map(|p| p.to_string_lossy().into_owned())
}

/// How paths are displayed.
#[derive(Debug, Clone, Copy, PartialEq, Eq, Structural)]
pub struct PathDisplayCfg {
    /// Paths below the working directory show relative to it.
    pub relative: bool,
    /// A leading home directory shows as `~`.
    pub collapse_home: bool,
    pub dir_colors: bool,
    pub file_colors: bool,
    pub dir_icons: bool,
    pub file_icons: bool,
    /// With icons and colours, only the icon is coloured.
    pub icon_colors: bool,
}

/// The icon shown before a path.
#[derive(Debug, Clone, Copy, PartialEq, Eq, Structural)]
pub enum PathIcon {
    /// The home icon.
    Home,
    /// The icon of the file by its name and type.
    OfFile,
}

/// A foreground colour of a path.
#[derive(Debug, Clone, Copy, PartialEq, Eq, Structural)]
pub enum PathColor {
    LightBlue,
    LightCyan,
    Red,
}

/// The style of a path: the style of the file's category (for files),
/// with a foreground colour over it.
#[derive(Debug, Clone, Copy, PartialEq, Eq, Structural)]
pub struct PathStyle {
    pub category: bool,
    pub fg: Option<PathColor>,
}

/// A rendered path: its text, the icon before it, its style, and whether
/// only the icon carries the style (the text then stays plain).
#[derive(Debug, Clone, PartialEq, Eq)]
pub struct RenderedPath {
    pub text: String,
    pub icon: Option<PathIcon>,
    pub style: Option<PathStyle>,
    pub icon_only_styled: bool,
}

/// The text of `path` relative to `cwd` when so configured: the remainder
/// below `cwd`, or `.` for `cwd` itself.
pub open spec fn relative_text(relative: bool, path: Seq<char>, cwd: Option<Seq<char>>) -> Seq<char> {
    match cwd {
        Some(c) => if relative && path_strip(path, c) is Some {
            let s = path_strip(path, c)->Some_0;
            if s.len() == 0 {
                "."@
            } else {
                s
            }
        } else {
            path
        },
        None => path,
    }
}

/// The rendering of a path: the relative text with a leading home
/// collapsed to `~` (home itself renders as `~` with the home icon, in the
/// directory colour); directories in light blue (light cyan for a link)
/// with the file icon, files in their category style with a link in light
/// cyan (red when it points nowhere); each part only as configured.
pub open spec fn render_spec(
    cfg: PathDisplayCfg,
    path: Seq<char>,
    cwd: Option<Seq<char>>,
    home: Seq<char>,
    is_dir: bool,
    is_symlink: bool,
    exists: bool,
) -> (Seq<char>, Option<PathIcon>, Option<PathStyle>, bool) {
    let p = relative_text(cfg.relative, path, cwd);
    let at_home = cfg.collapse_home && path_strip(p, home) is Some;
    if at_home && path_strip(p, home)->Some_0.len() == 0 {
        (
            "~"@,
            if cfg.dir_icons { Some(PathIcon::Home) } else { None },
            if cfg.dir_colors { Some(PathStyle { category: false, fg: Some(PathColor::LightBlue) }) } else { None },
            cfg.dir_colors && cfg.dir_icons && cfg.icon_colors,
        )
    } else {
        let text = if at_home { "~/"@ + path_strip(p, home)->Some_0 } else { p };
        if is_dir {
            (
                text,
                if cfg.dir_icons { Some(PathIcon::OfFile) } else { None },
                if cfg.dir_colors {
                    Some(PathStyle {
                        category: false,
                        fg: Some(if is_symlink { PathColor::LightCyan } else { PathColor::LightBlue }),
                    })
                } else {
                    None
                },
                cfg.dir_colors && cfg.dir_icons && cfg.icon_colors,
            )
        } else {
            (
                text,
                if cfg.file_icons { Some(PathIcon::OfFile) } else { None },
                if cfg.file_colors {
                    Some(PathStyle {
                        category: true,
                        fg: if !is_symlink { None } else if exists { Some(PathColor::LightCyan) } else { Some(PathColor::Red) },
                    })
                } else {
                    None
                },
                cfg.file_colors && cfg.file_icons && cfg.icon_colors,
            )
        }
    }
}

/// Renders `path` under `cfg`: relative to `cwd` (none for the initial
/// pane), with the home directory `home` collapsed, and its icon and style
/// chosen by whether it is a directory, a link, and exists.
pub fn render_path(
    cfg: PathDisplayCfg,
    path: &str,
    cwd: Option<&str>,
    home: &str,
    is_dir: bool,
    is_symlink: bool,
    exists: bool,
) -> (r: RenderedPath)
    ensures
        ({
            let s = render_spec(
                cfg,
                path@,
                match cwd {
                    Some(c) => Some(c@),
                    None => None,
                },
                home@,
                is_dir,
                is_symlink,
                exists,
            );
            &&& r.text@ == s.0
            &&& r.icon == s.1
            &&& r.style == s.2
            &&& r.icon_only_styled == s.3
        }),
{
    let mut p = path.to_string();
    if cfg.relative {
        if let Some(c) = cwd {
            if let Some(s) = strip_path_prefix(path, c) {
                p = if s.unicode_len() == 0 {
                    ".".to_string()
                } else {
                    s
                };
            }
        }
    }
    let stripped = if cfg.collapse_home {
        strip_path_prefix(p.as_str(), home)
    } else {
        None
    };
    if let Some(s) = &stripped {
        if s.unicode_len() == 0 {
            return RenderedPath {
                text: "~".to_string(),
                icon: if cfg.dir_icons { Some(PathIcon::Home) } else { None },
                style: if cfg.dir_colors {
                    Some(PathStyle { category: false, fg: Some(PathColor::LightBlue) })
                } else {
                    None
                },
                icon_only_styled: cfg.dir_colors && cfg.dir_icons && cfg.icon_colors,
            };
        }
    }
    let text = match stripped {
        Some(s) => {
            let mut t = "~/".to_string();
            t.append(s.as_str());
            t
        },
        None => p,
    };
    if is_dir {
        RenderedPath {
            text,
            icon: if cfg.dir_icons { Some(PathIcon::OfFile) } else { None },
            style: if cfg.dir_colors {
                Some(PathStyle {
                    category: false,
                    fg: Some(if is_symlink { PathColor::LightCyan } else { PathColor::LightBlue }),
                })
            } else {
                None
            },
            icon_only_styled: cfg.dir_colors && cfg.dir_icons && cfg.icon_colors,
        }
    } else {
        RenderedPath {
            text,
            icon: if cfg.file_icons { Some(PathIcon::OfFile) } else { None },
            style: if cfg.file_colors {
                Some(PathStyle {
                    category: true,
                    fg: if !is_symlink {
                        None
                    } else if exists {
                        Some(PathColor::LightCyan)
                    } else {
                        Some(PathColor::Red)
                    },
                })
            } else {
                None
            },
            icon_only_styled: cfg.file_colors && cfg.file_icons && cfg.icon_colors,
        }
    }
}

} // verus!
