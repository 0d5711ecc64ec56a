//! The query prompt: which prompt line the query bar shows, and the
//! prompt-mode transitions with what the front end does on each.

use vstd::prelude::*;

verus! {

/// The prompt line the query bar shows.
#[derive(Debug, Clone, PartialEq, Eq)]
pub enum PromptLine {
    /// The configured directory prompt, formatted with the current directory.
    Directory,
    /// The configured default prompt.
    Default,
    /// A fixed text in the main prompt style.
    Fixed(String),
    /// The pane's configured prompt, or the default text when it has none,
    /// in the pane's style, or the default style when it has none.
    Pane { prompt: Option<String>, styled: bool },
}

/// The prompt line: with the cursor disabled, the directory prompt (the
/// default without a directory); otherwise `d: ` or `f: ` when only
/// directories or only files are shown, else the pane's own prompt when it
/// configures a prompt or a style, else the default.
pub fn prompt_line(
    cursor_disabled: bool,
    has_cwd: bool,
    dirs: bool,
    files: bool,
    pane_prompt: Option<String>,
    pane_styled: bool,
) -> (p: PromptLine)
    ensures
        cursor_disabled ==> p == (if has_cwd { PromptLine::Directory } else { PromptLine::Default }),
        !cursor_disabled && dirs && !files ==> (p matches PromptLine::Fixed(t) && t@ == "d: "@),
        !cursor_disabled && files && !dirs ==> (p matches PromptLine::Fixed(t) && t@ == "f: "@),
        !cursor_disabled && dirs == files ==> p == (if pane_prompt is None && !pane_styled {
            PromptLine::Default
        } else {
            PromptLine::Pane { prompt: pane_prompt, styled: pane_styled }
        }),
{
    if cursor_disabled {
        if has_cwd {
            PromptLine::Directory
        } else {
            PromptLine::Default
        }
    } else if dirs && !files {
        PromptLine::Fixed("d: ".to_string())
    } else if files && !dirs {
        PromptLine::Fixed("f: ".to_string())
    } else if pane_prompt.is_none() && !pane_styled {
        PromptLine::Default
    } else {
        PromptLine::Pane { prompt: pane_prompt, styled: pane_styled }
    }
}

/// What the front end does on a prompt transition.
#[derive(Debug, Clone, Copy, PartialEq, Eq, Structural)]
pub struct PromptEffects {
    /// Push (`Some(true)`) or pop (`Some(false)`) the `prompt` bind mode.
    pub mode: Option<bool>,
    /// Whether the query bar shows its border (the prompt-mode indicator).
    pub show_border: bool,
    /// Whether to stash the preview's visibility (restoring it on leave, hiding it on entry).
    pub stash_preview: bool,
    /// Whether to set the results cursor's disabled state to `disable_cursor`.
    pub set_cursor: bool,
    pub disable_cursor: bool,
}

/// The bind-mode change of a move from `was` to `now`: a push on entry, a
/// pop on leave, none otherwise, so the mode stack stays balanced.
pub open spec fn mode_change(was: bool, now: bool) -> Option<bool> {
    if was == now {
        None
    } else {
        Some(now)
    }
}

/// Enter (`enter`) or leave the prompt mode. Leaving restores the
/// preview's visibility and re-enables a disabled cursor.
pub fn lock_prompt(in_prompt: &mut bool, enter: bool, cursor_disabled: bool) -> (e: PromptEffects)
    ensures
        *final(in_prompt) == enter,
        e.mode == mode_change(*old(in_prompt), enter),
        e.show_border == enter,
        e.stash_preview == !enter,
        e.set_cursor == (!enter && cursor_disabled),
        !e.disable_cursor,
{
    let was = *in_prompt;
    *in_prompt = enter;
    let mode = if was != enter {
        Some(enter)
    } else {
        None
    };
    PromptEffects {
        mode,
        show_border: enter,
        stash_preview: !enter,
        set_cursor: !enter && cursor_disabled,
        disable_cursor: false,
    }
}

/// Enter the prompt with the cursor locked onto the current directory;
/// `None`, and nothing changes, without a directory. The preview is hidden
/// when the configuration asks so for a disabled cursor, there is a
/// preview, and the cursor was enabled.
pub fn enter_prompt(
    in_prompt: &mut bool,
    has_cwd: bool,
    cursor_disabled: bool,
    hide_preview: bool,
    has_preview: bool,
) -> (e: Option<PromptEffects>)
    ensures
        !has_cwd ==> e is None && *final(in_prompt) == *old(in_prompt),
        has_cwd ==> *final(in_prompt) && e == Some(
            PromptEffects {
                mode: mode_change(*old(in_prompt), true),
                show_border: true,
                stash_preview: !cursor_disabled && hide_preview && has_preview,
                set_cursor: true,
                disable_cursor: true,
            },
        ),
{
    if !has_cwd {
        return None;
    }
    let was = *in_prompt;
    *in_prompt = true;
    Some(
        PromptEffects {
            mode: if was {
                None
            } else {
                Some(true)
            },
            show_border: true,
            stash_preview: !cursor_disabled && hide_preview && has_preview,
            set_cursor: true,
            disable_cursor: true,
        },
    )
}

/// The depth of the `prompt` bind mode after a mode change.
pub open spec fn depth_after(depth: int, change: Option<bool>) -> int {
    match change {
        Some(true) => depth + 1,
        Some(false) => depth - 1,
        None => depth,
    }
}

/// The bind-mode stack mirrors the prompt state: when the `prompt` mode is
/// pushed exactly while in the prompt before a transition, it is after.
pub proof fn lemma_mode_stack_balanced(depth: int, was: bool, now: bool)
    requires
        depth == (if was { 1int } else { 0int }),
    ensures
        depth_after(depth, mode_change(was, now)) == (if now { 1int } else { 0int }),
{
}

} // verus!
