//! Transient per-thread flags and values handed between handlers, and the
//! menu prompt configuration.

use vstd::prelude::*;

verus! {

/// The execute handler acts on the parent of the cursor item.
#[derive(Debug, Clone, Copy, PartialEq, Eq, Structural)]
pub struct ExecuteHandlerShouldProcessParent;

/// A pane's sort override was applied: the sort-value metadata column is
/// not shown.
#[derive(Debug, Clone, Copy, PartialEq, Eq, Structural)]
pub struct HideMetadata;

/// An empty listing does not abort.
#[derive(Debug, Clone, Copy, PartialEq, Eq, Structural)]
pub struct ShouldNotAbortOnEmpty;

/// The initial pane renders without a working directory.
#[derive(Debug, Clone, Copy, PartialEq, Eq, Structural)]
pub struct InitialNoRelative;

/// The initial query keeps its whitespace.
#[derive(Debug, Clone, Copy, PartialEq, Eq, Structural)]
pub struct InitialPreserveWhitespaceInSearch;

/// The query bar is active.
#[derive(Debug, Clone, Copy, PartialEq, Eq, Structural)]
pub struct InPrompt;

/// An accept resolved to printing the selection.
#[derive(Debug, Clone, Copy, PartialEq, Eq, Structural)]
pub struct AcceptFlavor;

/// The app cache was rebuilt already.
#[derive(Debug, Clone, Copy, PartialEq, Eq, Structural)]
pub struct RanRecache;

/// Extra `bat` arguments for the next paging.
#[derive(Debug, Clone)]
pub struct BatOpts(pub Vec<String>);

/// The input bar of the menu overlay.
#[derive(Debug, Clone)]
pub struct MenuPrompt {
    /// The prompt kind, by name.
    pub kind: String,
    pub title: String,
    pub initial: String,
    /// Cursor position in the input.
    pub cursor: usize,
}

impl MenuPrompt {
    /// A prompt of `kind`, titled by it, with empty input.
    pub fn new(kind: String) -> (p: Self)
        ensures
            p.kind@ == kind@,
            p.title@ == kind@,
            p.initial@.len() == 0,
            p.cursor == 0,
    {
        let title = kind.clone();
        MenuPrompt { kind, title, initial: String::new(), cursor: 0 }
    }

    /// The prompt with title `value`.
    pub fn title(self, value: String) -> (p: Self)
        ensures
            p.kind == self.kind,
            p.title@ == value@,
            p.initial == self.initial,
            p.cursor == self.cursor,
    {
        MenuPrompt { title: value, ..self }
    }

    /// The prompt with input `value` and the cursor just past its end: the
    /// cursor counts characters.
    pub fn initial(self, value: String) -> (p: Self)
        ensures
            p.kind == self.kind,
            p.title == self.title,
            p.initial@ == value@,
            p.cursor == value@.len(),
    {
        let n = value.as_str().unicode_len();
        MenuPrompt { initial: value, cursor: n, ..self }
    }

    /// The prompt with the cursor at `pos`.
    pub fn cursor(self, pos: usize) -> (p: Self)
        ensures
            p.kind == self.kind,
            p.title == self.title,
            p.initial == self.initial,
            p.cursor == pos,
    {
        MenuPrompt { cursor: pos, ..self }
    }
}

/// The per-thread store of transient values handed between handlers.
#[derive(Debug)]
pub struct StoreState {
    /// `bat` extras for the next paging, taken once.
    pub bat_opts: Option<BatOpts>,
    /// The next execute handler acts on the parent of the cursor item.
    pub process_parent: bool,
    /// The input bar the menu opens with.
    pub menu_prompt: Option<MenuPrompt>,
}

impl StoreState {
    /// An empty store.
    pub fn new() -> (s: Self)
        ensures
            s.bat_opts is None,
            !s.process_parent,
            s.menu_prompt is None,
    {
        StoreState { bat_opts: None, process_parent: false, menu_prompt: None }
    }
}

/// The operations on the store.
pub struct STORE;

impl STORE {
    /// Sets the `bat` extras for the next [`STORE::get_bat_opts`].
    pub fn set_bat_opts(store: &mut StoreState, opts: Vec<String>)
        ensures
            final(store).bat_opts matches Some(b) && b.0@ == opts@,
            final(store).process_parent == old(store).process_parent,
            final(store).menu_prompt == old(store).menu_prompt,
    {
        store.bat_opts = Some(BatOpts(opts));
    }

    /// Sets the menu's input bar when there is one; `None` leaves the store as it is.
    pub fn set_menu_prompt(store: &mut StoreState, menu_prompt: Option<MenuPrompt>)
        ensures
            final(store).menu_prompt == (if menu_prompt is Some { menu_prompt } else { old(store).menu_prompt }),
            final(store).bat_opts == old(store).bat_opts,
            final(store).process_parent == old(store).process_parent,
    {
        if let Some(p) = menu_prompt {
            store.menu_prompt = Some(p);
        }
    }

    /// The `bat` arguments for a paging: the configured `base` followed by
    /// the extras taken from the store; `None` when either is absent. The
    /// extras are taken in any case, so a second call finds none.
    pub fn get_bat_opts(store: &mut StoreState, base: Option<Vec<String>>) -> (r: Option<Vec<String>>)
        ensures
            final(store).bat_opts is None,
            final(store).process_parent == old(store).process_parent,
            final(store).menu_prompt == old(store).menu_prompt,
            match (old(store).bat_opts, base) {
                (Some(e), Some(b)) => r matches Some(v) && v@ == b@ + e.0@,
                _ => r is None,
            },
    {
        let extra = store.bat_opts.take();
        match (extra, base) {
            (Some(BatOpts(mut extra)), Some(mut opts)) => {
                opts.append(&mut extra);
                Some(opts)
            },
            _ => None,
        }
    }
}

} // verus!
