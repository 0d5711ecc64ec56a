//! Transient values handed from one handler to the next: the previous
//! directory and the original relative-path setting.

use vstd::prelude::*;

verus! {

/// The per-thread transient values.
#[derive(Debug)]
pub struct TempState {
    /// The directory left by the last navigation.
    pub prev_dir: Option<String>,
    /// Whether paths were shown relative at start.
    pub original_relative_path: Option<bool>,
}

impl TempState {
    /// Nothing stored.
    pub fn new() -> (t: Self)
        ensures
            t.prev_dir is None,
            t.original_relative_path is None,
    {
        TempState { prev_dir: None, original_relative_path: None }
    }
}

/// Access to the transient values.
pub struct TEMP;

impl TEMP {
    /// Takes the previous directory, leaving none.
    pub fn take_prev_dir(t: &mut TempState) -> (r: Option<String>)
        ensures
            r == old(t).prev_dir,
            final(t).prev_dir is None,
            final(t).original_relative_path == old(t).original_relative_path,
    {
        t.prev_dir.take()
    }

    /// Stores the previous directory.
    pub fn set_prev_dir(t: &mut TempState, path: Option<String>)
        ensures
            final(t).prev_dir == path,
            final(t).original_relative_path == old(t).original_relative_path,
    {
        t.prev_dir = path;
    }

    /// Records whether paths were shown relative at start.
    pub fn set_initial_relative_path(t: &mut TempState, relative: bool)
        ensures
            final(t).original_relative_path == Some(relative),
            final(t).prev_dir == old(t).prev_dir,
    {
        t.original_relative_path = Some(relative);
    }

    /// Takes the recorded relative-path setting, leaving none.
    pub fn take_original_relative_path(t: &mut TempState) -> (r: Option<bool>)
        ensures
            r == old(t).original_relative_path,
            final(t).original_relative_path is None,
            final(t).prev_dir == old(t).prev_dir,
    {
        t.original_relative_path.take()
    }
}

} // verus!
