//! What a file listing does when its `fd` stream ends.

use vstd::prelude::*;

verus! {

/// What the end of a file listing's stream calls for.
#[derive(Debug, Clone, Copy, PartialEq, Eq, Structural)]
pub struct FindEnd {
    /// Tell the picker that nothing matched (the first empty listing only).
    pub no_match: bool,
    /// Toast that the listing is empty.
    pub toast_empty: bool,
    /// Switch the file watcher to the listed directory, recursively.
    pub watch: bool,
}

/// The end of an `fd` stream after `count` lines (`None` where reading
/// failed), `elapsed_ns` nanoseconds after it started: an empty first
/// listing reports no match, a later one toasts where `toast_on_empty` asks
/// for it; a listing under `threshold` items (or empty) that took less than
/// `time_threshold_ns` (0 for no limit) is watched for changes.
pub fn find_stream_end(
    count: Option<usize>,
    abort_empty: bool,
    toast_on_empty: bool,
    threshold: usize,
    time_threshold_ns: u128,
    elapsed_ns: u128,
) -> (r: FindEnd)
    ensures
        r.no_match == (count == Some(0usize) && abort_empty),
        r.toast_empty == (count == Some(0usize) && !abort_empty && toast_on_empty),
        r.watch == (count matches Some(c) && (c == 0 || c < threshold) && (time_threshold_ns == 0
            || elapsed_ns < time_threshold_ns)),
{
    let empty = match count {
        Some(c) => c == 0,
        None => false,
    };
    let watch = match count {
        Some(c) => (c == 0 || c < threshold) && (time_threshold_ns == 0 || elapsed_ns < time_threshold_ns),
        None => false,
    };
    FindEnd { no_match: empty && abort_empty, toast_empty: empty && !abort_empty && toast_on_empty, watch }
}

} // verus!
