//! The shared queue: its rows, and the operations of the queue overlay
//! (enqueueing, view edits, selector matching and clearing).

use vstd::prelude::*;
use crate::menu::MenuActions;
use crate::collections::entry_index;
use crate::run::queue::selector::{
    QueueSelector, is_builtin, is_builtin_kind, is_dest, is_dest_kind, valid_kind_spec,
};
use crate::run::queue::status::{QueueItemState, QueueItemStatus};
use crate::seqs::{indices_where, lemma_indices_where};
use crate::text::{
    clone_strings, first_index, lemma_first_index, lemma_first_index_is, str_eq, vec_swap,
};
use vstd::pervasive::VecAdditionalExecFns;

verus! {

/// One queued operation.
#[derive(Debug)]
pub struct QueueItem {
    /// A builtin kind (`copy`, `move`, `symlink`, `none`) or a menu action key.
    pub kind: String,
    /// Source paths: one for builtin kinds, any number for custom kinds.
    pub src: Vec<String>,
    pub status: QueueItemStatus,
    /// Destination; empty means the navigation directory.
    pub dst: String,
}

/// The model of a queue row.
pub struct QueueRow {
    pub kind: Seq<char>,
    pub src: Seq<Seq<char>>,
    pub status: QueueItemStatus,
    pub dst: Seq<char>,
}

/// The model of an item.
pub open spec fn row_of(it: QueueItem) -> QueueRow {
    QueueRow { kind: it.kind@, src: it.src.deep_view(), status: it.status, dst: it.dst@ }
}

/// A fresh pending row of `kind` over `src`.
pub open spec fn new_row(kind: Seq<char>, src: Seq<Seq<char>>, size: u64) -> QueueRow {
    QueueRow {
        kind,
        src,
        status: QueueItemStatus { state: QueueItemState::Pending, progress: 0, size },
        dst: Seq::empty(),
    }
}

impl QueueItem {
    /// A pending single-path row; `size` is the source's size in bytes.
    pub fn new(kind: String, src: String, size: u64) -> (it: Self)
        ensures
            row_of(it) == new_row(kind@, seq![src@], size),
    {
        let mut v: Vec<String> = Vec::new();
        v.push(src);
        let it = QueueItem { kind, src: v, status: QueueItemStatus::new(size), dst: String::new() };
        assert(it.src.deep_view() =~= seq![src@]);
        it
    }
}

/// The text a row shows for its sources: nothing, the one source with the
/// home directory abbreviated, or the number of sources.
pub open spec fn display_spec(src: Seq<Seq<char>>, home: Seq<char>) -> Seq<char> {
    if src.len() == 0 {
        Seq::empty()
    } else if src.len() == 1 {
        crate::paths::short_path(src[0], home)
    } else {
        "["@ + crate::text::decimal(src.len()) + " items]"@
    }
}

impl QueueItem {
    /// The row's sources as shown: nothing, the one source with `home`
    /// abbreviated to `~`, or `[n items]`.
    pub fn display(&self, home: &str) -> (s: String)
        ensures
            s@ == display_spec(self.src.deep_view(), home@),
    {
        let n = self.src.len();
        if n == 0 {
            String::new()
        } else if n == 1 {
            crate::paths::display_short(self.src[0].as_str(), home)
        } else {
            let mut s = String::new();
            s.append("[");
            crate::text::push_decimal(&mut s, n);
            s.append(" items]");
            s
        }
    }
}

/// The shared queue state.
#[derive(Debug)]
pub struct QueueState {
    /// Rows added under a queue kind.
    pub shared: Vec<QueueItem>,
    /// Kept inert: nothing reads it.
    pub revert: Vec<(usize, String)>,
    /// Kept inert: nothing reads it.
    pub mode: usize,
}

/// Whether `r` is a pending single-path row of `kind` over `path`: the row
/// a builtin enqueue of `path` replaces.
pub open spec fn is_pending_dup(r: QueueRow, kind: Seq<char>, path: Seq<char>) -> bool {
    r.src.len() == 1 && r.src[0] == path && r.kind == kind && r.status.state
        == QueueItemState::Pending
}

/// Enqueueing one path under a builtin kind: a pending duplicate (the first)
/// is removed, and a fresh row goes to the tail.
pub open spec fn enqueue_one(rows: Seq<QueueRow>, kind: Seq<char>, path: Seq<char>, size: u64) -> Seq<
    QueueRow,
> {
    let i = first_index(rows, dup_of(kind, path));
    let rest = if i >= 0 {
        rows.remove(i)
    } else {
        rows
    };
    rest.push(new_row(kind, seq![path], size))
}

/// Enqueueing `paths` one by one under a builtin kind.
pub open spec fn enqueue_builtin(
    rows: Seq<QueueRow>,
    kind: Seq<char>,
    paths: Seq<Seq<char>>,
    sizes: Seq<u64>,
) -> Seq<QueueRow>
    decreases paths.len(),
{
    if paths.len() == 0 || sizes.len() == 0 {
        rows
    } else {
        enqueue_one(
            enqueue_builtin(rows, kind, paths.drop_last(), sizes.drop_last()),
            kind,
            paths.last(),
            sizes.last(),
        )
    }
}

/// The rows after enqueueing `paths` under `kind`: nothing for no paths,
/// one row per path for a builtin kind, one multi-path row otherwise.
pub open spec fn enqueue_spec(
    rows: Seq<QueueRow>,
    kind: Seq<char>,
    paths: Seq<Seq<char>>,
    sizes: Seq<u64>,
) -> Seq<QueueRow> {
    if paths.len() == 0 {
        rows
    } else if is_builtin_kind(kind) {
        enqueue_builtin(rows, kind, paths, sizes)
    } else {
        rows.push(new_row(kind, paths, sizes[0]))
    }
}

impl QueueState {
    /// The rows, in order.
    pub open spec fn rows(&self) -> Seq<QueueRow> {
        self.shared@.map_values(|it: QueueItem| row_of(it))
    }

    /// An empty queue.
    pub fn new() -> (s: Self)
        ensures
            s.shared@.len() == 0,
            s.revert@.len() == 0,
            s.mode == 0,
    {
        QueueState { shared: Vec::new(), revert: Vec::new(), mode: 0 }
    }

    /// The row indices visible under the kind filter `kind` (all rows for `None`).
    pub fn visible_indices(&self, kind: Option<&str>) -> (v: Vec<usize>)
        ensures
            v@ == indices_where(self.rows(), shown_under(kind)),
    {
        let ghost p = shown_under(kind);
        let mut v: Vec<usize> = Vec::new();
        let mut i: usize = 0;
        while i < self.shared.len()
            invariant
                i <= self.shared@.len(),
                p == shown_under(kind),
                v@ == indices_where(self.rows().take(i as int), p),
            decreases self.shared@.len() - i,
        {
            proof {
                assert(self.rows().take(i + 1).drop_last() =~= self.rows().take(i as int));
            }
            let shown = match kind {
                None => true,
                Some(k) => str_eq(self.shared[i].kind.as_str(), k),
            };
            proof {
                assert(self.rows()[i as int] == row_of(self.shared@[i as int]));
                assert(self.rows().take(i + 1).last() == self.rows()[i as int]);
                assert(shown == p(self.rows()[i as int]));
            }
            if shown {
                v.push(i);
            }
            i = i + 1;
        }
        assert(self.rows().take(self.shared@.len() as int) =~= self.rows());
        v
    }

    /// The screen position of `row` under the kind filter `kind`.
    pub fn visible_position_of(&self, kind: Option<&str>, row: usize) -> (r: Option<usize>)
        ensures
            ({
                let v = indices_where(self.rows(), shown_under(kind));
                let i = first_index(v, is_index(row));
                match r {
                    Some(p) => i >= 0 && p == i,
                    None => i < 0,
                }
            }),
    {
        let v = self.visible_indices(kind);
        let ghost p = is_index(row);
        let mut i: usize = 0;
        while i < v.len()
            invariant
                i <= v@.len(),
                p == is_index(row),
                v@ == indices_where(self.rows(), shown_under(kind)),
                forall|j: int| 0 <= j < i ==> !p(v@[j]),
            decreases v@.len() - i,
        {
            if v[i] == row {
                proof {
                    assert(p(v@[i as int]));
                    lemma_first_index_is(v@, p, i as int);
                }
                return Some(i);
            }
            i = i + 1;
        }
        proof { lemma_first_index_is(v@, p, -1); }
        None
    }
}

/// Whether `r` shows under the kind filter `kind`.
pub open spec fn kind_filter(kind: Option<&str>, r: QueueRow) -> bool {
    match kind {
        None => true,
        Some(k) => r.kind == k@,
    }
}

/// The rows shown under the kind filter `kind`.
pub open spec fn shown_under(kind: Option<&str>) -> spec_fn(QueueRow) -> bool {
    |r: QueueRow| kind_filter(kind, r)
}

/// Equality with `row`.
pub open spec fn is_index(row: usize) -> spec_fn(usize) -> bool {
    |x: usize| x == row
}

/// The pending duplicates of `path` under `kind`.
pub open spec fn dup_of(kind: Seq<char>, path: Seq<char>) -> spec_fn(QueueRow) -> bool {
    |q: QueueRow| is_pending_dup(q, kind, path)
}

/// Which list an overlay operation targets: the shared rows, or the
/// pending files of the current app pane.
#[derive(Debug, Clone, Copy, PartialEq, Eq, Structural)]
pub enum QueueView {
    Shared,
    Apps,
}

/// `ShowQueue` dispatches on this: `1` (the app view) in an app pane, else `0`.
pub fn show_queue_variant(in_app: bool) -> (v: u8)
    ensures
        v == (if in_app { 1u8 } else { 0u8 }),
{
    if in_app {
        1
    } else {
        0
    }
}

/// The first pending duplicate of `path` under `kind`.
fn find_pending_dup(shared: &Vec<QueueItem>, kind: &String, path: &String) -> (r: Option<usize>)
    ensures
        ({
            let rows = shared@.map_values(|it: QueueItem| row_of(it));
            let i = first_index(rows, dup_of(kind@, path@));
            match r {
                Some(j) => i >= 0 && j == i,
                None => i < 0,
            }
        }),
{
    let ghost rows = shared@.map_values(|it: QueueItem| row_of(it));
    let ghost p = dup_of(kind@, path@);
    let mut j: usize = 0;
    while j < shared.len()
        invariant
            j <= shared@.len(),
            rows == shared@.map_values(|it: QueueItem| row_of(it)),
            p == dup_of(kind@, path@),
            forall|k: int| 0 <= k < j ==> !p(#[trigger] rows[k]),
        decreases shared@.len() - j,
    {
        let it = &shared[j];
        let m = it.src.len() == 1 && it.src[0] == *path && it.kind == *kind
            && it.status.state.is_pending();
        proof {
            let r = rows[j as int];
            assert(r == row_of(shared@[j as int]));
            assert(r.src.len() == it.src@.len());
            if it.src@.len() == 1 {
                assert(r.src[0] == it.src@[0]@);
            }
            assert(m == p(r));
        }
        if m {
            proof {
                lemma_first_index_is(rows, p, j as int);
            }
            return Some(j);
        }
        j = j + 1;
    }
    proof { lemma_first_index_is(rows, p, -1); }
    None
}

/// Namespace of the queue operations.
pub struct QUEUE;

impl QUEUE {
    /// Enqueue `paths` (with their sizes in bytes) under `kind`. Builtin
    /// kinds add one row per path, replacing a pending row with the same
    /// source and kind (the new row goes to the tail); custom kinds add one
    /// multi-path row.
    pub fn enqueue(state: &mut QueueState, kind: String, paths: Vec<String>, sizes: Vec<u64>)
        requires
            valid_kind_spec(kind@),
            paths@.len() == sizes@.len(),
        ensures
            final(state).rows() == enqueue_spec(old(state).rows(), kind@, paths.deep_view(), sizes@),
            final(state).revert == old(state).revert,
            final(state).mode == old(state).mode,
    {
        if paths.len() == 0 {
            return;
        }
        if is_builtin(kind.as_str()) {
            let ghost old_rows = state.rows();
            let ghost pv = paths.deep_view();
            let mut i: usize = 0;
            while i < paths.len()
                invariant
                    i <= paths@.len(),
                    paths@.len() == sizes@.len(),
                    pv == paths.deep_view(),
                    state.rows() == enqueue_builtin(old_rows, kind@, pv.take(i as int), sizes@.take(i as int)),
                    state.revert == old(state).revert,
                    state.mode == old(state).mode,
                decreases paths@.len() - i,
            {
                let ghost before = state.rows();
                proof {
                    assert(pv.take(i + 1).drop_last() =~= pv.take(i as int));
                    assert(sizes@.take(i + 1).drop_last() =~= sizes@.take(i as int));
                    assert(pv.take(i + 1).last() == pv[i as int]);
                    assert(sizes@.take(i + 1).last() == sizes@[i as int]);
                }
                let dup = find_pending_dup(&state.shared, &kind, &paths[i]);
                proof {
                    lemma_first_index(before, dup_of(kind@, paths@[i as int]@));
                }
                match dup {
                    Some(j) => {
                        let ghost pre = state.shared@;
                        state.shared.remove(j);
                        assert(state.rows() =~= before.remove(j as int));
                    },
                    None => {},
                }
                let ghost mid = state.rows();
                let item = QueueItem::new(kind.clone(), paths[i].clone(), sizes[i]);
                state.shared.push(item);
                assert(state.rows() =~= mid.push(new_row(kind@, seq![pv[i as int]], sizes@[i as int])));
                i = i + 1;
            }
            assert(pv.take(paths@.len() as int) =~= pv);
            assert(sizes@.take(sizes@.len() as int) =~= sizes@);
        } else {
            let ghost before = state.rows();
            let size = sizes[0];
            let item = QueueItem {
                kind,
                status: QueueItemStatus::new(size),
                src: paths,
                dst: String::new(),
            };
            state.shared.push(item);
            assert(state.rows() =~= before.push(new_row(kind@, paths.deep_view(), sizes@[0])));
        }
    }
}


/// A row after an overlay edit: a new single source and/or a new destination.
pub open spec fn edited_row(r: QueueRow, path: Option<String>, dst: Option<String>) -> QueueRow {
    QueueRow {
        kind: r.kind,
        src: match path {
            Some(p) => seq![p@],
            None => r.src,
        },
        status: r.status,
        dst: match dst {
            Some(d) => d@,
            None => r.dst,
        },
    }
}

/// A sequence with the elements at `i` and `j` exchanged.
pub open spec fn swapped<A>(s: Seq<A>, i: int, j: int) -> Seq<A> {
    s.update(i, s[j]).update(j, s[i])
}

impl QUEUE {
    /// Length of the targeted list.
    pub fn view_len(state: &QueueState, view: QueueView, apps: &Vec<String>) -> (n: usize)
        ensures
            n == match view {
                QueueView::Shared => state.shared@.len(),
                QueueView::Apps => apps@.len(),
            },
    {
        match view {
            QueueView::Shared => state.shared.len(),
            QueueView::Apps => apps.len(),
        }
    }

    /// `(src, dst)` of the entry at `index`; app entries have an empty dst.
    pub fn view_get(state: &QueueState, view: QueueView, index: usize, apps: &Vec<String>) -> (r:
        Option<(Vec<String>, String)>)
        ensures
            match view {
                QueueView::Shared => if index < state.shared@.len() {
                    r matches Some((s, d)) && s.deep_view() == state.rows()[index as int].src && d@
                        == state.rows()[index as int].dst
                } else {
                    r is None
                },
                QueueView::Apps => if index < apps@.len() {
                    r matches Some((s, d)) && s.deep_view() == seq![apps@[index as int]@] && d@.len()
                        == 0
                } else {
                    r is None
                },
            },
    {
        match view {
            QueueView::Shared => {
                if index < state.shared.len() {
                    let it = &state.shared[index];
                    Some((clone_strings(&it.src), it.dst.clone()))
                } else {
                    None
                }
            },
            QueueView::Apps => {
                if index < apps.len() {
                    let mut v: Vec<String> = Vec::new();
                    v.push(apps[index].clone());
                    assert(v.deep_view() =~= seq![apps@[index as int]@]);
                    Some((v, String::new()))
                } else {
                    None
                }
            },
        }
    }

    /// Update the entry at `index`; app entries only take the path.
    pub fn view_update(
        state: &mut QueueState,
        view: QueueView,
        index: usize,
        path: Option<String>,
        dst: Option<String>,
        apps: &mut Vec<String>,
    )
        ensures
            final(state).revert == old(state).revert,
            final(state).mode == old(state).mode,
            match view {
                QueueView::Shared => {
                    &&& final(apps)@ == old(apps)@
                    &&& if index < old(state).shared@.len() {
                        final(state).rows() == old(state).rows().update(
                            index as int,
                            edited_row(old(state).rows()[index as int], path, dst),
                        )
                    } else {
                        final(state).rows() == old(state).rows()
                    }
                },
                QueueView::Apps => {
                    &&& final(state).rows() == old(state).rows()
                    &&& match path {
                        Some(p) => if index < old(apps)@.len() {
                            final(apps)@ == old(apps)@.update(index as int, p)
                        } else {
                            final(apps)@ == old(apps)@
                        },
                        None => final(apps)@ == old(apps)@,
                    }
                },
            },
    {
        match view {
            QueueView::Shared => {
                if index < state.shared.len() {
                    let ghost before = state.rows();
                    let ghost b = before[index as int];
                    let ghost new_r = edited_row(b, path, dst);
                    let it = &mut state.shared[index];
                    match path {
                        Some(p) => {
                            let mut v: Vec<String> = Vec::new();
                            v.push(p);
                            assert(v.deep_view() =~= seq![p@]);
                            it.src = v;
                        },
                        None => {},
                    }
                    match dst {
                        Some(d) => {
                            it.dst = d;
                        },
                        None => {},
                    }
                    assert(state.rows() =~= before.update(index as int, new_r));
                }
            },
            QueueView::Apps => {
                match path {
                    Some(p) => {
                        if index < apps.len() {
                            apps.set(index, p);
                        }
                    },
                    None => {},
                }
            },
        }
    }

    /// Exchange two entries. Shared indices must be in bounds; app indices
    /// out of bounds leave the list unchanged.
    pub fn view_swap(state: &mut QueueState, view: QueueView, i: usize, j: usize, apps: &mut Vec<String>)
        requires
            view == QueueView::Shared ==> i < old(state).shared@.len() && j < old(state).shared@.len(),
        ensures
            final(state).revert == old(state).revert,
            final(state).mode == old(state).mode,
            match view {
                QueueView::Shared => final(state).rows() == swapped(old(state).rows(), i as int, j as int)
                    && final(apps)@ == old(apps)@,
                QueueView::Apps => final(state).rows() == old(state).rows() && if i < old(apps)@.len()
                    && j < old(apps)@.len() {
                    final(apps)@ == swapped(old(apps)@, i as int, j as int)
                } else {
                    final(apps)@ == old(apps)@
                },
            },
    {
        match view {
            QueueView::Shared => {
                let ghost before = state.rows();
                vec_swap(&mut state.shared, i, j);
                assert(state.rows() =~= swapped(before, i as int, j as int));
            },
            QueueView::Apps => {
                if i < apps.len() && j < apps.len() {
                    vec_swap(apps, i, j);
                }
            },
        }
    }

    /// Remove the entry at `index`, if in bounds.
    pub fn view_remove(state: &mut QueueState, view: QueueView, index: usize, apps: &mut Vec<String>)
        ensures
            final(state).revert == old(state).revert,
            final(state).mode == old(state).mode,
            match view {
                QueueView::Shared => final(apps)@ == old(apps)@ && if index < old(state).shared@.len() {
                    final(state).rows() == old(state).rows().remove(index as int)
                } else {
                    final(state).rows() == old(state).rows()
                },
                QueueView::Apps => final(state).rows() == old(state).rows() && if index < old(
                    apps,
                )@.len() {
                    final(apps)@ == old(apps)@.remove(index as int)
                } else {
                    final(apps)@ == old(apps)@
                },
            },
    {
        match view {
            QueueView::Shared => {
                if index < state.shared.len() {
                    let ghost before = state.rows();
                    state.shared.remove(index);
                    assert(state.rows() =~= before.remove(index as int));
                }
            },
            QueueView::Apps => {
                if index < apps.len() {
                    apps.remove(index);
                }
            },
        }
    }
}


/// Outcome of matching a selector against the pending rows.
#[derive(Debug, Clone)]
pub enum SelectorResult {
    /// No pending rows match.
    NoItems,
    /// Matching rows exist but destination-requiring ones cannot execute.
    MissingDestination,
    /// The row indices ready to execute.
    Ready(Vec<usize>),
}

/// The model of a [`SelectorResult`].
pub enum Selection {
    NoItems,
    MissingDestination,
    Ready(Seq<usize>),
}

/// The model of a result.
pub open spec fn selection_of(r: SelectorResult) -> Selection {
    match r {
        SelectorResult::NoItems => Selection::NoItems,
        SelectorResult::MissingDestination => Selection::MissingDestination,
        SelectorResult::Ready(v) => Selection::Ready(v@),
    }
}

/// Whether a pending row cannot execute for want of a destination: builtin
/// transfer kinds fall back to the navigation directory (`nav`), `none`
/// needs nothing, and custom kinds need one iff their action says
/// `requires_dest`.
pub open spec fn dest_missing_spec(r: QueueRow, nav: bool, actions: Option<&MenuActions>) -> bool {
    if r.dst.len() > 0 {
        false
    } else if is_dest_kind(r.kind) {
        !nav
    } else if r.kind == "none"@ {
        false
    } else {
        match actions {
            Some(a) => a.has_key(r.kind) && a.entries()[entry_index(a.entries(), r.kind)].1.requires_dest,
            None => false,
        }
    }
}

/// Whether a row is pending.
pub open spec fn is_pending_row(r: QueueRow) -> bool {
    r.status.state == QueueItemState::Pending
}

/// The rows a selector mode picks: `0` pending, `1` pending of `kind`,
/// `2` pending and executable, `3` pending, builtin transfer and executable.
pub open spec fn pick_pred(mode: u8, kind: Seq<char>, nav: bool, actions: Option<&MenuActions>) -> spec_fn(QueueRow) -> bool {
    |r: QueueRow|
        if mode == 0 {
            is_pending_row(r)
        } else if mode == 1 {
            is_pending_row(r) && r.kind == kind
        } else if mode == 2 {
            is_pending_row(r) && !dest_missing_spec(r, nav, actions)
        } else {
            is_pending_row(r) && is_dest_kind(r.kind) && !dest_missing_spec(r, nav, actions)
        }
}

/// What `select` yields on `rows`.
pub open spec fn select_spec(
    rows: Seq<QueueRow>,
    sel: QueueSelector,
    nav: bool,
    actions: Option<&MenuActions>,
) -> Selection {
    match sel {
        QueueSelector::First => {
            let ps = indices_where(rows, pick_pred(0, ""@, nav, actions));
            if ps.len() == 0 {
                Selection::NoItems
            } else if dest_missing_spec(rows[ps[0] as int], nav, actions) {
                Selection::MissingDestination
            } else {
                Selection::Ready(seq![ps[0]])
            }
        },
        QueueSelector::Last => {
            let ps = indices_where(rows, pick_pred(0, ""@, nav, actions));
            if ps.len() == 0 {
                Selection::NoItems
            } else if dest_missing_spec(rows[ps.last() as int], nav, actions) {
                Selection::MissingDestination
            } else {
                Selection::Ready(seq![ps.last()])
            }
        },
        QueueSelector::Kind(k) => {
            let m = indices_where(rows, pick_pred(1, k@, nav, actions));
            if m.len() == 0 {
                Selection::NoItems
            } else if exists|t: int| 0 <= t < m.len() && dest_missing_spec(rows[#[trigger] m[t] as int], nav, actions) {
                Selection::MissingDestination
            } else {
                Selection::Ready(m)
            }
        },
        QueueSelector::All => {
            let m = indices_where(rows, pick_pred(2, ""@, nav, actions));
            if m.len() == 0 {
                Selection::NoItems
            } else {
                Selection::Ready(m)
            }
        },
        QueueSelector::Builtins => {
            let m = indices_where(rows, pick_pred(3, ""@, nav, actions));
            if m.len() == 0 {
                Selection::NoItems
            } else {
                Selection::Ready(m)
            }
        },
    }
}

/// Whether `it` cannot execute for want of a destination.
fn dest_missing(it: &QueueItem, nav: bool, actions: Option<&MenuActions>) -> (b: bool)
    ensures
        b == dest_missing_spec(row_of(*it), nav, actions),
{
    if !it.dst.as_str().is_empty() {
        return false;
    }
    if is_dest(it.kind.as_str()) {
        return !nav;
    }
    if str_eq(it.kind.as_str(), "none") {
        return false;
    }
    match actions {
        Some(a) => match a.get(it.kind.as_str()) {
            Some(act) => act.requires_dest,
            None => false,
        },
        None => false,
    }
}

/// The indices of the rows picked by `mode`.
fn pick(state: &QueueState, mode: u8, kind: &str, nav: bool, actions: Option<&MenuActions>) -> (v: Vec<usize>)
    ensures
        v@ == indices_where(state.rows(), pick_pred(mode, kind@, nav, actions)),
{
    let ghost p = pick_pred(mode, kind@, nav, actions);
    let mut v: Vec<usize> = Vec::new();
    let mut i: usize = 0;
    while i < state.shared.len()
        invariant
            i <= state.shared@.len(),
            p == pick_pred(mode, kind@, nav, actions),
            v@ == indices_where(state.rows().take(i as int), p),
        decreases state.shared@.len() - i,
    {
        let it = &state.shared[i];
        let pending = it.status.state.is_pending();
        let b = if mode == 0 {
            pending
        } else if mode == 1 {
            pending && str_eq(it.kind.as_str(), kind)
        } else if mode == 2 {
            pending && !dest_missing(it, nav, actions)
        } else {
            pending && is_dest(it.kind.as_str()) && !dest_missing(it, nav, actions)
        };
        proof {
            assert(state.rows()[i as int] == row_of(state.shared@[i as int]));
            assert(state.rows().take(i + 1).drop_last() =~= state.rows().take(i as int));
            assert(state.rows().take(i + 1).last() == state.rows()[i as int]);
            assert(b == p(state.rows()[i as int]));
        }
        if b {
            v.push(i);
        }
        i = i + 1;
    }
    assert(state.rows().take(state.shared@.len() as int) =~= state.rows());
    v
}

/// Whether a selector covers `kind` when clearing.
pub open spec fn kind_matches_spec(sel: QueueSelector, kind: Seq<char>) -> bool {
    match sel {
        QueueSelector::All => true,
        QueueSelector::Builtins => is_dest_kind(kind),
        QueueSelector::First => true,
        QueueSelector::Last => true,
        QueueSelector::Kind(k) => k@ == kind,
    }
}

/// Whether a row waits for dispatch: pending, or pending but rejected.
pub open spec fn is_waiting_row(r: QueueRow) -> bool {
    r.status.state == QueueItemState::Pending || r.status.state == QueueItemState::PendingErr
}

/// The waiting rows a selector covers when clearing.
pub open spec fn clear_candidates(sel: QueueSelector) -> spec_fn(QueueRow) -> bool {
    |r: QueueRow| is_waiting_row(r) && kind_matches_spec(sel, r.kind)
}

/// The positions `clear_selected` removes: every covered pending row, or
/// only the first/last one for `First`/`Last`.
pub open spec fn clear_drop(rows: Seq<QueueRow>, sel: QueueSelector) -> spec_fn(int) -> bool {
    |i: int|
        {
            let ms = indices_where(rows, clear_candidates(sel));
            match sel {
                QueueSelector::First => ms.len() > 0 && i == ms[0] as int,
                QueueSelector::Last => ms.len() > 0 && i == ms.last() as int,
                _ => 0 <= i < rows.len() && clear_candidates(sel)(rows[i]),
            }
        }
}

/// The positions of complete rows.
pub open spec fn complete_drop(rows: Seq<QueueRow>) -> spec_fn(int) -> bool {
    |i: int|
        0 <= i < rows.len() && (rows[i].status.state == QueueItemState::CompleteOk
            || rows[i].status.state == QueueItemState::CompleteErr)
}

/// Whether `selector` covers `kind`.
fn kind_matches(selector: &QueueSelector, kind: &str) -> (b: bool)
    ensures
        b == kind_matches_spec(*selector, kind@),
{
    match selector {
        QueueSelector::All => true,
        QueueSelector::Builtins => is_dest(kind),
        QueueSelector::First | QueueSelector::Last => true,
        QueueSelector::Kind(k) => str_eq(k.as_str(), kind),
    }
}

/// The indices of the pending rows `selector` covers.
fn candidates(state: &QueueState, selector: &QueueSelector) -> (v: Vec<usize>)
    ensures
        v@ == indices_where(state.rows(), clear_candidates(*selector)),
{
    let ghost p = clear_candidates(*selector);
    let mut v: Vec<usize> = Vec::new();
    let mut i: usize = 0;
    while i < state.shared.len()
        invariant
            i <= state.shared@.len(),
            p == clear_candidates(*selector),
            v@ == indices_where(state.rows().take(i as int), p),
        decreases state.shared@.len() - i,
    {
        let it = &state.shared[i];
        let b = (it.status.state.is_pending() || it.status.state == QueueItemState::PendingErr)
            && kind_matches(selector, it.kind.as_str());
        proof {
            assert(state.rows()[i as int] == row_of(state.shared@[i as int]));
            assert(state.rows().take(i + 1).drop_last() =~= state.rows().take(i as int));
            assert(state.rows().take(i + 1).last() == state.rows()[i as int]);
            assert(b == p(state.rows()[i as int]));
        }
        if b {
            v.push(i);
        }
        i = i + 1;
    }
    assert(state.rows().take(state.shared@.len() as int) =~= state.rows());
    v
}

/// Whether one of the rows at `m` cannot execute for want of a destination.
fn any_dest_missing(state: &QueueState, m: &Vec<usize>, nav: bool, actions: Option<&MenuActions>) -> (b: bool)
    requires
        forall|k: int| 0 <= k < m@.len() ==> (m@[k] as int) < state.rows().len(),
    ensures
        b == exists|t: int| 0 <= t < m@.len() && dest_missing_spec(state.rows()[#[trigger] m@[t] as int], nav, actions),
{
    let mut t: usize = 0;
    while t < m.len()
        invariant
            t <= m@.len(),
            forall|k: int| 0 <= k < m@.len() ==> (m@[k] as int) < state.rows().len(),
            forall|u: int| 0 <= u < t ==> !dest_missing_spec(state.rows()[#[trigger] m@[u] as int], nav, actions),
        decreases m@.len() - t,
    {
        let idx = m[t];
        let missing = dest_missing(&state.shared[idx], nav, actions);
        proof {
            assert(state.rows()[idx as int] == row_of(state.shared@[idx as int]));
        }
        if missing {
            assert(dest_missing_spec(state.rows()[m@[t as int] as int], nav, actions));
            return true;
        }
        t = t + 1;
    }
    false
}

impl QUEUE {
    /// Match `selector` against the pending rows. `All` and `Builtins`
    /// silently skip rows whose destination is missing; a kind and
    /// `First`/`Last` report `MissingDestination` when their selected work
    /// cannot execute. `nav_cwd` is the navigation directory, `actions` the
    /// registered menu actions.
    pub fn select(
        state: &QueueState,
        selector: &QueueSelector,
        nav_cwd: Option<&str>,
        actions: Option<&MenuActions>,
    ) -> (r: SelectorResult)
        ensures
            selection_of(r) == select_spec(state.rows(), *selector, nav_cwd is Some, actions),
    {
        let nav = nav_cwd.is_some();
        let n = state.shared.len();
        assert(state.rows().len() == n);
        match selector {
            QueueSelector::First | QueueSelector::Last => {
                let ps = pick(state, 0, "", nav, actions);
                proof {
                    lemma_indices_where(state.rows(), pick_pred(0, ""@, nav, actions));
                }
                if ps.len() == 0 {
                    return SelectorResult::NoItems;
                }
                let i = match selector {
                    QueueSelector::First => ps[0],
                    _ => ps[ps.len() - 1],
                };
                if dest_missing(&state.shared[i], nav, actions) {
                    SelectorResult::MissingDestination
                } else {
                    let mut v: Vec<usize> = Vec::new();
                    v.push(i);
                    SelectorResult::Ready(v)
                }
            },
            QueueSelector::Kind(kind) => {
                let m = pick(state, 1, kind.as_str(), nav, actions);
                proof {
                    lemma_indices_where(state.rows(), pick_pred(1, kind@, nav, actions));
                }
                if m.len() == 0 {
                    return SelectorResult::NoItems;
                }
                if any_dest_missing(state, &m, nav, actions) {
                    return SelectorResult::MissingDestination;
                }
                SelectorResult::Ready(m)
            },
            QueueSelector::All => {
                let m = pick(state, 2, "", nav, actions);
                if m.len() == 0 {
                    SelectorResult::NoItems
                } else {
                    SelectorResult::Ready(m)
                }
            },
            QueueSelector::Builtins => {
                let m = pick(state, 3, "", nav, actions);
                if m.len() == 0 {
                    SelectorResult::NoItems
                } else {
                    SelectorResult::Ready(m)
                }
            },
        }
    }

    /// Clear the waiting rows (pending, or rejected at dispatch) matching
    /// `selector` (`First`/`Last`: one row);
    /// returns whether any were removed.
    pub fn clear_selected(state: &mut QueueState, selector: &QueueSelector) -> (r: bool)
        ensures
            r == (indices_where(old(state).rows(), clear_candidates(*selector)).len() > 0),
            final(state).rows() == crate::seqs::filtered_from(
                old(state).rows(),
                clear_drop(old(state).rows(), *selector),
                0,
            ),
            final(state).revert == old(state).revert,
            final(state).mode == old(state).mode,
    {
        let ms = candidates(state, selector);
        let n = state.shared.len();
        let ghost old_rows = state.rows();
        assert(old_rows.len() == n);
        let ghost old_shared = state.shared@;
        let ghost d = clear_drop(old_rows, *selector);
        proof {
            lemma_indices_where(old_rows, clear_candidates(*selector));
        }
        if ms.len() == 0 {
            proof {
                assert forall|j: int| 0 <= j < old_rows.len() implies !#[trigger] d(j) by {
                    if clear_candidates(*selector)(old_rows[j]) {
                        assert(ms@.contains(j as usize));
                    }
                }
                crate::seqs::lemma_filtered_none(old_rows, d, 0);
                assert(old_rows.subrange(0, old_rows.len() as int) =~= old_rows);
            }
            return false;
        }
        let first = ms[0];
        let last = ms[ms.len() - 1];
        let mut i: usize = state.shared.len();
        assert(old_rows.take(i as int) =~= old_rows);
        while i > 0
            invariant
                i <= old_shared.len(),
                old_rows == old_shared.map_values(|it: QueueItem| row_of(it)),
                d == clear_drop(old_rows, *selector),
                ms@ == indices_where(old_rows, clear_candidates(*selector)),
                ms@.len() > 0,
                first == ms@[0],
                last == ms@.last(),
                state.shared@.len() >= i,
                state.shared@.subrange(0, i as int) == old_shared.subrange(0, i as int),
                state.rows() == old_rows.take(i as int) + crate::seqs::filtered_from(old_rows, d, i as int),
                state.revert == old(state).revert,
                state.mode == old(state).mode,
            decreases i,
        {
            let k = i - 1;
            let dropped = match selector {
                QueueSelector::First => k == first,
                QueueSelector::Last => k == last,
                _ => {
                    let it = &state.shared[k];
                    (it.status.state.is_pending() || it.status.state == QueueItemState::PendingErr)
                        && kind_matches(selector, it.kind.as_str())
                },
            };
            proof {
                assert(state.shared@[k as int] == state.shared@.subrange(0, i as int)[k as int]);
                assert(old_shared[k as int] == old_shared.subrange(0, i as int)[k as int]);
                assert(old_rows[k as int] == row_of(old_shared[k as int]));
                assert(dropped == d(k as int));
                crate::seqs::lemma_filtered_step(old_rows, d, i as int);
            }
            let ghost before = state.rows();
            let ghost before_shared = state.shared@;
            if dropped {
                state.shared.remove(k);
                assert(state.rows() =~= before.remove(k as int));
                assert(before.remove(k as int) =~= old_rows.take(k as int) + crate::seqs::filtered_from(old_rows, d, i as int));
                assert(state.shared@.subrange(0, k as int) =~= before_shared.subrange(0, k as int));
            } else {
                assert(state.shared@.subrange(0, k as int) =~= state.shared@.subrange(0, i as int).subrange(0, k as int));
            }
            assert(old_shared.subrange(0, k as int) =~= old_shared.subrange(0, i as int).subrange(0, k as int));
            i = k;
        }
        assert(old_rows.take(0) + crate::seqs::filtered_from(old_rows, d, 0) =~= crate::seqs::filtered_from(old_rows, d, 0));
        true
    }

    /// Clear the rows that are complete.
    pub fn clear_completed_shared(state: &mut QueueState)
        ensures
            final(state).rows() == crate::seqs::filtered_from(
                old(state).rows(),
                complete_drop(old(state).rows()),
                0,
            ),
            final(state).revert == old(state).revert,
            final(state).mode == old(state).mode,
    {
        let ghost old_rows = state.rows();
        let ghost old_shared = state.shared@;
        let ghost d = complete_drop(old_rows);
        let mut i: usize = state.shared.len();
        assert(old_rows.take(i as int) =~= old_rows);
        while i > 0
            invariant
                i <= old_shared.len(),
                old_rows == old_shared.map_values(|it: QueueItem| row_of(it)),
                d == complete_drop(old_rows),
                state.shared@.len() >= i,
                state.shared@.subrange(0, i as int) == old_shared.subrange(0, i as int),
                state.rows() == old_rows.take(i as int) + crate::seqs::filtered_from(old_rows, d, i as int),
                state.revert == old(state).revert,
                state.mode == old(state).mode,
            decreases i,
        {
            let k = i - 1;
            let dropped = state.shared[k].status.state.is_complete();
            proof {
                assert(state.shared@[k as int] == state.shared@.subrange(0, i as int)[k as int]);
                assert(old_shared[k as int] == old_shared.subrange(0, i as int)[k as int]);
                assert(old_rows[k as int] == row_of(old_shared[k as int]));
                assert(dropped == d(k as int));
                crate::seqs::lemma_filtered_step(old_rows, d, i as int);
            }
            let ghost before = state.rows();
            let ghost before_shared = state.shared@;
            if dropped {
                state.shared.remove(k);
                assert(state.rows() =~= before.remove(k as int));
                assert(before.remove(k as int) =~= old_rows.take(k as int) + crate::seqs::filtered_from(old_rows, d, i as int));
                assert(state.shared@.subrange(0, k as int) =~= before_shared.subrange(0, k as int));
            } else {
                assert(state.shared@.subrange(0, k as int) =~= state.shared@.subrange(0, i as int).subrange(0, k as int));
            }
            assert(old_shared.subrange(0, k as int) =~= old_shared.subrange(0, i as int).subrange(0, k as int));
            i = k;
        }
        assert(old_rows.take(0) + crate::seqs::filtered_from(old_rows, d, 0) =~= crate::seqs::filtered_from(old_rows, d, 0));
    }
}


/// Whether a pending row names a source among `missing`.
pub open spec fn invalid_src(r: QueueRow, missing: Seq<Seq<char>>) -> bool {
    is_pending_row(r) && exists|k: int| 0 <= k < r.src.len() && missing.contains(#[trigger] r.src[k])
}

/// A row after the validity check: pending rows with a missing source
/// become `PendingErr`.
pub open spec fn validated(r: QueueRow, missing: Seq<Seq<char>>) -> QueueRow {
    if invalid_src(r, missing) {
        QueueRow { status: QueueItemStatus { state: QueueItemState::PendingErr, ..r.status }, ..r }
    } else {
        r
    }
}

/// Whether one of `src` is among `missing`.
fn any_missing(src: &Vec<String>, missing: &Vec<String>) -> (b: bool)
    ensures
        b == exists|k: int| 0 <= k < src@.len() && missing.deep_view().contains(#[trigger] src.deep_view()[k]),
{
    let mut k: usize = 0;
    while k < src.len()
        invariant
            k <= src@.len(),
            forall|j: int| 0 <= j < k ==> !missing.deep_view().contains(#[trigger] src.deep_view()[j]),
        decreases src@.len() - k,
    {
        if crate::text::contains_string(missing, src[k].as_str()) {
            assert(missing.deep_view().contains(src.deep_view()[k as int]));
            return true;
        }
        k = k + 1;
    }
    false
}

impl QUEUE {
    /// Marks the pending rows whose sources include a path of `missing`
    /// (the paths found not to exist) as `PendingErr`.
    pub fn check_validity(state: &mut QueueState, missing: &Vec<String>)
        ensures
            final(state).rows() == old(state).rows().map_values(
                |r: QueueRow| validated(r, missing.deep_view()),
            ),
            final(state).revert == old(state).revert,
            final(state).mode == old(state).mode,
    {
        let ghost old_rows = state.rows();
        let ghost mv = missing.deep_view();
        let mut i: usize = 0;
        while i < state.shared.len()
            invariant
                i <= state.shared@.len(),
                state.shared@.len() == old_rows.len(),
                mv == missing.deep_view(),
                forall|j: int| 0 <= j < i ==> state.rows()[j] == validated(old_rows[j], mv),
                forall|j: int| i <= j < old_rows.len() ==> state.rows()[j] == old_rows[j],
                state.revert == old(state).revert,
                state.mode == old(state).mode,
            decreases old_rows.len() - i,
        {
            let ghost before = state.rows();
            let bad = state.shared[i].status.state.is_pending() && any_missing(&state.shared[i].src, missing);
            proof {
                assert(before[i as int] == row_of(state.shared@[i as int]));
                assert(bad == invalid_src(old_rows[i as int], mv));
            }
            if bad {
                let it = &mut state.shared[i];
                it.status.state = QueueItemState::PendingErr;
            }
            proof {
                assert(state.rows()[i as int] == validated(old_rows[i as int], mv));
                assert forall|j: int| 0 <= j < old_rows.len() && j != i implies state.rows()[j] == before[j] by {
                    assert(state.rows()[j] == row_of(state.shared@[j]));
                }
                assert forall|j: int| 0 <= j < i implies state.rows()[j] == validated(old_rows[j], mv) by {
                    assert(state.rows()[j] == before[j]);
                }
            }
            i = i + 1;
        }
        assert(state.rows() =~= old_rows.map_values(|r: QueueRow| validated(r, mv)));
    }
}


/// The distinct kinds of `rows`, in order of first appearance.
pub open spec fn distinct_kinds(rows: Seq<QueueRow>) -> Seq<Seq<char>>
    decreases rows.len(),
{
    if rows.len() == 0 {
        Seq::empty()
    } else {
        let d = distinct_kinds(rows.drop_last());
        if d.contains(rows.last().kind) {
            d
        } else {
            d.push(rows.last().kind)
        }
    }
}

/// Equality with `c`.
pub open spec fn is_text(c: Seq<char>) -> spec_fn(Seq<char>) -> bool {
    |k: Seq<char>| k == c
}

/// Position of the kind filter `current` in the cycle `[None, d...]`
/// (an unknown kind counts as `None`).
pub open spec fn kind_position(d: Seq<Seq<char>>, current: Option<Seq<char>>) -> int {
    match current {
        None => 0,
        Some(c) => {
            let i = first_index(d, is_text(c));
            if i < 0 {
                0
            } else {
                i + 1
            }
        },
    }
}

/// The kind filter `delta` steps from `current` in the cycle
/// `[None, distinct kinds...]`, wrapping around; `None` when no kind exists.
pub open spec fn next_kind_spec(rows: Seq<QueueRow>, current: Option<Seq<char>>, delta: int) -> Option<
    Seq<char>,
> {
    let d = distinct_kinds(rows);
    let total = d.len() + 1;
    if total < 2 {
        None
    } else {
        let n = (kind_position(d, current) + delta) % (total as int);
        if n == 0 {
            None
        } else {
            Some(d[n - 1])
        }
    }
}

/// The distinct kinds hold no kind twice, and hold every row's kind.
pub proof fn lemma_distinct_kinds(rows: Seq<QueueRow>)
    ensures
        forall|i: int, j: int|
            0 <= i < j < distinct_kinds(rows).len() ==> distinct_kinds(rows)[i] != distinct_kinds(rows)[j],
        forall|i: int| 0 <= i < rows.len() ==> distinct_kinds(rows).contains(#[trigger] rows[i].kind),
        distinct_kinds(rows).len() <= rows.len(),
    decreases rows.len(),
{
    if rows.len() > 0 {
        let t = rows.drop_last();
        lemma_distinct_kinds(t);
        let d = distinct_kinds(t);
        assert forall|i: int| 0 <= i < rows.len() implies distinct_kinds(rows).contains(#[trigger] rows[i].kind) by {
            if i < rows.len() - 1 {
                assert(t[i] == rows[i]);
                let k = choose|k: int| 0 <= k < d.len() && d[k] == t[i].kind;
                assert(distinct_kinds(rows)[k] == rows[i].kind);
            } else if !d.contains(rows.last().kind) {
                assert(distinct_kinds(rows)[d.len() as int] == rows[i].kind);
            }
        }
    }
}

/// Stepping the kind filter by `delta` and back by `-delta` returns to the
/// starting filter, when that filter is no filter or one of the present kinds.
pub proof fn lemma_next_kind_round_trip(rows: Seq<QueueRow>, current: Option<Seq<char>>, delta: int)
    requires
        match current {
            Some(c) => distinct_kinds(rows).contains(c),
            None => true,
        },
    ensures
        next_kind_spec(rows, next_kind_spec(rows, current, delta), -delta) == current,
{
    let d = distinct_kinds(rows);
    let t = d.len() + 1;
    lemma_distinct_kinds(rows);
    if t >= 2 {
        let pos = kind_position(d, current);
        match current {
            Some(c) => {
                let k = choose|k: int| 0 <= k < d.len() && d[k] == c;
                crate::text::lemma_first_index_is(d, is_text(c), k);
            },
            None => {},
        }
        assert(0 <= pos < t);
        let n = (pos + delta) % (t as int);
        vstd::arithmetic::div_mod::lemma_mod_bound(pos + delta, t as int);
        let next = if n == 0 {
            None
        } else {
            Some(d[n - 1])
        };
        if n != 0 {
            crate::text::lemma_first_index_is(d, is_text(d[n - 1]), n - 1);
        }
        assert(kind_position(d, next) == n);
        vstd::arithmetic::div_mod::lemma_add_mod_noop(pos + delta, -delta, t as int);
        vstd::arithmetic::div_mod::lemma_add_mod_noop_right(n, -delta, t as int);
        vstd::arithmetic::div_mod::lemma_small_mod(pos as nat, t as nat);
        assert((n + -delta) % (t as int) == pos);
    }
}

/// The position of `s` in `v`.
fn position_of(v: &Vec<String>, s: &str) -> (r: Option<usize>)
    ensures
        ({
            let i = first_index(v.deep_view(), is_text(s@));
            match r {
                Some(p) => i >= 0 && p == i,
                None => i < 0,
            }
        }),
{
    let ghost p = is_text(s@);
    let mut i: usize = 0;
    while i < v.len()
        invariant
            i <= v@.len(),
            p == is_text(s@),
            forall|j: int| 0 <= j < i ==> !p(v.deep_view()[j]),
        decreases v@.len() - i,
    {
        if str_eq(v[i].as_str(), s) {
            proof { lemma_first_index_is(v.deep_view(), p, i as int); }
            return Some(i);
        }
        i = i + 1;
    }
    proof { lemma_first_index_is(v.deep_view(), p, -1); }
    None
}

impl QueueState {
    /// Cycle the kind filter by `delta` through `[None, distinct kinds...]`
    /// with wrapping.
    pub fn next_kind(&self, current: Option<&str>, delta: i32) -> (r: Option<String>)
        ensures
            ({
                let c = match current {
                    Some(c) => Some(c@),
                    None => None::<Seq<char>>,
                };
                match r {
                    Some(k) => next_kind_spec(self.rows(), c, delta as int) == Some(k@),
                    None => next_kind_spec(self.rows(), c, delta as int) is None,
                }
            }),
    {
        let mut kinds: Vec<String> = Vec::new();
        let mut i: usize = 0;
        while i < self.shared.len()
            invariant
                i <= self.shared@.len(),
                kinds.deep_view() == distinct_kinds(self.rows().take(i as int)),
            decreases self.shared@.len() - i,
        {
            proof {
                assert(self.rows().take(i + 1).drop_last() =~= self.rows().take(i as int));
                assert(self.rows().take(i + 1).last() == row_of(self.shared@[i as int]));
            }
            if !crate::text::contains_string(&kinds, self.shared[i].kind.as_str()) {
                let ghost before = kinds.deep_view();
                kinds.push(self.shared[i].kind.clone());
                assert(kinds.deep_view() =~= before.push(self.shared@[i as int].kind@));
            }
            i = i + 1;
        }
        assert(self.rows().take(self.shared@.len() as int) =~= self.rows());
        proof { lemma_distinct_kinds(self.rows()); }
        let ghost d = kinds.deep_view();
        let n_kinds = kinds.len();
        assert(n_kinds <= self.shared@.len());
        if n_kinds == 0 {
            return None;
        }
        let pos: usize = match current {
            None => 0,
            Some(c) => {
                let r = position_of(&kinds, c);
                proof {
                    crate::text::lemma_first_index(kinds.deep_view(), is_text(c@));
                }
                match r {
                    Some(p) => p + 1,
                    None => 0,
                }
            },
        };
        let t: u128 = (n_kinds as u128) + 1;
        let dm: u128 = if delta >= 0 {
            (delta as u128) % t
        } else {
            let a: u128 = ((0 - (delta as i128)) as u128) % t;
            if a == 0 {
                0
            } else {
                t - a
            }
        };
        proof {
            let ti = t as int;
            if delta < 0 {
                let a = (-(delta as int)) % ti;
                vstd::arithmetic::div_mod::lemma_mod_bound(-(delta as int), ti);
                vstd::arithmetic::div_mod::lemma_sub_mod_noop(0, -(delta as int), ti);
                vstd::arithmetic::div_mod::lemma_small_mod(0, ti as nat);
                if a != 0 {
                    vstd::arithmetic::div_mod::lemma_mod_add_multiples_vanish(-a, ti);
                    vstd::arithmetic::div_mod::lemma_small_mod((ti - a) as nat, ti as nat);
                }
                assert(dm as int == (delta as int) % ti);
            }
            vstd::arithmetic::div_mod::lemma_add_mod_noop_right(pos as int, delta as int, ti);
        }
        let n: u128 = ((pos as u128) + dm) % t;
        assert(n as int == (kind_position(d, match current {
            Some(c) => Some(c@),
            None => None::<Seq<char>>,
        }) + delta as int) % (t as int));
        if n == 0 {
            None
        } else {
            let k = (n - 1) as usize;
            Some(kinds[k].clone())
        }
    }
}

} // verus!

verus! {

/// Clearing by a selector other than `First`/`Last` leaves no row that the
/// selector covers and that waits for dispatch.
pub proof fn lemma_clear_leaves_no_candidates(rows: Seq<QueueRow>, sel: QueueSelector)
    requires
        !(sel is First),
        !(sel is Last),
    ensures
        forall|k: int|
            0 <= k < crate::seqs::filtered_from(rows, clear_drop(rows, sel), 0).len() ==> !clear_candidates(sel)(
                #[trigger] crate::seqs::filtered_from(rows, clear_drop(rows, sel), 0)[k],
            ),
{
    let d = clear_drop(rows, sel);
    let f = crate::seqs::filtered_from(rows, d, 0);
    crate::seqs::lemma_filtered_members(rows, d, 0);
    assert forall|k: int| 0 <= k < f.len() implies !clear_candidates(sel)(#[trigger] f[k]) by {
        let j = choose|j: int| 0 <= j < rows.len() && !d(j) && rows[j] == f[k];
        assert(!d(j));
    }
}

} // verus!

verus! {

/// Every row a selector makes ready is a pending row that can execute (it
/// has a destination or needs none), and `Builtins` makes only builtin
/// transfer rows ready.
pub proof fn lemma_ready_rows_can_run(rows: Seq<QueueRow>, sel: QueueSelector, nav: bool, actions: Option<&MenuActions>)
    requires
        rows.len() <= usize::MAX,
    ensures
        select_spec(rows, sel, nav, actions) matches Selection::Ready(m) ==> forall|k: int|
            0 <= k < m.len() ==> {
                &&& (#[trigger] m[k] as int) < rows.len()
                &&& is_pending_row(rows[m[k] as int])
                &&& !dest_missing_spec(rows[m[k] as int], nav, actions)
                &&& (sel is Builtins ==> is_dest_kind(rows[m[k] as int].kind))
            },
{
    let mode: u8 = match sel {
        QueueSelector::First => 0,
        QueueSelector::Last => 0,
        QueueSelector::Kind(_) => 1,
        QueueSelector::All => 2,
        QueueSelector::Builtins => 3,
    };
    let kind = match sel {
        QueueSelector::Kind(k) => k@,
        _ => ""@,
    };
    let p = pick_pred(mode, kind, nav, actions);
    lemma_indices_where(rows, p);
    let m = indices_where(rows, p);
    if let Selection::Ready(r) = select_spec(rows, sel, nav, actions) {
        assert forall|k: int| 0 <= k < r.len() implies {
            &&& (#[trigger] r[k] as int) < rows.len()
            &&& is_pending_row(rows[r[k] as int])
            &&& !dest_missing_spec(rows[r[k] as int], nav, actions)
            &&& (sel is Builtins ==> is_dest_kind(rows[r[k] as int].kind))
        } by {
            match sel {
                QueueSelector::First => {
                    assert(r[k] == m[0]);
                },
                QueueSelector::Last => {
                    assert(r[k] == m[m.len() - 1]);
                },
                QueueSelector::Kind(_) => {
                    assert(r[k] == m[k]);
                },
                _ => {
                    assert(r[k] == m[k]);
                },
            }
        }
    }
}

} // verus!

verus! {

/// Enqueueing a path under a builtin kind leaves exactly one pending row of
/// that kind over that path, when there was at most one before.
pub proof fn lemma_enqueue_one_unique(rows: Seq<QueueRow>, kind: Seq<char>, path: Seq<char>, size: u64)
    requires
        rows.filter(dup_of(kind, path)).len() <= 1,
    ensures
        enqueue_one(rows, kind, path, size).filter(dup_of(kind, path)).len() == 1,
{
    let p = dup_of(kind, path);
    let i = first_index(rows, p);
    lemma_first_index(rows, p);
    let fresh = new_row(kind, seq![path], size);
    assert(p(fresh));
    if i >= 0 {
        crate::seqs::lemma_filter_remove(rows, i, p);
        crate::seqs::lemma_filter_push(rows.remove(i), fresh, p);
    } else {
        crate::seqs::lemma_filter_none(rows, p);
        crate::seqs::lemma_filter_push(rows, fresh, p);
    }
}

/// Running every row: `All` is ready with exactly the pending rows whose
/// destination is not missing, whatever their kind (custom actions
/// included), in queue order; with no such row there is nothing to run.
pub proof fn lemma_select_all_takes_every_runnable_row(
    rows: Seq<QueueRow>,
    nav: bool,
    actions: Option<&MenuActions>,
)
    requires
        rows.len() <= usize::MAX,
    ensures
        select_spec(rows, QueueSelector::All, nav, actions) is Ready || select_spec(
            rows,
            QueueSelector::All,
            nav,
            actions,
        ) is NoItems,
        select_spec(rows, QueueSelector::All, nav, actions) is NoItems <==> forall|i: int|
            0 <= i < rows.len() ==> !(rows[i].status.state == QueueItemState::Pending && !dest_missing_spec(
                #[trigger] rows[i],
                nav,
                actions,
            )),
        select_spec(rows, QueueSelector::All, nav, actions) matches Selection::Ready(m) ==> {
            &&& forall|i: int|
                0 <= i < rows.len() ==> (m.contains(i as usize) <==> (rows[i].status.state
                    == QueueItemState::Pending && !dest_missing_spec(#[trigger] rows[i], nav, actions)))
            &&& forall|a: int, b: int| 0 <= a < b < m.len() ==> #[trigger] m[a] < #[trigger] m[b]
            &&& forall|a: int| 0 <= a < m.len() ==> (#[trigger] m[a] as int) < rows.len()
        },
{
    lemma_rows_picked(rows, 2, ""@, nav, actions);
}

/// Running the builtin transfers: `Builtins` is ready with exactly the
/// pending copy/move rows whose destination is not missing.
pub proof fn lemma_select_builtins_takes_runnable_transfers(
    rows: Seq<QueueRow>,
    nav: bool,
    actions: Option<&MenuActions>,
)
    requires
        rows.len() <= usize::MAX,
    ensures
        select_spec(rows, QueueSelector::Builtins, nav, actions) matches Selection::Ready(m) ==> forall|i: int|
            0 <= i < rows.len() ==> (m.contains(i as usize) <==> (rows[i].status.state
                == QueueItemState::Pending && is_dest_kind(rows[i].kind) && !dest_missing_spec(
                #[trigger] rows[i],
                nav,
                actions,
            ))),
        select_spec(rows, QueueSelector::Builtins, nav, actions) is NoItems <==> forall|i: int|
            0 <= i < rows.len() ==> !(rows[i].status.state == QueueItemState::Pending && is_dest_kind(
                rows[i].kind,
            ) && !dest_missing_spec(#[trigger] rows[i], nav, actions)),
{
    lemma_rows_picked(rows, 3, ""@, nav, actions);
}

/// The indices a mode picks are exactly the rows it accepts, ascending.
proof fn lemma_rows_picked(rows: Seq<QueueRow>, mode: u8, kind: Seq<char>, nav: bool, actions: Option<&MenuActions>)
    requires
        rows.len() <= usize::MAX,
    ensures
        ({
            let p = pick_pred(mode, kind, nav, actions);
            let m = indices_where(rows, p);
            &&& forall|i: int| 0 <= i < rows.len() ==> (m.contains(i as usize) <==> p(#[trigger] rows[i]))
            &&& forall|a: int, b: int| 0 <= a < b < m.len() ==> #[trigger] m[a] < #[trigger] m[b]
            &&& forall|a: int| 0 <= a < m.len() ==> (#[trigger] m[a] as int) < rows.len()
            &&& (m.len() == 0 <==> forall|i: int| 0 <= i < rows.len() ==> !p(#[trigger] rows[i]))
        }),
{
    let p = pick_pred(mode, kind, nav, actions);
    let m = indices_where(rows, p);
    lemma_indices_where(rows, p);
    assert forall|i: int| 0 <= i < rows.len() implies (m.contains(i as usize) <==> p(#[trigger] rows[i])) by {
        if m.contains(i as usize) {
            let k = choose|k: int| 0 <= k < m.len() && m[k] == i as usize;
            assert(p(rows[m[k] as int]));
        }
    }
    if m.len() > 0 {
        assert(p(rows[m[0] as int]));
    }
}

/// Enqueueing for a custom action adds exactly one pending row at the end,
/// of that kind, whose sources are all the given paths in order, without a
/// destination; the rows before it stay.
pub proof fn lemma_enqueue_custom_adds_one_row(
    rows: Seq<QueueRow>,
    kind: Seq<char>,
    paths: Seq<Seq<char>>,
    sizes: Seq<u64>,
)
    requires
        paths.len() > 0,
        !is_builtin_kind(kind),
    ensures
        ({
            let r = enqueue_spec(rows, kind, paths, sizes);
            &&& r.len() == rows.len() + 1
            &&& forall|i: int| 0 <= i < rows.len() ==> #[trigger] r[i] == rows[i]
            &&& r.last().kind == kind
            &&& r.last().src == paths
            &&& r.last().status.state == QueueItemState::Pending
            &&& r.last().dst.len() == 0
        }),
{
}

/// Running the first pending row: with no pending row there is nothing to
/// run; otherwise the first pending row is run, or reported as missing its
/// destination.
pub proof fn lemma_select_first_takes_first_pending(rows: Seq<QueueRow>, nav: bool, actions: Option<&MenuActions>)
    requires
        rows.len() <= usize::MAX,
    ensures
        select_spec(rows, QueueSelector::First, nav, actions) is NoItems <==> forall|i: int|
            0 <= i < rows.len() ==> (#[trigger] rows[i]).status.state != QueueItemState::Pending,
        select_spec(rows, QueueSelector::First, nav, actions) matches Selection::Ready(m) ==> {
            &&& m.len() == 1
            &&& 0 <= m[0] < rows.len()
            &&& rows[m[0] as int].status.state == QueueItemState::Pending
            &&& !dest_missing_spec(rows[m[0] as int], nav, actions)
            &&& forall|j: int| 0 <= j < m[0] ==> (#[trigger] rows[j]).status.state != QueueItemState::Pending
        },
        select_spec(rows, QueueSelector::First, nav, actions) is MissingDestination ==> exists|i: int|
            0 <= i < rows.len() && (#[trigger] rows[i]).status.state == QueueItemState::Pending
                && dest_missing_spec(rows[i], nav, actions) && forall|j: int|
                0 <= j < i ==> (#[trigger] rows[j]).status.state != QueueItemState::Pending,
{
    let p = pick_pred(0, ""@, nav, actions);
    let ps = indices_where(rows, p);
    lemma_rows_picked(rows, 0, ""@, nav, actions);
    if ps.len() > 0 {
        let i = ps[0] as int;
        assert forall|j: int| 0 <= j < i implies (#[trigger] rows[j]).status.state != QueueItemState::Pending by {
            if rows[j].status.state == QueueItemState::Pending {
                assert(p(rows[j]));
                let t = choose|t: int| 0 <= t < ps.len() && ps[t] == j as usize;
                if t > 0 {
                    assert(ps[0] < ps[t]);
                }
            }
        }
        assert(p(rows[i]));
    }
}

/// Running the last pending row: with no pending row there is nothing to
/// run; otherwise the last pending row is run, or reported as missing its
/// destination.
pub proof fn lemma_select_last_takes_last_pending(rows: Seq<QueueRow>, nav: bool, actions: Option<&MenuActions>)
    requires
        rows.len() <= usize::MAX,
    ensures
        select_spec(rows, QueueSelector::Last, nav, actions) is NoItems <==> forall|i: int|
            0 <= i < rows.len() ==> (#[trigger] rows[i]).status.state != QueueItemState::Pending,
        select_spec(rows, QueueSelector::Last, nav, actions) matches Selection::Ready(m) ==> {
            &&& m.len() == 1
            &&& 0 <= m[0] < rows.len()
            &&& rows[m[0] as int].status.state == QueueItemState::Pending
            &&& !dest_missing_spec(rows[m[0] as int], nav, actions)
            &&& forall|j: int| m[0] < j < rows.len() ==> (#[trigger] rows[j]).status.state != QueueItemState::Pending
        },
        select_spec(rows, QueueSelector::Last, nav, actions) is MissingDestination ==> exists|i: int|
            0 <= i < rows.len() && (#[trigger] rows[i]).status.state == QueueItemState::Pending
                && dest_missing_spec(rows[i], nav, actions) && forall|j: int|
                i < j < rows.len() ==> (#[trigger] rows[j]).status.state != QueueItemState::Pending,
{
    let p = pick_pred(0, ""@, nav, actions);
    let ps = indices_where(rows, p);
    lemma_rows_picked(rows, 0, ""@, nav, actions);
    if ps.len() > 0 {
        let i = ps.last() as int;
        assert forall|j: int| i < j < rows.len() implies (#[trigger] rows[j]).status.state != QueueItemState::Pending by {
            if rows[j].status.state == QueueItemState::Pending {
                assert(p(rows[j]));
                let t = choose|t: int| 0 <= t < ps.len() && ps[t] == j as usize;
                if t < ps.len() - 1 {
                    assert(ps[t] < ps[ps.len() - 1]);
                }
            }
        }
        assert(p(rows[i]));
    }
}

/// Running a kind: with no pending row of the kind there is nothing to run;
/// if one of them misses its destination none runs; otherwise exactly the
/// pending rows of the kind run, in queue order.
pub proof fn lemma_select_kind_takes_its_rows(
    rows: Seq<QueueRow>,
    k: String,
    nav: bool,
    actions: Option<&MenuActions>,
)
    requires
        rows.len() <= usize::MAX,
    ensures
        select_spec(rows, QueueSelector::Kind(k), nav, actions) is NoItems <==> forall|i: int|
            0 <= i < rows.len() ==> !((#[trigger] rows[i]).status.state == QueueItemState::Pending && rows[i].kind
                == k@),
        select_spec(rows, QueueSelector::Kind(k), nav, actions) is MissingDestination <==> exists|i: int|
            0 <= i < rows.len() && (#[trigger] rows[i]).status.state == QueueItemState::Pending && rows[i].kind
                == k@ && dest_missing_spec(rows[i], nav, actions),
        select_spec(rows, QueueSelector::Kind(k), nav, actions) matches Selection::Ready(m) ==> {
            &&& forall|i: int|
                0 <= i < rows.len() ==> (m.contains(i as usize) <==> ((#[trigger] rows[i]).status.state
                    == QueueItemState::Pending && rows[i].kind == k@))
            &&& forall|a: int, b: int| 0 <= a < b < m.len() ==> #[trigger] m[a] < #[trigger] m[b]
        },
{
    let p = pick_pred(1, k@, nav, actions);
    let m = indices_where(rows, p);
    lemma_rows_picked(rows, 1, k@, nav, actions);
    if exists|i: int| 0 <= i < rows.len() && (#[trigger] rows[i]).status.state == QueueItemState::Pending
        && rows[i].kind == k@ && dest_missing_spec(rows[i], nav, actions) {
        let i = choose|i: int| 0 <= i < rows.len() && (#[trigger] rows[i]).status.state == QueueItemState::Pending
            && rows[i].kind == k@ && dest_missing_spec(rows[i], nav, actions);
        assert(p(rows[i]));
        let t = choose|t: int| 0 <= t < m.len() && m[t] == i as usize;
        assert(dest_missing_spec(rows[m[t] as int], nav, actions));
    }
    if exists|t: int| 0 <= t < m.len() && dest_missing_spec(rows[#[trigger] m[t] as int], nav, actions) {
        let t = choose|t: int| 0 <= t < m.len() && dest_missing_spec(rows[#[trigger] m[t] as int], nav, actions);
        assert(p(rows[m[t] as int]));
    }
}

/// Whether `rows` holds a pending single-path row of `kind` over `path`
/// without a destination.
pub open spec fn has_fresh_row(rows: Seq<QueueRow>, kind: Seq<char>, path: Seq<char>) -> bool {
    exists|i: int|
        0 <= i < rows.len() && (#[trigger] rows[i]).kind == kind && rows[i].src == seq![path]
            && rows[i].status.state == QueueItemState::Pending && rows[i].dst.len() == 0
}

/// Enqueueing one path under a builtin kind adds at most one row, ends with
/// a fresh pending row over that path, and keeps every fresh row over
/// another path.
proof fn lemma_enqueue_one_keeps(rows: Seq<QueueRow>, kind: Seq<char>, path: Seq<char>, size: u64, other: Seq<char>)
    ensures
        enqueue_one(rows, kind, path, size).len() <= rows.len() + 1,
        enqueue_one(rows, kind, path, size).len() >= rows.len(),
        enqueue_one(rows, kind, path, size).last() == new_row(kind, seq![path], size),
        has_fresh_row(enqueue_one(rows, kind, path, size), kind, path),
        has_fresh_row(rows, kind, other) ==> has_fresh_row(enqueue_one(rows, kind, path, size), kind, other),
{
    let p = dup_of(kind, path);
    let i = first_index(rows, p);
    lemma_first_index(rows, p);
    let r = enqueue_one(rows, kind, path, size);
    let fresh = new_row(kind, seq![path], size);
    assert(r.last() == fresh);
    assert(r[r.len() - 1] == fresh);
    if has_fresh_row(rows, kind, other) {
        let j = choose|j: int|
            0 <= j < rows.len() && (#[trigger] rows[j]).kind == kind && rows[j].src == seq![other]
                && rows[j].status.state == QueueItemState::Pending && rows[j].dst.len() == 0;
        if other == path {
        } else if i >= 0 {
            assert(rows[j].src[0] == other);
            assert(j != i);
            let j2 = if j < i { j } else { j - 1 };
            assert(r[j2] == rows[j]);
        } else {
            assert(r[j] == rows[j]);
        }
    }
}

/// Enqueueing paths under a builtin kind leaves a fresh pending row over
/// each of them (duplicates of a path give way to the newest), ends with
/// the row of the last path, and adds at most one row per path.
pub proof fn lemma_enqueue_builtin_rows(rows: Seq<QueueRow>, kind: Seq<char>, paths: Seq<Seq<char>>, sizes: Seq<u64>)
    requires
        is_builtin_kind(kind),
        paths.len() == sizes.len(),
    ensures
        ({
            let r = enqueue_spec(rows, kind, paths, sizes);
            &&& rows.len() <= r.len() <= rows.len() + paths.len()
            &&& forall|j: int| 0 <= j < paths.len() ==> has_fresh_row(r, kind, #[trigger] paths[j])
            &&& paths.len() > 0 ==> r.last() == new_row(kind, seq![paths.last()], sizes.last())
        }),
{
    if paths.len() > 0 {
        lemma_builtin_rows(rows, kind, paths, sizes);
    }
}

/// `lemma_enqueue_builtin_rows` for the path-by-path enqueue.
proof fn lemma_builtin_rows(rows: Seq<QueueRow>, kind: Seq<char>, paths: Seq<Seq<char>>, sizes: Seq<u64>)
    requires
        paths.len() == sizes.len(),
    ensures
        ({
            let r = enqueue_builtin(rows, kind, paths, sizes);
            &&& rows.len() <= r.len() <= rows.len() + paths.len()
            &&& forall|j: int| 0 <= j < paths.len() ==> has_fresh_row(r, kind, #[trigger] paths[j])
            &&& paths.len() > 0 ==> r.last() == new_row(kind, seq![paths.last()], sizes.last())
        }),
    decreases paths.len(),
{
    if paths.len() > 0 {
        let pi = paths.drop_last();
        let si = sizes.drop_last();
        lemma_builtin_rows(rows, kind, pi, si);
        let mid = enqueue_builtin(rows, kind, pi, si);
        let r = enqueue_builtin(rows, kind, paths, sizes);
        lemma_enqueue_one_keeps(mid, kind, paths.last(), sizes.last(), paths.last());
        assert forall|j: int| 0 <= j < paths.len() implies has_fresh_row(r, kind, #[trigger] paths[j]) by {
            if j < paths.len() - 1 {
                assert(pi[j] == paths[j]);
                lemma_enqueue_one_keeps(mid, kind, paths.last(), sizes.last(), paths[j]);
            }
        }
    }
}

/// What `All` runs, by the rows' destinations: a pending row that has a
/// destination always runs; a pending builtin transfer without one runs
/// exactly when there is a Nav directory to use; a pending `none` row
/// always runs; a pending custom-action row without a destination runs
/// unless its action (when actions are known) asks for one.
pub proof fn lemma_select_all_by_destination(rows: Seq<QueueRow>, nav: bool, actions: Option<&MenuActions>, i: int)
    requires
        rows.len() <= usize::MAX,
        0 <= i < rows.len(),
        rows[i].status.state == QueueItemState::Pending,
    ensures
        ({
            let runs = select_spec(rows, QueueSelector::All, nav, actions) matches Selection::Ready(m) && m.contains(
                i as usize,
            );
            &&& rows[i].dst.len() > 0 ==> runs
            &&& rows[i].dst.len() == 0 && is_dest_kind(rows[i].kind) ==> (runs <==> nav)
            &&& rows[i].dst.len() == 0 && rows[i].kind == "none"@ ==> runs
            &&& rows[i].dst.len() == 0 && !is_dest_kind(rows[i].kind) && actions is None ==> runs
        }),
{
    lemma_select_all_takes_every_runnable_row(rows, nav, actions);
    lemma_rows_picked(rows, 2, ""@, nav, actions);
    reveal_strlit("none");
    reveal_strlit("copy");
    reveal_strlit("move");
    reveal_strlit("symlink");
    assert("none"@[0] != "copy"@[0] && "none"@[0] != "move"@[0] && "none"@.len() != "symlink"@.len());
    assert(!is_dest_kind("none"@));
    assert(pick_pred(2, ""@, nav, actions)(rows[i]) == (rows[i].status.state == QueueItemState::Pending
        && !dest_missing_spec(rows[i], nav, actions)));
}

} // verus!
