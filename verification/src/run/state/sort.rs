//! Sorting of the picker: the orders a pane offers, the sort mode the
//! front end engages for the current pane, what an order needs filled in
//! before it can sort, and the comparator each order sorts items by.

use vstd::prelude::*;
use crate::run::state::stack::PaneKind;
use crate::text::{lemma_text_order, text_less, text_lt, to_chars};

verus! {

/// An order the items of a pane can be sorted in.
#[derive(Debug, Clone, Copy, PartialEq, Eq, Structural)]
pub enum SortOrder {
    /// By display name.
    Name,
    /// Newest modification first.
    Mtime,
    /// Newest access first.
    Atime,
    /// Largest first.
    Size,
    /// No sort: match score, then insertion order.
    Unsorted,
}

/// The engaged sort: the order, and the stability threshold of the
/// matcher (`0` re-sorts always, `u32::MAX` never lets the match order win).
#[derive(Debug, Clone, Copy, PartialEq, Eq, Structural)]
pub struct SortMode {
    pub order: SortOrder,
    pub threshold: u32,
}

/// The orders a pane of kind `k` offers: search panes follow ripgrep's
/// own orders (no size), the history panes have no modification time, a
/// stash has neither size nor modification time.
pub open spec fn sort_options_of(k: PaneKind) -> Seq<SortOrder> {
    match k {
        PaneKind::Search => seq![SortOrder::Name, SortOrder::Mtime, SortOrder::Atime, SortOrder::Unsorted],
        PaneKind::Files | PaneKind::Folders | PaneKind::Apps => seq![
            SortOrder::Name,
            SortOrder::Atime,
            SortOrder::Size,
            SortOrder::Unsorted,
        ],
        PaneKind::Stash => seq![SortOrder::Name, SortOrder::Atime, SortOrder::Unsorted],
        PaneKind::Nav | PaneKind::Find | PaneKind::Custom => seq![
            SortOrder::Name,
            SortOrder::Mtime,
            SortOrder::Atime,
            SortOrder::Size,
            SortOrder::Unsorted,
        ],
    }
}

/// How far the match order may drift before a pane re-sorts: the history
/// panes and stashes `5`; a search pane never while it searches, else `0`
/// unsorted and `40` sorted; a custom pane `40`; directory and find panes
/// `0` unsorted and `40` sorted.
pub open spec fn stability_of(k: PaneKind, filtering: bool, sort: SortOrder) -> u32 {
    match k {
        PaneKind::Files | PaneKind::Folders | PaneKind::Apps | PaneKind::Stash => 5,
        PaneKind::Search => if filtering {
            if sort is Unsorted {
                0
            } else {
                40
            }
        } else {
            u32::MAX
        },
        PaneKind::Custom => 40,
        PaneKind::Nav | PaneKind::Find => if sort is Unsorted {
            0
        } else {
            40
        },
    }
}

/// A vector holding `orders`.
fn orders(a: SortOrder, b: SortOrder, c: SortOrder, d: Option<SortOrder>, e: Option<SortOrder>) -> (v: Vec<SortOrder>)
    ensures
        v@ == seq![a, b, c] + match d {
            Some(x) => seq![x],
            None => Seq::empty(),
        } + match e {
            Some(y) => seq![y],
            None => Seq::empty(),
        },
{
    let mut v = Vec::new();
    v.push(a);
    v.push(b);
    v.push(c);
    if let Some(x) = d {
        v.push(x);
    }
    if let Some(y) = e {
        v.push(y);
    }
    assert(v@ =~= seq![a, b, c] + match d {
        Some(x) => seq![x],
        None => Seq::empty(),
    } + match e {
        Some(y) => seq![y],
        None => Seq::empty(),
    });
    v
}

impl PaneKind {
    /// The orders this pane offers, in the order the options list shows them.
    pub fn sort_options(self) -> (v: Vec<SortOrder>)
        ensures
            v@ == sort_options_of(self),
    {
        match self {
            PaneKind::Search => PaneKind::search_sort_options(),
            PaneKind::Files | PaneKind::Folders | PaneKind::Apps => orders(
                SortOrder::Name,
                SortOrder::Atime,
                SortOrder::Size,
                Some(SortOrder::Unsorted),
                None,
            ),
            PaneKind::Stash => orders(SortOrder::Name, SortOrder::Atime, SortOrder::Unsorted, None, None),
            PaneKind::Nav | PaneKind::Find | PaneKind::Custom => orders(
                SortOrder::Name,
                SortOrder::Mtime,
                SortOrder::Atime,
                Some(SortOrder::Size),
                Some(SortOrder::Unsorted),
            ),
        }
    }

    /// The orders of a search pane, without a pane at hand.
    pub fn search_sort_options() -> (v: Vec<SortOrder>)
        ensures
            v@ == sort_options_of(PaneKind::Search),
    {
        orders(SortOrder::Name, SortOrder::Mtime, SortOrder::Atime, Some(SortOrder::Unsorted), None)
    }

    /// Whether the pane offers any order.
    pub fn supports_sort(self) -> (b: bool)
        ensures
            b == (sort_options_of(self).len() > 0),
    {
        self.sort_options().len() > 0
    }

    /// Whether the pane has a visibility filter (hidden files, ignores).
    pub fn supports_vis(self) -> (b: bool)
        ensures
            b == (self is Nav || self is Custom || self is Find || self is Search),
    {
        match self {
            PaneKind::Nav | PaneKind::Custom | PaneKind::Find | PaneKind::Search => true,
            _ => false,
        }
    }

    /// The stability threshold of the pane under `sort`; `filtering` tells
    /// whether a search pane filters its results rather than searching.
    pub fn stability_threshold(self, filtering: bool, sort: SortOrder) -> (t: u32)
        ensures
            t == stability_of(self, filtering, sort),
    {
        match self {
            PaneKind::Files | PaneKind::Folders | PaneKind::Apps | PaneKind::Stash => 5,
            PaneKind::Search => {
                if filtering {
                    match sort {
                        SortOrder::Unsorted => 0,
                        _ => 40,
                    }
                } else {
                    u32::MAX
                }
            },
            PaneKind::Custom => 40,
            PaneKind::Nav | PaneKind::Find => match sort {
                SortOrder::Unsorted => 0,
                _ => 40,
            },
        }
    }
}

/// Unhide the metadata column for an explicit re-sort: a pane that its
/// source orders (database and search panes) never shows one and keeps the
/// marker. Returns whether a marker was taken.
pub fn take_hide_metadata(externally_sorted: bool, hide_metadata: &mut bool) -> (taken: bool)
    ensures
        taken == (!externally_sorted && *old(hide_metadata)),
        *final(hide_metadata) == (*old(hide_metadata) && externally_sorted),
{
    if !externally_sorted && *hide_metadata {
        *hide_metadata = false;
        true
    } else {
        false
    }
}

/// The sort mode to engage for the current pane, whose own order is
/// `pane_sort` and whose stability threshold is `stability`. With
/// `unhide_meta` an unsorted pane sets the hide-metadata marker and any
/// other takes it. A pane that its source orders engages no order. An
/// unsorted mode, and a sorted one while the marker hides the metadata,
/// engage the pane's stability; any other never yields to the match order.
pub fn engage_pane_sort(
    pane_sort: SortOrder,
    externally_sorted: bool,
    stability: u32,
    unhide_meta: bool,
    hide_metadata: &mut bool,
) -> (m: SortMode)
    ensures
        *final(hide_metadata) == if !unhide_meta {
            *old(hide_metadata)
        } else if pane_sort is Unsorted {
            true
        } else {
            *old(hide_metadata) && externally_sorted
        },
        m.order == (if externally_sorted { SortOrder::Unsorted } else { pane_sort }),
        m.threshold == (if m.order is Unsorted || *final(hide_metadata) { stability } else { u32::MAX }),
{
    if unhide_meta {
        match pane_sort {
            SortOrder::Unsorted => {
                *hide_metadata = true;
            },
            _ => {
                take_hide_metadata(externally_sorted, hide_metadata);
            },
        }
    }
    let order = if externally_sorted {
        SortOrder::Unsorted
    } else {
        pane_sort
    };
    let threshold = match order {
        SortOrder::Unsorted => stability,
        _ => if *hide_metadata {
            stability
        } else {
            u32::MAX
        },
    };
    SortMode { order, threshold }
}

/// What an order needs filled in before items can be sorted by it.
#[derive(Debug, Clone, Copy, PartialEq, Eq, Structural)]
pub enum SortFill {
    /// Nothing: names are at hand, and unsorted needs none.
    Nothing,
    /// The modification or access time of each item.
    Times,
    /// The size of each item (directories walked in the background).
    Sizes,
}

/// The fill an order needs.
pub fn sort_fill(order: SortOrder) -> (f: SortFill)
    ensures
        f == match order {
            SortOrder::Mtime | SortOrder::Atime => SortFill::Times,
            SortOrder::Size => SortFill::Sizes,
            SortOrder::Name | SortOrder::Unsorted => SortFill::Nothing,
        },
{
    match order {
        SortOrder::Mtime | SortOrder::Atime => SortFill::Times,
        SortOrder::Size => SortFill::Sizes,
        SortOrder::Name | SortOrder::Unsorted => SortFill::Nothing,
    }
}

} // verus!

verus! {

/// What items are sorted by: the display name, the stored sort value (a
/// time in seconds; all bits set when unknown) and the cached size.
#[derive(Debug, Clone)]
pub struct SortKey {
    pub name: String,
    pub value: u64,
    pub size: Option<u64>,
}

/// A cached size, an unknown one counting as empty.
pub open spec fn size_or_zero(s: Option<u64>) -> u64 {
    match s {
        Some(n) => n,
        None => 0,
    }
}

/// Whether the item inserted `i`-th with key `a` sorts before the one
/// inserted `j`-th with key `b`: by name ascending, by time or size
/// descending; ties keep the insertion order.
pub open spec fn sorts_before(order: SortOrder, i: u32, a: SortKey, j: u32, b: SortKey) -> bool {
    match order {
        SortOrder::Name => if a.name@ == b.name@ {
            i < j
        } else {
            text_lt(a.name@, b.name@)
        },
        SortOrder::Mtime | SortOrder::Atime => if a.value == b.value {
            i < j
        } else {
            b.value < a.value
        },
        SortOrder::Size => if size_or_zero(a.size) == size_or_zero(b.size) {
            i < j
        } else {
            size_or_zero(b.size) < size_or_zero(a.size)
        },
        SortOrder::Unsorted => false,
    }
}

/// The comparator of an order, applied to two items; `None` for
/// `Unsorted`, which leaves the match order alone.
pub fn item_before(order: SortOrder, i: u32, a: &SortKey, j: u32, b: &SortKey) -> (r: Option<bool>)
    ensures
        order is Unsorted ==> r is None,
        !(order is Unsorted) ==> r == Some(sorts_before(order, i, *a, j, *b)),
{
    match order {
        SortOrder::Unsorted => None,
        SortOrder::Name => {
            let x = to_chars(a.name.as_str());
            let y = to_chars(b.name.as_str());
            if crate::text::chars_eq(x.as_slice(), y.as_slice()) {
                Some(i < j)
            } else {
                Some(text_less(&x, &y))
            }
        },
        SortOrder::Mtime | SortOrder::Atime => {
            if a.value == b.value {
                Some(i < j)
            } else {
                Some(b.value < a.value)
            }
        },
        SortOrder::Size => {
            let sa: u64 = match a.size {
                Some(n) => n,
                None => 0,
            };
            let sb: u64 = match b.size {
                Some(n) => n,
                None => 0,
            };
            if sa == sb {
                Some(i < j)
            } else {
                Some(sb < sa)
            }
        },
    }
}

/// Every engaged order sorts items strictly and totally: no item before
/// itself, of two items inserted at different places exactly one first,
/// and before is transitive.
pub proof fn lemma_item_order_is_total(
    order: SortOrder,
    i: u32,
    a: SortKey,
    j: u32,
    b: SortKey,
    k: u32,
    c: SortKey,
)
    requires
        !(order is Unsorted),
    ensures
        !sorts_before(order, i, a, i, a),
        i != j ==> (sorts_before(order, i, a, j, b) <==> !sorts_before(order, j, b, i, a)),
        sorts_before(order, i, a, j, b) && sorts_before(order, j, b, k, c) ==> sorts_before(order, i, a, k, c),
{
    lemma_text_order(a.name@, b.name@, c.name@);
    lemma_text_order(b.name@, a.name@, a.name@);
    lemma_text_order(a.name@, c.name@, c.name@);
    lemma_text_order(c.name@, a.name@, b.name@);
}

} // verus!

verus! {

/// What the tail column of an item shows.
#[derive(Debug, Clone, Copy, PartialEq, Eq, Structural)]
pub enum TailCell {
    /// The item's own tail text.
    Tail,
    /// Nothing: the sort value is not known yet.
    Blank,
    /// A time, in seconds since the epoch.
    Time(u64),
    /// A size, in bytes.
    Size(u64),
}

/// The tail cell of an item under the engaged `order`: the sort value
/// replaces an empty plain tail unless the hide-metadata marker is set; a
/// time of all bits set, and a size not computed yet, show blank.
pub fn tail_cell(order: SortOrder, empty_plain_tail: bool, hide_metadata: bool, value: u64, size: Option<u64>) -> (c: TailCell)
    ensures
        c == if !((order is Mtime || order is Atime || order is Size) && empty_plain_tail && !hide_metadata) {
            TailCell::Tail
        } else if order is Size {
            match size {
                Some(n) => TailCell::Size(n),
                None => TailCell::Blank,
            }
        } else if value == u64::MAX {
            TailCell::Blank
        } else {
            TailCell::Time(value)
        },
{
    let valued = match order {
        SortOrder::Mtime | SortOrder::Atime | SortOrder::Size => true,
        _ => false,
    };
    if !(valued && empty_plain_tail && !hide_metadata) {
        return TailCell::Tail;
    }
    match order {
        SortOrder::Size => match size {
            Some(n) => TailCell::Size(n),
            None => TailCell::Blank,
        },
        _ => if value == u64::MAX {
            TailCell::Blank
        } else {
            TailCell::Time(value)
        },
    }
}

} // verus!
