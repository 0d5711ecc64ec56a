//! The stash: shared rows waiting to be transferred, and named scratch
//! lists, with the stash modes that decide where a stashed path goes.

pub mod execute;
pub mod mem;
pub mod scratch_list;
pub mod status;

use vstd::prelude::*;
use crate::collections::{entry_index, key_is};
use crate::run::queue::state::swapped;
use crate::run::stash::scratch_list::{PairView, ScratchList, pair_view};
use crate::run::stash::status::{StashItemState, StashItemStatus};
use crate::text::{first_index, lemma_first_index, lemma_first_index_is, str_eq, vec_swap};
use vstd::pervasive::VecAdditionalExecFns;

verus! {

/// How a stash kind adds a path it may already hold.
#[derive(Debug, Clone, Copy, PartialEq, Eq, Structural)]
pub enum StashAddRule {
    /// Always add.
    False,
    /// Add only a path not held yet.
    True,
    /// A held path moves to the end; at most `n` paths (`0`: no cap), the
    /// last one making room.
    Limit(u8),
}

impl StashAddRule {
    /// `True`.
    pub fn is_true(&self) -> (b: bool)
        ensures
            b == (*self == StashAddRule::True),
    {
        match self {
            StashAddRule::True => true,
            _ => false,
        }
    }
}

/// The configured behaviour of a stash kind.
#[derive(Debug, Clone, Copy, PartialEq, Eq, Structural)]
pub struct StashMode {
    /// Paths go to a scratch list of the kind's name, not to the shared rows.
    pub scratch: bool,
    /// The kind needs a destination.
    pub target: bool,
    pub unique: StashAddRule,
    /// Rows of the kind are transferred together.
    pub batch: bool,
}

/// The mode of a kind that is not configured.
pub open spec fn default_stash_mode() -> StashMode {
    StashMode { scratch: false, target: false, unique: StashAddRule::False, batch: false }
}

impl Default for StashMode {
    fn default() -> (m: Self)
        ensures
            m == default_stash_mode(),
    {
        StashMode { scratch: false, target: false, unique: StashAddRule::False, batch: false }
    }
}

/// One shared stash row.
#[derive(Debug)]
pub struct StashItem {
    pub kind: String,
    pub src: String,
    pub status: StashItemStatus,
    /// Destination; empty means the navigation directory.
    pub dst: String,
}

/// The model of a shared row.
pub struct StashRow {
    pub kind: Seq<char>,
    pub src: Seq<char>,
    pub status: StashItemStatus,
    pub dst: Seq<char>,
}

/// The model of an item.
pub open spec fn stash_row(it: StashItem) -> StashRow {
    StashRow { kind: it.kind@, src: it.src@, status: it.status, dst: it.dst@ }
}

/// A fresh pending row of `kind` over `src`, with no destination.
pub open spec fn new_stash_row(kind: Seq<char>, src: Seq<char>, size: u64) -> StashRow {
    StashRow {
        kind,
        src,
        status: StashItemStatus { state: StashItemState::Pending, progress: 0, size },
        dst: Seq::empty(),
    }
}

impl StashItem {
    /// A pending row; `size` is the source's size in bytes.
    pub fn new(kind: String, src: String, size: u64) -> (it: Self)
        ensures
            stash_row(it) == new_stash_row(kind@, src@, size),
    {
        StashItem { kind, src, status: StashItemStatus::new(size), dst: String::new() }
    }

    /// The source as shown, with the directory `home` abbreviated to `~`.
    pub fn display(&self, home: &str) -> (s: String)
        ensures
            s@ == crate::paths::short_path(self.src@, home@),
    {
        crate::paths::display_short(self.src.as_str(), home)
    }

    /// A copy of the row.
    pub fn copy(&self) -> (it: Self)
        ensures
            stash_row(it) == stash_row(*self),
    {
        StashItem {
            kind: self.kind.clone(),
            src: self.src.clone(),
            status: self.status,
            dst: self.dst.clone(),
        }
    }
}

/// The model of a scratch list: its cap (`None` for a unique list) and pairs.
pub type ListModel = (Option<u8>, Seq<PairView>);

/// The model of a named scratch list.
pub open spec fn named_list(e: (String, ScratchList)) -> (Seq<char>, ListModel) {
    (e.0@, (e.1.cap(), e.1.entries()))
}

/// The model of a configured mode.
pub open spec fn named_mode(e: (String, StashMode)) -> (Seq<char>, StashMode) {
    (e.0@, e.1)
}

/// The whole stash.
#[derive(Debug)]
pub struct StashState {
    pub shared: Vec<StashItem>,
    /// Named scratch lists; after `init`, `app` and `revert` come first.
    pub scratch: Vec<(String, ScratchList)>,
    /// The scratch list shown.
    pub current_scratch: usize,
    /// Configured modes, by kind.
    pub modes: Vec<(String, StashMode)>,
}

/// The mode configured for `kind` (the first match), or the default.
pub open spec fn mode_of(modes: Seq<(Seq<char>, StashMode)>, kind: Seq<char>) -> StashMode {
    let i = entry_index(modes, kind);
    if i >= 0 {
        modes[i].1
    } else {
        default_stash_mode()
    }
}

impl StashState {
    /// The shared rows, in order.
    pub open spec fn rows(&self) -> Seq<StashRow> {
        self.shared@.map_values(|it: StashItem| stash_row(it))
    }

    /// The scratch lists, in order.
    pub open spec fn lists(&self) -> Seq<(Seq<char>, ListModel)> {
        self.scratch@.map_values(|e: (String, ScratchList)| named_list(e))
    }

    /// The configured modes, in order.
    pub open spec fn mode_table(&self) -> Seq<(Seq<char>, StashMode)> {
        self.modes@.map_values(|e: (String, StashMode)| named_mode(e))
    }

    /// The current list is a list (or there is none and it is `0`), and
    /// each unique list holds a path once.
    pub open spec fn wf(&self) -> bool {
        &&& (self.current_scratch < self.scratch@.len() || (self.scratch@.len() == 0
            && self.current_scratch == 0))
        &&& forall|k: int| 0 <= k < self.scratch@.len() ==> (#[trigger] self.scratch@[k]).1.wf()
    }

    /// The pairs of the current scratch list.
    pub open spec fn current_entries(&self) -> Seq<PairView> {
        self.scratch@[self.current_scratch as int].1.entries()
    }

    /// An empty stash, not yet initialised.
    pub fn new() -> (s: Self)
        ensures
            s.rows().len() == 0,
            s.lists().len() == 0,
            s.mode_table().len() == 0,
            s.current_scratch == 0,
            s.wf(),
    {
        StashState { shared: Vec::new(), scratch: Vec::new(), current_scratch: 0, modes: Vec::new() }
    }
}

/// The stash operations.
pub struct STASH;

/// Whether `kind` is a scratch kind under `modes`.
pub open spec fn is_scratch_spec(modes: Seq<(Seq<char>, StashMode)>, kind: Seq<char>) -> bool {
    kind == "app"@ || kind == "revert"@ || mode_of(modes, kind).scratch
}

/// Whether `kind` needs a destination under `modes`.
pub open spec fn has_target_spec(modes: Seq<(Seq<char>, StashMode)>, kind: Seq<char>) -> bool {
    !(kind == "app"@ || kind == "copy"@ || kind == "cut"@ || kind == "symlink"@ || kind == "revert"@)
        && mode_of(modes, kind).target
}

/// The title of a scratch list.
pub open spec fn scratch_title_spec(name: Seq<char>) -> Seq<char> {
    if name == "app"@ {
        "App (To open)"@
    } else {
        name
    }
}

/// The list shown after a cycle step over `len` lists.
pub open spec fn cycled(current: int, len: int, forwards: bool) -> int {
    if len == 0 {
        current
    } else if forwards {
        (current + 1) % len
    } else {
        (current + len - 1) % len
    }
}

/// The position of the first list named `kind`.
fn list_position(scratch: &Vec<(String, ScratchList)>, kind: &str) -> (r: Option<usize>)
    ensures
        match r {
            Some(i) => i == entry_index(
                scratch@.map_values(|e: (String, ScratchList)| named_list(e)),
                kind@,
            ),
            None => entry_index(scratch@.map_values(|e: (String, ScratchList)| named_list(e)), kind@)
                < 0,
        },
{
    let ghost l = scratch@.map_values(|e: (String, ScratchList)| named_list(e));
    let mut i: usize = 0;
    while i < scratch.len()
        invariant
            l == scratch@.map_values(|e: (String, ScratchList)| named_list(e)),
            i <= scratch.len(),
            forall|j: int| 0 <= j < i ==> !(#[trigger] key_is::<ListModel>(kind@)(l[j])),
        decreases scratch.len() - i,
    {
        if str_eq(scratch[i].0.as_str(), kind) {
            proof {
                lemma_first_index_is(l, key_is(kind@), i as int);
            }
            return Some(i);
        }
        assert(!key_is::<ListModel>(kind@)(l[i as int]));
        i = i + 1;
    }
    proof {
        lemma_first_index_is(l, key_is(kind@), -1);
    }
    None
}

impl STASH {
    /// The mode configured for `kind`, or the default one. Builtin kinds
    /// have no configured mode.
    pub fn get_mode(state: &StashState, kind: &str) -> (m: StashMode)
        ensures
            m == mode_of(state.mode_table(), kind@),
    {
        let ghost t = state.mode_table();
        let mut i: usize = 0;
        while i < state.modes.len()
            invariant
                t == state.mode_table(),
                i <= state.modes.len(),
                forall|j: int| 0 <= j < i ==> !(#[trigger] key_is::<StashMode>(kind@)(t[j])),
            decreases state.modes.len() - i,
        {
            if str_eq(state.modes[i].0.as_str(), kind) {
                proof {
                    lemma_first_index_is(t, key_is(kind@), i as int);
                }
                return state.modes[i].1;
            }
            assert(!key_is::<StashMode>(kind@)(t[i as int]));
            i = i + 1;
        }
        proof {
            lemma_first_index_is(t, key_is(kind@), -1);
        }
        StashMode::default()
    }

    /// Whether paths of `kind` go to a scratch list: `app` and `revert`
    /// always do.
    pub fn is_scratch(state: &StashState, kind: &str) -> (b: bool)
        ensures
            b == is_scratch_spec(state.mode_table(), kind@),
    {
        proof {
            reveal_strlit("app");
            reveal_strlit("revert");
        }
        if str_eq(kind, "app") || str_eq(kind, "revert") {
            return true;
        }
        STASH::get_mode(state, kind).scratch
    }

    /// Whether `kind` needs a destination; the builtin kinds do not.
    pub fn has_target(state: &StashState, kind: &str) -> (b: bool)
        ensures
            b == has_target_spec(state.mode_table(), kind@),
    {
        if str_eq(kind, "app") {
            return false;
        }
        if str_eq(kind, "copy") || str_eq(kind, "cut") || str_eq(kind, "symlink") || str_eq(
            kind,
            "revert",
        ) {
            return false;
        }
        STASH::get_mode(state, kind).target
    }

    /// Whether `kind` adds a path only once.
    pub fn is_unique(state: &StashState, kind: &str) -> (b: bool)
        ensures
            b == (mode_of(state.mode_table(), kind@).unique == StashAddRule::True),
    {
        STASH::get_mode(state, kind).unique.is_true()
    }

    /// The name of the current scratch list.
    pub fn current_scratch(state: &StashState) -> (s: String)
        requires
            state.wf(),
            state.scratch@.len() > 0,
        ensures
            s@ == state.lists()[state.current_scratch as int].0,
    {
        state.scratch[state.current_scratch].0.clone()
    }

    /// The title of the current scratch list: `App (To open)` for `app`,
    /// the name otherwise.
    pub fn scratch_title(state: &StashState) -> (s: String)
        requires
            state.wf(),
            state.scratch@.len() > 0,
        ensures
            s@ == scratch_title_spec(state.lists()[state.current_scratch as int].0),
    {
        let val = &state.scratch[state.current_scratch].0;
        if str_eq(val.as_str(), "app") {
            "App (To open)".to_string()
        } else {
            val.clone()
        }
    }

    /// Shows the first list named `kind`; `false` when there is none.
    pub fn set_scratch(state: &mut StashState, kind: &str) -> (found: bool)
        ensures
            found == (entry_index(old(state).lists(), kind@) >= 0),
            final(state).current_scratch == (if found {
                entry_index(old(state).lists(), kind@) as usize
            } else {
                old(state).current_scratch
            }),
            final(state).shared == old(state).shared,
            final(state).scratch == old(state).scratch,
            final(state).modes == old(state).modes,
            old(state).wf() ==> final(state).wf(),
    {
        match list_position(&state.scratch, kind) {
            Some(pos) => {
                proof {
                    lemma_first_index(state.lists(), key_is(kind@));
                }
                state.current_scratch = pos;
                true
            },
            None => false,
        }
    }

    /// Shows the next (or previous) scratch list, wrapping around.
    pub fn cycle_scratch(state: &mut StashState, forwards: bool)
        requires
            old(state).wf(),
        ensures
            final(state).current_scratch == cycled(
                old(state).current_scratch as int,
                old(state).scratch@.len() as int,
                forwards,
            ),
            final(state).shared == old(state).shared,
            final(state).scratch == old(state).scratch,
            final(state).modes == old(state).modes,
            final(state).wf(),
    {
        let len = state.scratch.len();
        if len == 0 {
            return;
        }
        if forwards {
            state.current_scratch = (state.current_scratch + 1) % len;
        } else {
            let cur = state.current_scratch;
            let prev = if cur == 0 {
                len - 1
            } else {
                cur - 1
            };
            assert(prev as int == (cur + len - 1) % (len as int)) by (nonlinear_arith)
                requires
                    cur < len,
                    prev == (if cur == 0 { len - 1 } else { cur - 1 }),
            ;
            state.current_scratch = prev;
        }
    }
}

/// The scratch position after `n` steps in one direction.
pub open spec fn cycled_times(current: int, len: int, forwards: bool, n: nat) -> int
    decreases n,
{
    if n == 0 {
        current
    } else {
        cycled(cycled_times(current, len, forwards, (n - 1) as nat), len, forwards)
    }
}

/// `n` steps forwards move `n` lists on, `n` steps backwards `n` lists
/// back, modulo the number of lists.
pub proof fn lemma_cycled_times(current: int, len: int, forwards: bool, n: nat)
    requires
        0 <= current < len,
    ensures
        cycled_times(current, len, forwards, n) == (if forwards {
            (current + n) % len
        } else {
            (current - n) % len
        }),
    decreases n,
{
    if n == 0 {
        vstd::arithmetic::div_mod::lemma_small_mod(current as nat, len as nat);
    } else {
        lemma_cycled_times(current, len, forwards, (n - 1) as nat);
        if forwards {
            vstd::arithmetic::div_mod::lemma_add_mod_noop_right(1, current + n - 1, len);
        } else {
            vstd::arithmetic::div_mod::lemma_add_mod_noop_right(len - 1, current - n + 1, len);
            vstd::arithmetic::div_mod::lemma_mod_add_multiples_vanish(current - n, len);
        }
    }
}

/// As many steps as there are scratch lists, in either direction, show the
/// same list again.
pub proof fn lemma_cycle_full_turn(current: int, len: int, forwards: bool)
    requires
        0 <= current < len,
    ensures
        cycled_times(current, len, forwards, len as nat) == current,
{
    lemma_cycled_times(current, len, forwards, len as nat);
    vstd::arithmetic::div_mod::lemma_small_mod(current as nat, len as nat);
    if forwards {
        vstd::arithmetic::div_mod::lemma_mod_add_multiples_vanish(current, len);
    } else {
        vstd::arithmetic::div_mod::lemma_mod_sub_multiples_vanish(current, len);
    }
}

/// Stepping forwards and then backwards shows the same scratch list again,
/// and so does stepping backwards and then forwards.
pub proof fn lemma_cycle_round_trip(current: int, len: int, forwards: bool)
    requires
        0 <= current < len,
    ensures
        cycled(cycled(current, len, forwards), len, !forwards) == current,
{
    if forwards {
        if current + 1 < len {
            assert((current + 1) % len == current + 1) by (nonlinear_arith)
                requires 0 <= current + 1 < len;
            assert((current + 1 + len - 1) % len == current) by (nonlinear_arith)
                requires 0 <= current < len, current + 1 + len - 1 == current + len;
        } else {
            assert((current + 1) % len == 0) by (nonlinear_arith)
                requires current + 1 == len, len > 0;
            assert((0 + len - 1) % len == current) by (nonlinear_arith)
                requires current == len - 1, len > 0;
        }
    } else {
        if current > 0 {
            assert((current + len - 1) % len == current - 1) by (nonlinear_arith)
                requires 0 < current < len;
            assert((current - 1 + 1) % len == current) by (nonlinear_arith)
                requires 0 < current < len;
        } else {
            assert((current + len - 1) % len == len - 1) by (nonlinear_arith)
                requires current == 0, len > 0;
            assert((len - 1 + 1) % len == 0) by (nonlinear_arith)
                requires len > 0;
        }
    }
}

} // verus!

verus! {

/// Whether a row is `kind`'s row over `path`.
pub open spec fn same_item(kind: Seq<char>, path: Seq<char>) -> spec_fn(StashRow) -> bool {
    |r: StashRow| r.src == path && r.kind == kind
}

/// Whether a row is of `kind`.
pub open spec fn of_kind(kind: Seq<char>) -> spec_fn(StashRow) -> bool {
    |r: StashRow| r.kind == kind
}

/// The index of the last element of `s` satisfying `p`, or `-1`.
pub open spec fn last_index<A>(s: Seq<A>, p: spec_fn(A) -> bool) -> int
    decreases s.len(),
{
    if s.len() == 0 {
        -1
    } else if p(s.last()) {
        s.len() - 1
    } else {
        last_index(s.drop_last(), p)
    }
}

/// `last_index` is an index of `s` whose element satisfies `p`.
pub proof fn lemma_last_index<A>(s: Seq<A>, p: spec_fn(A) -> bool)
    ensures
        -1 <= last_index(s, p) < s.len(),
        last_index(s, p) >= 0 ==> p(s[last_index(s, p)]),
    decreases s.len(),
{
    if s.len() > 0 && !p(s.last()) {
        lemma_last_index(s.drop_last(), p);
    }
}

/// The shared rows after adding `path` under `kind` with the add rule `rule`.
pub open spec fn shared_add(rows: Seq<StashRow>, kind: Seq<char>, rule: StashAddRule, path: Seq<char>, size: u64) -> Seq<
    StashRow,
> {
    let fresh = new_stash_row(kind, path, size);
    let i = first_index(rows, same_item(kind, path));
    match rule {
        StashAddRule::False => rows.push(fresh),
        StashAddRule::True => if i >= 0 {
            rows
        } else {
            rows.push(fresh)
        },
        StashAddRule::Limit(n) => if i >= 0 {
            rows.remove(i).push(fresh)
        } else if n > 0 && rows.filter(of_kind(kind)).len() >= n {
            let j = last_index(rows, of_kind(kind));
            (if j >= 0 {
                rows.remove(j)
            } else {
                rows
            }).push(fresh)
        } else {
            rows.push(fresh)
        },
    }
}

/// The cap of the scratch list a mode creates (`None`: a unique list).
pub open spec fn rule_cap(rule: StashAddRule) -> Option<u8> {
    match rule {
        StashAddRule::False => Some(0u8),
        StashAddRule::True => None,
        StashAddRule::Limit(n) => Some(n),
    }
}

/// The scratch lists after adding `path` under `kind`: the first list
/// named `kind` takes it, or a new list made by `rule` is added for it.
pub open spec fn scratch_add(lists: Seq<(Seq<char>, ListModel)>, kind: Seq<char>, rule: StashAddRule, path: Seq<char>) -> Seq<
    (Seq<char>, ListModel),
> {
    let i = entry_index(lists, kind);
    if i >= 0 {
        let cap = lists[i].1.0;
        lists.update(i, (kind, (cap, scratch_list::list_push(cap, lists[i].1.1, path, Seq::empty()))))
    } else {
        let cap = rule_cap(rule);
        lists.push(
            (kind, (cap, scratch_list::list_push(cap, Seq::empty(), path, Seq::empty()))),
        )
    }
}

/// The rows and scratch lists of the stash.
pub struct StashModel {
    pub rows: Seq<StashRow>,
    pub lists: Seq<(Seq<char>, ListModel)>,
}

/// Adding one path under `kind` with `mode`.
pub open spec fn stash_one(m: StashModel, kind: Seq<char>, mode: StashMode, path: Seq<char>, size: u64) -> StashModel {
    if mode.scratch {
        StashModel { rows: m.rows, lists: scratch_add(m.lists, kind, mode.unique, path) }
    } else {
        StashModel { rows: shared_add(m.rows, kind, mode.unique, path, size), lists: m.lists }
    }
}

/// Adding `paths` one by one under `kind` with `mode`.
pub open spec fn extend_spec(
    m: StashModel,
    kind: Seq<char>,
    mode: StashMode,
    paths: Seq<Seq<char>>,
    sizes: Seq<u64>,
) -> StashModel
    decreases paths.len(),
{
    if paths.len() == 0 || sizes.len() == 0 {
        m
    } else {
        stash_one(
            extend_spec(m, kind, mode, paths.drop_last(), sizes.drop_last()),
            kind,
            mode,
            paths.last(),
            sizes.last(),
        )
    }
}

impl StashState {
    /// The rows and scratch lists.
    pub open spec fn model(&self) -> StashModel {
        StashModel { rows: self.rows(), lists: self.lists() }
    }
}

/// The first row of `kind` over `path`.
fn find_item(shared: &Vec<StashItem>, kind: &str, path: &str) -> (r: Option<usize>)
    ensures
        match r {
            Some(i) => i == first_index(
                shared@.map_values(|it: StashItem| stash_row(it)),
                same_item(kind@, path@),
            ),
            None => first_index(
                shared@.map_values(|it: StashItem| stash_row(it)),
                same_item(kind@, path@),
            ) < 0,
        },
{
    let ghost rows = shared@.map_values(|it: StashItem| stash_row(it));
    let mut i: usize = 0;
    while i < shared.len()
        invariant
            rows == shared@.map_values(|it: StashItem| stash_row(it)),
            i <= shared.len(),
            forall|j: int| 0 <= j < i ==> !(#[trigger] same_item(kind@, path@)(rows[j])),
        decreases shared.len() - i,
    {
        if str_eq(shared[i].src.as_str(), path) && str_eq(shared[i].kind.as_str(), kind) {
            proof {
                lemma_first_index_is(rows, same_item(kind@, path@), i as int);
            }
            return Some(i);
        }
        assert(!same_item(kind@, path@)(rows[i as int]));
        i = i + 1;
    }
    proof {
        lemma_first_index_is(rows, same_item(kind@, path@), -1);
    }
    None
}

/// The number of rows of `kind`, and the last one.
fn kind_count_and_last(shared: &Vec<StashItem>, kind: &str) -> (r: (usize, Option<usize>))
    ensures
        r.0 == shared@.map_values(|it: StashItem| stash_row(it)).filter(of_kind(kind@)).len(),
        match r.1 {
            Some(j) => j == last_index(shared@.map_values(|it: StashItem| stash_row(it)), of_kind(kind@)),
            None => last_index(shared@.map_values(|it: StashItem| stash_row(it)), of_kind(kind@)) < 0,
        },
{
    let ghost rows = shared@.map_values(|it: StashItem| stash_row(it));
    let ghost p = of_kind(kind@);
    let mut count: usize = 0;
    let mut last: Option<usize> = None;
    let mut i: usize = 0;
    while i < shared.len()
        invariant
            rows == shared@.map_values(|it: StashItem| stash_row(it)),
            p == of_kind(kind@),
            i <= shared.len(),
            count <= i,
            count == rows.take(i as int).filter(p).len(),
            match last {
                Some(j) => j == last_index(rows.take(i as int), p),
                None => last_index(rows.take(i as int), p) < 0,
            },
        decreases shared.len() - i,
    {
        let hit = str_eq(shared[i].kind.as_str(), kind);
        proof {
            assert(rows.take(i + 1).drop_last() =~= rows.take(i as int));
            assert(rows.take(i + 1).last() == rows[i as int]);
            assert(hit == p(rows[i as int]));
            reveal(Seq::filter);
            assert(rows.take(i + 1).filter(p) == (if p(rows[i as int]) {
                rows.take(i as int).filter(p).push(rows[i as int])
            } else {
                rows.take(i as int).filter(p)
            }));
        }
        if hit {
            count = count + 1;
            last = Some(i);
        }
        i = i + 1;
    }
    assert(rows.take(shared.len() as int) =~= rows);
    (count, last)
}

/// Adds `path` under `kind` to the shared rows by `rule`.
fn shared_add_exec(shared: &mut Vec<StashItem>, kind: &str, rule: StashAddRule, path: String, size: u64)
    ensures
        final(shared)@.map_values(|it: StashItem| stash_row(it)) == shared_add(
            old(shared)@.map_values(|it: StashItem| stash_row(it)),
            kind@,
            rule,
            path@,
            size,
        ),
{
    let ghost rows0 = shared@.map_values(|it: StashItem| stash_row(it));
    let fresh = StashItem::new(kind.to_owned(), path, size);
    match rule {
        StashAddRule::False => {
            shared.push(fresh);
            assert(shared@.map_values(|it: StashItem| stash_row(it)) =~= rows0.push(stash_row(fresh)));
        },
        StashAddRule::True => {
            if find_item(shared, kind, fresh.src.as_str()).is_none() {
                shared.push(fresh);
                assert(shared@.map_values(|it: StashItem| stash_row(it)) =~= rows0.push(stash_row(fresh)));
            }
        },
        StashAddRule::Limit(n) => {
            match find_item(shared, kind, fresh.src.as_str()) {
                Some(i) => {
                    proof {
                        lemma_first_index(rows0, same_item(kind@, path@));
                    }
                    shared.remove(i);
                    let ghost mid = shared@.map_values(|it: StashItem| stash_row(it));
                    assert(mid =~= rows0.remove(i as int));
                    shared.push(fresh);
                    assert(shared@.map_values(|it: StashItem| stash_row(it)) =~= mid.push(stash_row(fresh)));
                },
                None => {
                    let (count, last) = kind_count_and_last(shared, kind);
                    if count >= n as usize && n > 0 {
                        if let Some(j) = last {
                            proof {
                                lemma_last_index(rows0, of_kind(kind@));
                            }
                            shared.remove(j);
                            assert(shared@.map_values(|it: StashItem| stash_row(it)) =~= rows0.remove(j as int));
                        }
                    }
                    let ghost mid = shared@.map_values(|it: StashItem| stash_row(it));
                    shared.push(fresh);
                    assert(shared@.map_values(|it: StashItem| stash_row(it)) =~= mid.push(stash_row(fresh)));
                },
            }
        },
    }
}

} // verus!

verus! {

/// The empty list a mode creates.
fn list_for_rule(rule: StashAddRule) -> (l: ScratchList)
    ensures
        l.cap() == rule_cap(rule),
        l.entries() == Seq::<PairView>::empty(),
        l.wf(),
{
    match rule {
        StashAddRule::False => ScratchList::new_vec(0),
        StashAddRule::True => ScratchList::new_map(),
        StashAddRule::Limit(n) => ScratchList::new_vec(n),
    }
}

/// Adds `path` under `kind` to the scratch lists.
fn scratch_add_exec(scratch: &mut Vec<(String, ScratchList)>, kind: &str, rule: StashAddRule, path: String)
    requires
        forall|k: int| 0 <= k < old(scratch)@.len() ==> (#[trigger] old(scratch)@[k]).1.wf(),
    ensures
        final(scratch)@.map_values(|e: (String, ScratchList)| named_list(e)) == scratch_add(
            old(scratch)@.map_values(|e: (String, ScratchList)| named_list(e)),
            kind@,
            rule,
            path@,
        ),
        forall|k: int| 0 <= k < final(scratch)@.len() ==> (#[trigger] final(scratch)@[k]).1.wf(),
        final(scratch)@.len() >= old(scratch)@.len(),
{
    let ghost l0 = scratch@.map_values(|e: (String, ScratchList)| named_list(e));
    let pos = match list_position(scratch, kind) {
        Some(p) => {
            proof {
                lemma_first_index(l0, key_is(kind@));
            }
            p
        },
        None => {
            scratch.push((kind.to_owned(), list_for_rule(rule)));
            assert(scratch@.map_values(|e: (String, ScratchList)| named_list(e)) =~= l0.push(
                (kind@, (rule_cap(rule), Seq::<PairView>::empty())),
            ));
            scratch.len() - 1
        },
    };
    let ghost before = scratch@;
    assert(before[pos as int].1.wf());
    scratch[pos].1.push(path, String::new());
    proof {
        reveal_strlit("");
    }
    assert(scratch@.len() == before.len());
    assert forall|k: int| 0 <= k < scratch@.len() && k != pos implies scratch@[k] == before[k] by {}
    assert(scratch@.map_values(|e: (String, ScratchList)| named_list(e)) =~= scratch_add(l0, kind@, rule, path@));
}

} // verus!

verus! {

impl STASH {
    /// Adds `paths` one by one under `kind`, by the kind's mode: a scratch
    /// kind adds them to its scratch list (made on first use), another kind
    /// to the shared rows by its add rule. `sizes` are the sources' sizes
    /// in bytes.
    pub fn extend(state: &mut StashState, kind: &str, paths: &Vec<String>, sizes: &Vec<u64>)
        requires
            old(state).wf(),
            paths@.len() == sizes@.len(),
        ensures
            final(state).model() == extend_spec(
                old(state).model(),
                kind@,
                mode_of(old(state).mode_table(), kind@),
                paths.deep_view(),
                sizes@,
            ),
            final(state).modes == old(state).modes,
            final(state).current_scratch == old(state).current_scratch,
            final(state).wf(),
    {
        let mode = STASH::get_mode(state, kind);
        let ghost m0 = state.model();
        let ghost pv = paths.deep_view();
        let mut i: usize = 0;
        assert(pv.take(0) =~= Seq::<Seq<char>>::empty());
        while i < paths.len()
            invariant
                pv == paths.deep_view(),
                paths@.len() == sizes@.len(),
                i <= paths@.len(),
                state.model() == extend_spec(m0, kind@, mode, pv.take(i as int), sizes@.take(i as int)),
                state.modes == old(state).modes,
                state.current_scratch == old(state).current_scratch,
                state.wf(),
                state.scratch@.len() >= old(state).scratch@.len(),
            decreases paths@.len() - i,
        {
            let path = paths[i].clone();
            let ghost before = state.model();
            if mode.scratch {
                scratch_add_exec(&mut state.scratch, kind, mode.unique, path);
            } else {
                shared_add_exec(&mut state.shared, kind, mode.unique, path, sizes[i]);
            }
            proof {
                assert(pv.take(i + 1).drop_last() =~= pv.take(i as int));
                assert(sizes@.take(i + 1).drop_last() =~= sizes@.take(i as int));
                assert(pv[i as int] == paths@[i as int]@);
                assert(state.model() == stash_one(before, kind@, mode, pv[i as int], sizes@[i as int]));
            }
            i = i + 1;
        }
        assert(pv.take(paths@.len() as int) =~= pv);
        assert(sizes@.take(paths@.len() as int) =~= sizes@);
    }

    /// Adds one path under `kind`; see [`STASH::extend`].
    pub fn stash(state: &mut StashState, kind: &str, path: String, size: u64)
        requires
            old(state).wf(),
        ensures
            final(state).model() == stash_one(
                old(state).model(),
                kind@,
                mode_of(old(state).mode_table(), kind@),
                path@,
                size,
            ),
            final(state).modes == old(state).modes,
            final(state).current_scratch == old(state).current_scratch,
            final(state).wf(),
    {
        let mut paths: Vec<String> = Vec::new();
        paths.push(path);
        let mut sizes: Vec<u64> = Vec::new();
        sizes.push(size);
        let ghost m0 = state.model();
        let ghost mode = mode_of(state.mode_table(), kind@);
        STASH::extend(state, kind, &paths, &sizes);
        proof {
            assert(paths.deep_view() =~= seq![path@]);
            assert(paths.deep_view().drop_last() =~= Seq::<Seq<char>>::empty());
            assert(sizes@.drop_last() =~= Seq::<u64>::empty());
            assert(extend_spec(m0, kind@, mode, paths.deep_view().drop_last(), sizes@.drop_last()) == m0);
        }
    }
}

} // verus!

verus! {

/// The scratch lists configured by `modes`: one per scratch kind other than
/// `app` and `revert`, in order.
pub open spec fn configured_lists(modes: Seq<(Seq<char>, StashMode)>) -> Seq<(Seq<char>, ListModel)>
    decreases modes.len(),
{
    if modes.len() == 0 {
        Seq::empty()
    } else {
        let r = configured_lists(modes.drop_last());
        let m = modes.last();
        if m.1.scratch && m.0 != "app"@ && m.0 != "revert"@ {
            r.push((m.0, (rule_cap(m.1.unique), Seq::<PairView>::empty())))
        } else {
            r
        }
    }
}

/// The scratch lists after `init` with `modes`: `app` and `revert`
/// (unique lists) first, then the configured ones.
pub open spec fn init_lists(modes: Seq<(Seq<char>, StashMode)>) -> Seq<(Seq<char>, ListModel)> {
    seq![
        ("app"@, (None::<u8>, Seq::<PairView>::empty())),
        ("revert"@, (None::<u8>, Seq::<PairView>::empty())),
    ] + configured_lists(modes)
}

/// The path and destination of a shared row.
pub open spec fn row_pair(r: StashRow) -> PairView {
    (r.src, r.dst)
}

/// The row with the given replacements.
pub open spec fn edited_row(r: StashRow, path: Option<String>, dst: Option<String>) -> StashRow {
    StashRow {
        kind: r.kind,
        src: match path {
            Some(p) => p@,
            None => r.src,
        },
        status: r.status,
        dst: match dst {
            Some(d) => d@,
            None => r.dst,
        },
    }
}

impl StashState {
    /// The pairs of the targeted list: the current scratch list, or the
    /// shared rows.
    pub open spec fn target_pairs(&self, scratch: bool) -> Seq<PairView> {
        if scratch {
            self.current_entries()
        } else {
            self.rows().map_values(|r: StashRow| row_pair(r))
        }
    }

    /// The scratch lists with the current one's pairs replaced by `e`.
    pub open spec fn with_current(&self, e: Seq<PairView>) -> Seq<(Seq<char>, ListModel)> {
        let c = self.current_scratch as int;
        self.lists().update(c, (self.lists()[c].0, (self.lists()[c].1.0, e)))
    }
}

impl STASH {
    /// Installs the configured `modes` and makes the scratch lists afresh:
    /// `app` and `revert` first, then one per configured scratch kind.
    pub fn init(state: &mut StashState, modes: Vec<(String, StashMode)>)
        ensures
            final(state).mode_table() == modes@.map_values(|e: (String, StashMode)| named_mode(e)),
            final(state).lists() == init_lists(modes@.map_values(|e: (String, StashMode)| named_mode(e))),
            final(state).rows() == old(state).rows(),
            final(state).current_scratch == old(state).current_scratch,
            final(state).current_scratch < 2 ==> final(state).wf(),
    {
        let ghost t = modes@.map_values(|e: (String, StashMode)| named_mode(e));
        let mut lists: Vec<(String, ScratchList)> = Vec::new();
        lists.push(("app".to_string(), ScratchList::new_map()));
        lists.push(("revert".to_string(), ScratchList::new_map()));
        proof {
            reveal_strlit("app");
            reveal_strlit("revert");
        }
        let mut i: usize = 0;
        assert(t.take(0) =~= Seq::<(Seq<char>, StashMode)>::empty());
        assert(lists@.map_values(|e: (String, ScratchList)| named_list(e)) =~= init_lists(t.take(0)));
        while i < modes.len()
            invariant
                t == modes@.map_values(|e: (String, StashMode)| named_mode(e)),
                i <= modes@.len(),
                lists@.map_values(|e: (String, ScratchList)| named_list(e)) == init_lists(t.take(i as int)),
                lists@.len() >= 2,
                forall|k: int| 0 <= k < lists@.len() ==> (#[trigger] lists@[k]).1.wf(),
            decreases modes@.len() - i,
        {
            let ghost before = lists@.map_values(|e: (String, ScratchList)| named_list(e));
            let kind = &modes[i].0;
            let mode = modes[i].1;
            proof {
                assert(t.take(i + 1).drop_last() =~= t.take(i as int));
                assert(t.take(i + 1).last() == t[i as int]);
            }
            if mode.scratch && !str_eq(kind.as_str(), "app") && !str_eq(kind.as_str(), "revert") {
                lists.push((kind.clone(), list_for_rule(mode.unique)));
                assert(lists@.map_values(|e: (String, ScratchList)| named_list(e)) =~= before.push(
                    (kind@, (rule_cap(mode.unique), Seq::<PairView>::empty())),
                ));
            }
            i = i + 1;
        }
        assert(t.take(modes@.len() as int) =~= t);
        state.modes = modes;
        state.scratch = lists;
    }

    /// The pair at `index` of the current scratch list, or the path and
    /// destination of the shared row at `index`.
    pub fn get(state: &StashState, scratch: bool, index: usize) -> (r: Option<(String, String)>)
        requires
            scratch ==> state.wf() && state.scratch@.len() > 0,
        ensures
            match r {
                Some(e) => index < state.target_pairs(scratch).len() && pair_view(e)
                    == state.target_pairs(scratch)[index as int],
                None => index >= state.target_pairs(scratch).len(),
            },
    {
        if scratch {
            state.scratch[state.current_scratch].1.get(index)
        } else {
            if index < state.shared.len() {
                let it = &state.shared[index];
                Some((it.src.clone(), it.dst.clone()))
            } else {
                None
            }
        }
    }

    /// Replaces the path and/or destination of the pair at `index` of the
    /// current scratch list, or of the shared row at `index`; out of range,
    /// nothing changes.
    pub fn update(state: &mut StashState, scratch: bool, index: usize, path: Option<String>, dst: Option<String>)
        requires
            scratch ==> old(state).wf() && old(state).scratch@.len() > 0 && old(state).scratch@[old(
                state,
            ).current_scratch as int].1.update_ok(index as int, path),
        ensures
            scratch ==> final(state).lists() == old(state).with_current(
                old(state).scratch@[old(state).current_scratch as int].1.update_spec(index as int, path, dst),
            ) && final(state).rows() == old(state).rows(),
            !scratch ==> final(state).rows() == (if index < old(state).rows().len() {
                old(state).rows().update(index as int, edited_row(old(state).rows()[index as int], path, dst))
            } else {
                old(state).rows()
            }) && final(state).scratch == old(state).scratch,
            final(state).modes == old(state).modes,
            final(state).current_scratch == old(state).current_scratch,
            old(state).wf() ==> final(state).wf(),
    {
        if scratch {
            let idx = state.current_scratch;
            let ghost before = state.scratch@;
            state.scratch[idx].1.update(index, path, dst);
            assert forall|k: int| 0 <= k < state.scratch@.len() && k != idx implies state.scratch@[k] == before[k] by {}
            assert(state.lists() =~= old(state).with_current(before[idx as int].1.update_spec(index as int, path, dst)));
        } else {
            if index < state.shared.len() {
                let ghost before = state.shared@;
                let it = &mut state.shared[index];
                match path {
                    Some(p) => {
                        it.src = p;
                    },
                    None => {},
                }
                match dst {
                    Some(d) => {
                        it.dst = d;
                    },
                    None => {},
                }
                assert(state.rows() =~= old(state).rows().update(
                    index as int,
                    edited_row(old(state).rows()[index as int], path, dst),
                ));
            }
        }
    }

    /// Exchanges two pairs of the current scratch list, or two shared rows.
    pub fn swap(state: &mut StashState, scratch: bool, i: usize, j: usize)
        requires
            scratch ==> old(state).wf() && old(state).scratch@.len() > 0,
            i < old(state).target_pairs(scratch).len(),
            j < old(state).target_pairs(scratch).len(),
        ensures
            scratch ==> final(state).lists() == old(state).with_current(
                swapped(old(state).current_entries(), i as int, j as int),
            ) && final(state).rows() == old(state).rows(),
            !scratch ==> final(state).rows() == swapped(old(state).rows(), i as int, j as int)
                && final(state).scratch == old(state).scratch,
            final(state).modes == old(state).modes,
            final(state).current_scratch == old(state).current_scratch,
            old(state).wf() ==> final(state).wf(),
    {
        if scratch {
            let idx = state.current_scratch;
            let ghost before = state.scratch@;
            state.scratch[idx].1.swap(i, j);
            assert forall|k: int| 0 <= k < state.scratch@.len() && k != idx implies state.scratch@[k] == before[k] by {}
            assert(state.lists() =~= old(state).with_current(swapped(old(state).current_entries(), i as int, j as int)));
        } else {
            vec_swap(&mut state.shared, i, j);
            assert(state.rows() =~= swapped(old(state).rows(), i as int, j as int));
        }
    }

    /// Removes the pair at `index` of the current scratch list, or the
    /// shared row at `index`; out of range, nothing changes.
    pub fn remove(state: &mut StashState, scratch: bool, index: usize)
        requires
            scratch ==> old(state).wf() && old(state).scratch@.len() > 0,
        ensures
            scratch ==> final(state).lists() == old(state).with_current(
                if index < old(state).current_entries().len() {
                    old(state).current_entries().remove(index as int)
                } else {
                    old(state).current_entries()
                },
            ) && final(state).rows() == old(state).rows(),
            !scratch ==> final(state).rows() == (if index < old(state).rows().len() {
                old(state).rows().remove(index as int)
            } else {
                old(state).rows()
            }) && final(state).scratch == old(state).scratch,
            final(state).modes == old(state).modes,
            final(state).current_scratch == old(state).current_scratch,
            old(state).wf() ==> final(state).wf(),
    {
        if scratch {
            let idx = state.current_scratch;
            let ghost before = state.scratch@;
            state.scratch[idx].1.remove(index);
            assert forall|k: int| 0 <= k < state.scratch@.len() && k != idx implies state.scratch@[k] == before[k] by {}
            assert(state.lists() =~= old(state).with_current(
                if index < old(state).current_entries().len() {
                    old(state).current_entries().remove(index as int)
                } else {
                    old(state).current_entries()
                },
            ));
        } else {
            if index < state.shared.len() {
                state.shared.remove(index);
                assert(state.rows() =~= old(state).rows().remove(index as int));
            }
        }
    }
}

} // verus!

verus! {

/// Whether a row stays when the stash clears what is complete.
pub open spec fn not_complete() -> spec_fn(StashRow) -> bool {
    |r: StashRow| !(r.status.state == StashItemState::CompleteOk || r.status.state == StashItemState::CompleteErr)
}

/// Whether a row stays when the stash clears `kind`: rows of other kinds,
/// and rows being transferred.
pub open spec fn kept_on_clear(kind: Seq<char>) -> spec_fn(StashRow) -> bool {
    |r: StashRow| r.kind != kind || r.status.state == StashItemState::Started
}

/// Whether a row is being transferred (kept by every clear).
pub open spec fn in_progress() -> spec_fn(StashRow) -> bool {
    |r: StashRow| r.status.state == StashItemState::Started
}

/// The rows a clear keeps: those not complete (`completed`), else those
/// being transferred and, when clearing one `kind`, those of other kinds.
pub open spec fn kept_by(kind: Option<Seq<char>>, completed: bool) -> spec_fn(StashRow) -> bool {
    if completed {
        not_complete()
    } else {
        match kind {
            Some(k) => kept_on_clear(k),
            None => in_progress(),
        }
    }
}

/// The shared rows after clearing by `kind`: the rows not in progress
/// (`None`), or the rows of `kind` that are not in progress.
pub open spec fn clear_rows_spec(rows: Seq<StashRow>, kind: Option<Seq<char>>) -> Seq<StashRow> {
    rows.filter(kept_by(kind, false))
}

/// Keeps the shared rows that a clear keeps: those not complete
/// (`completed`), else those in progress and, for a `kind`, those of other kinds.
fn retain_rows(shared: &mut Vec<StashItem>, kind: Option<&str>, completed: bool)
    ensures
        final(shared)@.map_values(|it: StashItem| stash_row(it)) == old(shared)@.map_values(
            |it: StashItem| stash_row(it),
        ).filter(kept_by(
            match kind {
                Some(k) => Some(k@),
                None => None,
            },
            completed,
        )),
{
    let ghost rows = shared@.map_values(|it: StashItem| stash_row(it));
    let ghost p = kept_by(
        match kind {
            Some(k) => Some(k@),
            None => None,
        },
        completed,
    );
    let mut out: Vec<StashItem> = Vec::new();
    let mut i: usize = 0;
    while i < shared.len()
        invariant
            rows == shared@.map_values(|it: StashItem| stash_row(it)),
            p == kept_by(
                match kind {
                    Some(k) => Some(k@),
                    None => None,
                },
                completed,
            ),
            i <= shared.len(),
            out@.map_values(|it: StashItem| stash_row(it)) == rows.take(i as int).filter(p),
        decreases shared.len() - i,
    {
        let it = &shared[i];
        let keep = if completed {
            !it.status.state.is_complete()
        } else {
            match kind {
                Some(k) => !str_eq(it.kind.as_str(), k) || it.status.state.is_started(),
                None => it.status.state.is_started(),
            }
        };
        proof {
            assert(rows.take(i + 1).drop_last() =~= rows.take(i as int));
            assert(rows.take(i + 1).last() == rows[i as int]);
            assert(keep == p(rows[i as int]));
            reveal(Seq::filter);
            assert(rows.take(i + 1).filter(p) == (if p(rows[i as int]) {
                rows.take(i as int).filter(p).push(rows[i as int])
            } else {
                rows.take(i as int).filter(p)
            }));
        }
        if keep {
            let ghost before = out@.map_values(|it: StashItem| stash_row(it));
            out.push(it.copy());
            assert(out@.map_values(|it: StashItem| stash_row(it)) =~= before.push(rows[i as int]));
        }
        i = i + 1;
    }
    assert(rows.take(shared.len() as int) =~= rows);
    *shared = out;
}

/// Whether a row is pending and its source is among `missing`.
pub open spec fn invalid_stash_src(r: StashRow, missing: Seq<Seq<char>>) -> bool {
    r.status.state == StashItemState::Pending && missing.contains(r.src)
}

/// The row after validation: an invalid pending row becomes `PendingErr`.
pub open spec fn validated_row(r: StashRow, missing: Seq<Seq<char>>) -> StashRow {
    if invalid_stash_src(r, missing) {
        StashRow {
            status: StashItemStatus { state: StashItemState::PendingErr, ..r.status },
            ..r
        }
    } else {
        r
    }
}

/// What `execute_all` hands over to be run.
#[derive(Debug)]
pub enum StashRun {
    /// Positions of the current scratch list, ascending.
    Scratch(Vec<usize>),
    /// Positions of pending shared rows, ascending, to transfer relative to
    /// the navigation directory `base`.
    Shared(String, Vec<usize>),
    /// Shared rows need a navigation pane.
    NotInNav,
}

/// The positions below `n` that are among `ids`, ascending.
pub open spec fn chosen_positions(n: nat, ids: Seq<usize>) -> Seq<usize>
    decreases n,
{
    if n == 0 {
        Seq::empty()
    } else {
        let r = chosen_positions((n - 1) as nat, ids);
        if ids.contains((n - 1) as usize) {
            r.push((n - 1) as usize)
        } else {
            r
        }
    }
}

/// The positions of the pending rows of `rows` that are among `ids`, ascending.
pub open spec fn pending_chosen(rows: Seq<StashRow>, ids: Seq<usize>) -> Seq<usize>
    decreases rows.len(),
{
    if rows.len() == 0 {
        Seq::empty()
    } else {
        let r = pending_chosen(rows.drop_last(), ids);
        let i = (rows.len() - 1) as usize;
        if ids.contains(i) && rows.last().status.state == StashItemState::Pending {
            r.push(i)
        } else {
            r
        }
    }
}

/// Whether `ids` holds `i`.
fn contains_index(ids: &Vec<usize>, i: usize) -> (b: bool)
    ensures
        b == ids@.contains(i),
{
    let mut k: usize = 0;
    while k < ids.len()
        invariant
            k <= ids@.len(),
            forall|j: int| 0 <= j < k ==> ids@[j] != i,
        decreases ids@.len() - k,
    {
        if ids[k] == i {
            assert(ids@[k as int] == i);
            return true;
        }
        k = k + 1;
    }
    false
}

impl STASH {
    /// Clears the items that are not in progress: the shared rows not being
    /// transferred (`None`), the current scratch list (the empty kind), the
    /// first scratch list named by a scratch kind, or else the shared rows
    /// of `kind` that are not being transferred.
    pub fn clear(state: &mut StashState, kind: Option<&str>)
        requires
            kind matches Some(k) && k@.len() == 0 ==> old(state).wf() && old(state).scratch@.len() > 0,
        ensures
            match kind {
                None => final(state).rows() == old(state).rows().filter(in_progress())
                    && final(state).scratch == old(state).scratch,
                Some(k) => if k@.len() == 0 {
                    final(state).lists() == old(state).with_current(Seq::empty())
                        && final(state).rows() == old(state).rows()
                } else if is_scratch_spec(old(state).mode_table(), k@) {
                    final(state).lists() == (if entry_index(old(state).lists(), k@) >= 0 {
                        let i = entry_index(old(state).lists(), k@);
                        old(state).lists().update(
                            i,
                            (k@, (old(state).lists()[i].1.0, Seq::<PairView>::empty())),
                        )
                    } else {
                        old(state).lists()
                    }) && final(state).rows() == old(state).rows()
                } else {
                    final(state).rows() == clear_rows_spec(old(state).rows(), Some(k@))
                        && final(state).scratch == old(state).scratch
                },
            },
            final(state).modes == old(state).modes,
            final(state).current_scratch == old(state).current_scratch,
            old(state).wf() ==> final(state).wf(),
    {
        match kind {
            None => {
                retain_rows(&mut state.shared, None, false);
            },
            Some(k) => {
                if k.unicode_len() == 0 {
                    let idx = state.current_scratch;
                    let ghost before = state.scratch@;
                    state.scratch[idx].1.clear();
                    assert forall|j: int| 0 <= j < state.scratch@.len() && j != idx implies state.scratch@[j] == before[j] by {}
                    assert(state.lists() =~= old(state).with_current(Seq::empty()));
                } else if STASH::is_scratch(state, k) {
                    match list_position(&state.scratch, k) {
                        Some(i) => {
                            proof {
                                lemma_first_index(old(state).lists(), key_is(k@));
                            }
                            let ghost before = state.scratch@;
                            state.scratch[i].1.clear();
                            assert forall|j: int| 0 <= j < state.scratch@.len() && j != i implies state.scratch@[j] == before[j] by {}
                            assert(state.lists() =~= old(state).lists().update(
                                i as int,
                                (k@, (old(state).lists()[i as int].1.0, Seq::<PairView>::empty())),
                            ));
                        },
                        None => {},
                    }
                } else {
                    retain_rows(&mut state.shared, Some(k), false);
                }
            },
        }
    }

    /// Clears the shared rows that are complete.
    pub fn clear_completed_shared(state: &mut StashState)
        ensures
            final(state).rows() == old(state).rows().filter(not_complete()),
            final(state).scratch == old(state).scratch,
            final(state).modes == old(state).modes,
            final(state).current_scratch == old(state).current_scratch,
    {
        retain_rows(&mut state.shared, None, true);
    }

    /// Scratch lists keep no transfer state, so nothing is complete there:
    /// the stash is left as it is.
    pub fn clear_completed_scratch(state: &mut StashState)
        ensures
            final(state).rows() == old(state).rows(),
            final(state).scratch == old(state).scratch,
            final(state).modes == old(state).modes,
            final(state).current_scratch == old(state).current_scratch,
    {
    }

    /// The paths of the `app` scratch list (the first list), in order.
    pub fn stashed_apps(state: &StashState) -> (v: Vec<String>)
        requires
            state.scratch@.len() > 0,
        ensures
            v.deep_view() == state.lists()[0].1.1.map_values(|e: PairView| e.0),
    {
        let pairs = state.scratch[0].1.as_slice();
        let ghost e = state.lists()[0].1.1;
        let mut out: Vec<String> = Vec::new();
        let mut i: usize = 0;
        while i < pairs.len()
            invariant
                scratch_list::pairs_view(pairs@) == e,
                i <= pairs@.len(),
                out.deep_view() == e.take(i as int).map_values(|e: PairView| e.0),
                out@.len() == i,
            decreases pairs@.len() - i,
        {
            assert(scratch_list::pairs_view(pairs@)[i as int] == pair_view(pairs@[i as int]));
            let ghost before = out@;
            let ghost bd = out.deep_view();
            out.push(pairs[i].0.clone());
            assert forall|k: int| 0 <= k <= i implies out.deep_view()[k] == e.take(i + 1).map_values(
                |e: PairView| e.0,
            )[k] by {
                if k < i {
                    assert(out@[k] == before[k]);
                    assert(bd[k] == before[k]@);
                    assert(bd[k] == e.take(i as int).map_values(|e: PairView| e.0)[k]);
                }
            }
            assert(out.deep_view() =~= e.take(i + 1).map_values(|e: PairView| e.0));
            i = i + 1;
        }
        assert(e.take(pairs@.len() as int) =~= e);
        out
    }

    /// Marks the pending shared rows whose source is among `missing` (the
    /// sources found not to exist) as `PendingErr`.
    pub fn check_validity(state: &mut StashState, missing: &Vec<String>)
        ensures
            final(state).rows() == old(state).rows().map_values(
                |r: StashRow| validated_row(r, missing.deep_view()),
            ),
            final(state).scratch == old(state).scratch,
            final(state).modes == old(state).modes,
            final(state).current_scratch == old(state).current_scratch,
    {
        let ghost m = missing.deep_view();
        let ghost rows0 = state.rows();
        let mut i: usize = 0;
        while i < state.shared.len()
            invariant
                m == missing.deep_view(),
                rows0 == old(state).rows(),
                i <= state.shared@.len(),
                state.shared@.len() == rows0.len(),
                forall|j: int| 0 <= j < i ==> state.rows()[j] == validated_row(#[trigger] rows0[j], m),
                forall|j: int| i <= j < rows0.len() ==> state.rows()[j] == #[trigger] rows0[j],
                state.scratch == old(state).scratch,
                state.modes == old(state).modes,
                state.current_scratch == old(state).current_scratch,
            decreases state.shared@.len() - i,
        {
            let pending = state.shared[i].status.state.is_pending();
            let gone = crate::text::contains_string(missing, state.shared[i].src.as_str());
            assert(state.rows()[i as int] == rows0[i as int]);
            if pending && gone {
                let ghost before = state.shared@;
                let it = &mut state.shared[i];
                it.status.state = StashItemState::PendingErr;
                assert forall|j: int| 0 <= j < state.shared@.len() && j != i implies state.shared@[j] == before[j] by {}
            }
            i = i + 1;
        }
        assert(state.rows() =~= rows0.map_values(|r: StashRow| validated_row(r, m)));
    }

    /// Chooses what to run: positions `indices` of the current scratch list,
    /// or the pending shared rows at `indices` relative to the navigation
    /// directory `nav_cwd` (`NotInNav` without one).
    pub fn execute_all(state: &StashState, scratch: bool, indices: &Vec<usize>, nav_cwd: Option<String>) -> (r: StashRun)
        requires
            scratch ==> state.wf() && state.scratch@.len() > 0,
        ensures
            scratch ==> (r matches StashRun::Scratch(v) && v@ == chosen_positions(
                state.current_entries().len(),
                indices@,
            )),
            !scratch ==> match nav_cwd {
                Some(base) => (r matches StashRun::Shared(b, v) && b@ == base@ && v@ == pending_chosen(
                    state.rows(),
                    indices@,
                )),
                None => r is NotInNav,
            },
    {
        if scratch {
            let n = state.scratch[state.current_scratch].1.len();
            let mut v: Vec<usize> = Vec::new();
            let mut i: usize = 0;
            while i < n
                invariant
                    i <= n,
                    v@ == chosen_positions(i as nat, indices@),
                decreases n - i,
            {
                if contains_index(indices, i) {
                    v.push(i);
                }
                i = i + 1;
            }
            StashRun::Scratch(v)
        } else {
            match nav_cwd {
                Some(base) => {
                    let ghost rows = state.rows();
                    let mut v: Vec<usize> = Vec::new();
                    let mut i: usize = 0;
                    while i < state.shared.len()
                        invariant
                            rows == state.rows(),
                            i <= state.shared@.len(),
                            v@ == pending_chosen(rows.take(i as int), indices@),
                        decreases state.shared@.len() - i,
                    {
                        proof {
                            assert(rows.take(i + 1).drop_last() =~= rows.take(i as int));
                            assert(rows.take(i + 1).last() == rows[i as int]);
                        }
                        if contains_index(indices, i) && state.shared[i].status.state.is_pending() {
                            v.push(i);
                        }
                        i = i + 1;
                    }
                    assert(rows.take(state.shared@.len() as int) =~= rows);
                    StashRun::Shared(base, v)
                },
                None => StashRun::NotInNav,
            }
        }
    }
}

} // verus!

verus! {

/// With no element satisfying `p` at the back, the filter is empty.
proof fn lemma_last_index_none<A>(s: Seq<A>, p: spec_fn(A) -> bool)
    requires
        last_index(s, p) < 0,
    ensures
        s.filter(p).len() == 0,
    decreases s.len(),
{
    reveal(Seq::filter);
    if s.len() > 0 {
        lemma_last_index_none(s.drop_last(), p);
    }
}

/// Stashing a path twice under a unique kind adds it once.
pub proof fn lemma_unique_add_once(rows: Seq<StashRow>, kind: Seq<char>, path: Seq<char>, s1: u64, s2: u64)
    ensures
        shared_add(shared_add(rows, kind, StashAddRule::True, path, s1), kind, StashAddRule::True, path, s2)
            == shared_add(rows, kind, StashAddRule::True, path, s1),
{
    let r1 = shared_add(rows, kind, StashAddRule::True, path, s1);
    lemma_first_index(r1, same_item(kind, path));
    if first_index(rows, same_item(kind, path)) < 0 {
        let last = r1.len() - 1;
        assert(same_item(kind, path)(r1[last]));
    }
}

/// A kind with the add rule `Limit(n)`, `n > 0`, never holds more than `n`
/// shared rows once it holds at most `n`.
pub proof fn lemma_limit_caps_kind(rows: Seq<StashRow>, kind: Seq<char>, n: u8, path: Seq<char>, size: u64)
    requires
        n > 0,
        rows.filter(of_kind(kind)).len() <= n,
    ensures
        shared_add(rows, kind, StashAddRule::Limit(n), path, size).filter(of_kind(kind)).len() <= n,
{
    let p = of_kind(kind);
    let fresh = new_stash_row(kind, path, size);
    let i = first_index(rows, same_item(kind, path));
    lemma_first_index(rows, same_item(kind, path));
    if i >= 0 {
        assert(same_item(kind, path)(rows[i]));
        crate::seqs::lemma_filter_remove(rows, i, p);
        crate::seqs::lemma_filter_push(rows.remove(i), fresh, p);
    } else if rows.filter(p).len() >= n {
        let j = last_index(rows, p);
        lemma_last_index(rows, p);
        if j < 0 {
            lemma_last_index_none(rows, p);
        }
        crate::seqs::lemma_filter_remove(rows, j, p);
        crate::seqs::lemma_filter_push(rows.remove(j), fresh, p);
    } else {
        crate::seqs::lemma_filter_push(rows, fresh, p);
    }
}

/// A capped scratch list never holds more pairs than its cap once it holds
/// at most that many.
pub proof fn lemma_list_cap(n: u8, e: Seq<PairView>, path: Seq<char>, dst: Seq<char>)
    requires
        n > 0,
        e.len() <= n,
    ensures
        scratch_list::list_push(Some(n), e, path, dst).len() <= n,
{
}

} // verus!

verus! {

/// Showing a scratch list by name shows a list of that name.
pub proof fn lemma_set_scratch_shows_kind(lists: Seq<(Seq<char>, ListModel)>, kind: Seq<char>)
    requires
        entry_index(lists, kind) >= 0,
    ensures
        lists[entry_index(lists, kind)].0 == kind,
{
    lemma_first_index(lists, key_is::<ListModel>(kind));
}

} // verus!
