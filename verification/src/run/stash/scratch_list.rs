//! A scratch stash list: paths with their destinations, either as a plain
//! list (optionally capped) or as an insertion-ordered map that holds each
//! path once.

use indexmap::IndexMap;
use vstd::prelude::*;
use crate::collections::{entry_index, entries_insert, key_is, keys_distinct};
use crate::run::queue::state::swapped;
use crate::text::{first_index, lemma_first_index, lemma_first_index_is, str_eq, vec_swap};
use vstd::pervasive::VecAdditionalExecFns;

verus! {

/// A path and its destination, as character sequences.
pub type PairView = (Seq<char>, Seq<char>);

/// The model of a stored pair.
pub open spec fn pair_view(e: (String, String)) -> PairView {
    (e.0@, e.1@)
}

/// The model of a list of stored pairs.
pub open spec fn pairs_view(v: Seq<(String, String)>) -> Seq<PairView> {
    v.map_values(|e: (String, String)| pair_view(e))
}

/// The entries of a path map, in insertion order.
pub uninterp spec fn scratch_entries(m: IndexMap<String, String>) -> Seq<PairView>;

/// `IndexMap::shift_insert` on entries: an existing key takes the new value
/// and moves to `index`; a new key is inserted at `index`.
pub open spec fn shift_insert_spec(e: Seq<PairView>, index: int, key: Seq<char>, value: Seq<char>) -> Seq<
    PairView,
> {
    let j = entry_index(e, key);
    if j >= 0 {
        e.remove(j).insert(index, (key, value))
    } else {
        e.insert(index, (key, value))
    }
}

/// `IndexMap::new`.
#[verifier::external_body]
fn path_map_new() -> (m: IndexMap<String, String>)
    ensures
        scratch_entries(m) == Seq::<PairView>::empty(),
{
    IndexMap::new()
}

/// `IndexMap::len`.
#[verifier::external_body]
fn path_map_len(m: &IndexMap<String, String>) -> (n: usize)
    ensures
        n == scratch_entries(*m).len(),
{
    m.len()
}

/// `IndexMap::contains_key`.
#[verifier::external_body]
fn path_map_contains(m: &IndexMap<String, String>, key: &str) -> (b: bool)
    ensures
        b == (entry_index(scratch_entries(*m), key@) >= 0),
{
    m.contains_key(key)
}

/// `IndexMap::get_index_of`: the position of `key`.
#[verifier::external_body]
fn path_map_get_index_of(m: &IndexMap<String, String>, key: &str) -> (r: Option<usize>)
    ensures
        match r {
            Some(i) => i == entry_index(scratch_entries(*m), key@),
            None => entry_index(scratch_entries(*m), key@) < 0,
        },
{
    m.get_index_of(key)
}

/// `IndexMap::get_index`: the pair at `index`.
#[verifier::external_body]
fn path_map_get_index(m: &IndexMap<String, String>, index: usize) -> (r: Option<(&String, &String)>)
    ensures
        match r {
            Some((k, v)) => index < scratch_entries(*m).len() && scratch_entries(*m)[index as int] == (
            k@, v@),
            None => index >= scratch_entries(*m).len(),
        },
{
    m.get_index(index)
}

/// `IndexMap::insert`: an existing key keeps its place and takes the new
/// value; a new key goes last.
#[verifier::external_body]
fn path_map_insert(m: &mut IndexMap<String, String>, key: String, value: String) -> (r: Option<String>)
    ensures
        scratch_entries(*final(m)) == entries_insert(scratch_entries(*old(m)), key@, value@),
        r is Some <==> entry_index(scratch_entries(*old(m)), key@) >= 0,
{
    m.insert(key, value)
}

/// `IndexMap::clear`.
#[verifier::external_body]
fn path_map_clear(m: &mut IndexMap<String, String>)
    ensures
        scratch_entries(*final(m)) == Seq::<PairView>::empty(),
{
    m.clear()
}

/// `IndexMap::shift_remove_index`: removes the pair at `index`, shifting
/// the later pairs down; out of range, nothing changes.
#[verifier::external_body]
fn path_map_shift_remove_index(m: &mut IndexMap<String, String>, index: usize) -> (r: Option<(String, String)>)
    ensures
        index < scratch_entries(*old(m)).len() ==> {
            &&& scratch_entries(*final(m)) == scratch_entries(*old(m)).remove(index as int)
            &&& r matches Some(e) && pair_view(e) == scratch_entries(*old(m))[index as int]
        },
        index >= scratch_entries(*old(m)).len() ==> scratch_entries(*final(m)) == scratch_entries(
            *old(m),
        ) && r is None,
{
    m.shift_remove_index(index)
}

/// `IndexMap::shift_insert`. It panics for an index past the end, and for
/// an existing key at an index equal to the length.
#[verifier::external_body]
fn path_map_shift_insert(m: &mut IndexMap<String, String>, index: usize, key: String, value: String) -> (r: Option<String>)
    requires
        entry_index(scratch_entries(*old(m)), key@) >= 0 ==> index < scratch_entries(*old(m)).len(),
        index <= scratch_entries(*old(m)).len(),
    ensures
        scratch_entries(*final(m)) == shift_insert_spec(scratch_entries(*old(m)), index as int, key@, value@),
        r is Some <==> entry_index(scratch_entries(*old(m)), key@) >= 0,
{
    m.shift_insert(index, key, value)
}

/// `IndexMap::swap_indices`.
#[verifier::external_body]
fn path_map_swap_indices(m: &mut IndexMap<String, String>, a: usize, b: usize)
    requires
        a < scratch_entries(*old(m)).len(),
        b < scratch_entries(*old(m)).len(),
    ensures
        scratch_entries(*final(m)) == swapped(scratch_entries(*old(m)), a as int, b as int),
{
    m.swap_indices(a, b)
}

/// Pushing `(path, dst)` onto the pairs `e` of a list with cap `cap`: a
/// full capped list replaces its last pair, a unique list (`None`) ignores
/// a path it holds, otherwise the pair goes last.
pub open spec fn list_push(cap: Option<u8>, e: Seq<PairView>, path: Seq<char>, dst: Seq<char>) -> Seq<
    PairView,
> {
    match cap {
        Some(n) => if n > 0 && e.len() >= n {
            e.update(n - 1, (path, dst))
        } else {
            e.push((path, dst))
        },
        None => if entry_index(e, path) >= 0 {
            e
        } else {
            e.push((path, dst))
        },
    }
}

/// A scratch stash list.
#[derive(Debug)]
pub enum ScratchList {
    /// Pairs in insertion order; a nonzero cap bounds the length, a new
    /// path then replacing the last pair.
    Plain(Vec<(String, String)>, u8),
    /// Each path at most once, in insertion order.
    Unique(IndexMap<String, String>),
}

/// The pair at `index` with the given replacements.
pub open spec fn edited_pair(e: PairView, new_path: Option<String>, new_dst: Option<String>) -> PairView {
    (
        match new_path {
            Some(p) => p@,
            None => e.0,
        },
        match new_dst {
            Some(d) => d@,
            None => e.1,
        },
    )
}

impl ScratchList {
    /// The pairs, in order.
    pub open spec fn entries(&self) -> Seq<PairView> {
        match self {
            ScratchList::Plain(v, _) => pairs_view(v@),
            ScratchList::Unique(m) => scratch_entries(*m),
        }
    }

    /// The cap of a plain list (`None` for a map).
    pub open spec fn cap(&self) -> Option<u8> {
        match self {
            ScratchList::Plain(_, n) => Some(*n),
            ScratchList::Unique(_) => None,
        }
    }

    /// A map holds each path once.
    pub open spec fn wf(&self) -> bool {
        self is Unique ==> keys_distinct(self.entries())
    }

    /// The pairs after pushing `(path, dst)`.
    pub open spec fn push_spec(&self, path: Seq<char>, dst: Seq<char>) -> Seq<PairView> {
        list_push(self.cap(), self.entries(), path, dst)
    }

    /// The pairs after editing the pair at `index`; out of range, unchanged.
    /// A map removes the pair and inserts the edited one at the same place.
    pub open spec fn update_spec(&self, index: int, new_path: Option<String>, new_dst: Option<String>) -> Seq<
        PairView,
    > {
        let e = self.entries();
        if 0 <= index < e.len() {
            let n = edited_pair(e[index], new_path, new_dst);
            match self.cap() {
                Some(_) => e.update(index, n),
                None => shift_insert_spec(e.remove(index), index, n.0, n.1),
            }
        } else {
            e
        }
    }

    /// Whether an edit is allowed: a map cannot move the last pair's path
    /// onto another pair's path.
    pub open spec fn update_ok(&self, index: int, new_path: Option<String>) -> bool {
        let e = self.entries();
        (self is Unique && 0 <= index < e.len()) ==> {
            let p = edited_pair(e[index], new_path, None).0;
            entry_index(e.remove(index), p) >= 0 ==> index + 1 < e.len()
        }
    }

    /// An empty map list.
    pub fn new_map() -> (l: Self)
        ensures
            l is Unique,
            l.entries() == Seq::<PairView>::empty(),
            l.wf(),
    {
        ScratchList::Unique(path_map_new())
    }

    /// An empty plain list capped at `cap` pairs (`0`: no cap).
    pub fn new_vec(cap: u8) -> (l: Self)
        ensures
            l.cap() == Some(cap),
            l.entries() == Seq::<PairView>::empty(),
            l.wf(),
    {
        let v: Vec<(String, String)> = Vec::new();
        assert(pairs_view(v@) =~= Seq::<PairView>::empty());
        ScratchList::Plain(v, cap)
    }

    /// Adds `(path, dst)`: a capped full list replaces its last pair, a map
    /// ignores a path it already holds.
    pub fn push(&mut self, path: String, dst: String)
        requires
            old(self).wf(),
        ensures
            final(self).entries() == old(self).push_spec(path@, dst@),
            final(self).cap() == old(self).cap(),
            final(self).wf(),
    {
        match self {
            ScratchList::Plain(v, limit) => {
                let limit = *limit as usize;
                if limit > 0 && v.len() >= limit {
                    v.set(limit - 1, (path, dst));
                    assert(pairs_view(v@) =~= pairs_view(old(self)->Plain_0@).update(
                        limit - 1,
                        (path@, dst@),
                    ));
                } else {
                    v.push((path, dst));
                    assert(pairs_view(v@) =~= pairs_view(old(self)->Plain_0@).push((path@, dst@)));
                }
            },
            ScratchList::Unique(m) => {
                if !path_map_contains(m, path.as_str()) {
                    let ghost e0 = scratch_entries(*m);
                    path_map_insert(m, path, dst);
                    proof {
                        lemma_distinct_insert(e0, e0.len() as int, (path@, dst@));
                        assert(e0.insert(e0.len() as int, (path@, dst@)) =~= e0.push((path@, dst@)));
                    }
                }
            },
        }
    }

    /// Number of pairs.
    pub fn len(&self) -> (n: usize)
        ensures
            n == self.entries().len(),
    {
        match self {
            ScratchList::Plain(v, _) => v.len(),
            ScratchList::Unique(m) => path_map_len(m),
        }
    }

    /// Whether the list holds no pair.
    pub fn is_empty(&self) -> (b: bool)
        ensures
            b == (self.entries().len() == 0),
    {
        self.len() == 0
    }

    /// The pair at `index`.
    pub fn get(&self, index: usize) -> (r: Option<(String, String)>)
        ensures
            match r {
                Some(e) => index < self.entries().len() && pair_view(e) == self.entries()[index as int],
                None => index >= self.entries().len(),
            },
    {
        match self {
            ScratchList::Plain(v, _) => {
                if index < v.len() {
                    let e = &v[index];
                    Some((e.0.clone(), e.1.clone()))
                } else {
                    None
                }
            },
            ScratchList::Unique(m) => match path_map_get_index(m, index) {
                Some((p, d)) => Some((p.clone(), d.clone())),
                None => None,
            },
        }
    }

    /// Removes every pair.
    pub fn clear(&mut self)
        ensures
            final(self).entries() == Seq::<PairView>::empty(),
            final(self).cap() == old(self).cap(),
            final(self).wf(),
    {
        match self {
            ScratchList::Plain(v, _) => {
                v.clear();
                assert(pairs_view(v@) =~= Seq::<PairView>::empty());
            },
            ScratchList::Unique(m) => path_map_clear(m),
        }
    }

    /// Replaces the path and/or destination of the pair at `index`.
    pub fn update(&mut self, index: usize, new_path: Option<String>, new_dst: Option<String>)
        requires
            old(self).wf(),
            old(self).update_ok(index as int, new_path),
        ensures
            final(self).entries() == old(self).update_spec(index as int, new_path, new_dst),
            final(self).cap() == old(self).cap(),
            final(self).wf(),
    {
        match self {
            ScratchList::Plain(v, _) => {
                if index < v.len() {
                    let (p, d) = {
                        let e = &v[index];
                        (e.0.clone(), e.1.clone())
                    };
                    let p2 = match new_path {
                        Some(x) => x,
                        None => p,
                    };
                    let d2 = match new_dst {
                        Some(x) => x,
                        None => d,
                    };
                    v.set(index, (p2, d2));
                    assert(pairs_view(v@) =~= old(self).update_spec(index as int, new_path, new_dst));
                }
            },
            ScratchList::Unique(m) => {
                let got = match path_map_get_index(m, index) {
                    Some((p, d)) => Some((p.clone(), d.clone())),
                    None => None,
                };
                if let Some((p, d)) = got {
                    let p2 = match new_path {
                        Some(x) => x,
                        None => p,
                    };
                    let d2 = match new_dst {
                        Some(x) => x,
                        None => d,
                    };
                    let ghost e0 = scratch_entries(*m);
                    path_map_shift_remove_index(m, index);
                    proof {
                        lemma_distinct_remove(e0, index as int);
                    }
                    path_map_shift_insert(m, index, p2, d2);
                    proof {
                        lemma_distinct_shift_insert(e0.remove(index as int), index as int, p2@, d2@);
                    }
                }
            },
        }
    }

    /// Removes the pair at `index`, if there is one.
    pub fn remove(&mut self, index: usize)
        requires
            old(self).wf(),
        ensures
            final(self).entries() == (if index < old(self).entries().len() {
                old(self).entries().remove(index as int)
            } else {
                old(self).entries()
            }),
            final(self).cap() == old(self).cap(),
            final(self).wf(),
    {
        match self {
            ScratchList::Plain(v, _) => {
                if index < v.len() {
                    v.remove(index);
                    assert(pairs_view(v@) =~= pairs_view(old(self)->Plain_0@).remove(index as int));
                }
            },
            ScratchList::Unique(m) => {
                if index < path_map_len(m) {
                    proof {
                        lemma_distinct_remove(scratch_entries(*m), index as int);
                    }
                    path_map_shift_remove_index(m, index);
                }
            },
        }
    }

    /// Exchanges the pairs at `i` and `j`.
    pub fn swap(&mut self, i: usize, j: usize)
        requires
            old(self).wf(),
            i < old(self).entries().len(),
            j < old(self).entries().len(),
        ensures
            final(self).entries() == swapped(old(self).entries(), i as int, j as int),
            final(self).cap() == old(self).cap(),
            final(self).wf(),
    {
        match self {
            ScratchList::Plain(v, _) => {
                vec_swap(v, i, j);
                assert(pairs_view(v@) =~= swapped(pairs_view(old(self)->Plain_0@), i as int, j as int));
            },
            ScratchList::Unique(m) => {
                proof {
                    lemma_distinct_swapped(scratch_entries(*m), i as int, j as int);
                }
                path_map_swap_indices(m, i, j);
            },
        }
    }

    /// A copy of the pairs, in order.
    pub fn as_slice(&self) -> (r: Vec<(String, String)>)
        ensures
            pairs_view(r@) == self.entries(),
    {
        let n = self.len();
        let mut out: Vec<(String, String)> = Vec::new();
        let mut i: usize = 0;
        while i < n
            invariant
                n == self.entries().len(),
                i <= n,
                pairs_view(out@) == self.entries().subrange(0, i as int),
            decreases n - i,
        {
            let ghost before = out@;
            assert(pairs_view(before).len() == i);
            assert(before.len() == i);
            match self.get(i) {
                Some(e) => {
                    out.push(e);
                    assert(out@ == before.push(e));
                    assert forall|k: int| 0 <= k <= i implies pairs_view(out@)[k] == self.entries()[k] by {
                        if k < i {
                            assert(out@[k] == before[k]);
                            assert(pairs_view(before)[k] == self.entries().subrange(0, i as int)[k]);
                        }
                    }
                },
                None => {},
            }
            assert(pairs_view(out@) =~= self.entries().subrange(0, i + 1));
            i = i + 1;
        }
        assert(self.entries().subrange(0, n as int) =~= self.entries());
        out
    }

    /// Whether some pair has path `path`.
    pub fn iter_any(&self, path: &str) -> (b: bool)
        ensures
            b == (entry_index(self.entries(), path@) >= 0),
    {
        match self {
            ScratchList::Plain(v, _) => pair_position(v, path).is_some(),
            ScratchList::Unique(m) => path_map_contains(m, path),
        }
    }

    /// The position of the first pair with path `path`.
    pub fn position(&self, path: &str) -> (r: Option<usize>)
        ensures
            match r {
                Some(i) => i == entry_index(self.entries(), path@),
                None => entry_index(self.entries(), path@) < 0,
            },
    {
        match self {
            ScratchList::Plain(v, _) => pair_position(v, path),
            ScratchList::Unique(m) => path_map_get_index_of(m, path),
        }
    }
}

/// The position of the first pair of `v` whose path is `path`.
fn pair_position(v: &Vec<(String, String)>, path: &str) -> (r: Option<usize>)
    ensures
        match r {
            Some(i) => i == entry_index(pairs_view(v@), path@),
            None => entry_index(pairs_view(v@), path@) < 0,
        },
{
    let ghost e = pairs_view(v@);
    let mut i: usize = 0;
    while i < v.len()
        invariant
            e == pairs_view(v@),
            i <= v.len(),
            forall|j: int| 0 <= j < i ==> !(#[trigger] key_is::<Seq<char>>(path@)(e[j])),
        decreases v.len() - i,
    {
        if str_eq(v[i].0.as_str(), path) {
            proof {
                lemma_first_index_is(e, key_is(path@), i as int);
            }
            return Some(i);
        }
        assert(!key_is::<Seq<char>>(path@)(e[i as int]));
        i = i + 1;
    }
    proof {
        lemma_first_index_is(e, key_is(path@), -1);
    }
    None
}

/// Removing an entry keeps keys distinct.
pub proof fn lemma_distinct_remove(e: Seq<PairView>, i: int)
    requires
        keys_distinct(e),
        0 <= i < e.len(),
    ensures
        keys_distinct(e.remove(i)),
{
    let r = e.remove(i);
    assert forall|a: int, b: int| 0 <= a < b < r.len() implies r[a].0 != r[b].0 by {
        let a2 = if a < i { a } else { a + 1 };
        let b2 = if b < i { b } else { b + 1 };
        assert(r[a] == e[a2]);
        assert(r[b] == e[b2]);
    }
}

/// Inserting an absent key keeps keys distinct.
pub proof fn lemma_distinct_insert(e: Seq<PairView>, i: int, x: PairView)
    requires
        keys_distinct(e),
        0 <= i <= e.len(),
        entry_index(e, x.0) < 0,
    ensures
        keys_distinct(e.insert(i, x)),
{
    lemma_first_index(e, key_is(x.0));
    let r = e.insert(i, x);
    assert forall|a: int, b: int| 0 <= a < b < r.len() implies r[a].0 != r[b].0 by {
        if a != i && b != i {
            let a2 = if a < i { a } else { a - 1 };
            let b2 = if b < i { b } else { b - 1 };
            assert(r[a] == e[a2]);
            assert(r[b] == e[b2]);
        } else if a == i {
            let b2 = b - 1;
            assert(r[b] == e[b2]);
            assert(!key_is::<Seq<char>>(x.0)(e[b2]));
        } else {
            assert(r[a] == e[a]);
            assert(!key_is::<Seq<char>>(x.0)(e[a]));
        }
    }
}

/// `shift_insert` keeps keys distinct.
pub proof fn lemma_distinct_shift_insert(e: Seq<PairView>, i: int, k: Seq<char>, v: Seq<char>)
    requires
        keys_distinct(e),
        entry_index(e, k) >= 0 ==> 0 <= i < e.len(),
        0 <= i <= e.len(),
    ensures
        keys_distinct(shift_insert_spec(e, i, k, v)),
{
    lemma_first_index(e, key_is(k));
    let j = entry_index(e, k);
    if j >= 0 {
        lemma_distinct_remove(e, j);
        let r = e.remove(j);
        assert forall|a: int| 0 <= a < r.len() implies !(#[trigger] key_is::<Seq<char>>(k)(r[a])) by {
            let a2 = if a < j { a } else { a + 1 };
            assert(r[a] == e[a2]);
            assert(a2 != j);
        }
        lemma_first_index(r, key_is(k));
        if entry_index(r, k) >= 0 {
            assert(key_is::<Seq<char>>(k)(r[entry_index(r, k)]));
        }
        lemma_distinct_insert(r, i, (k, v));
    } else {
        lemma_distinct_insert(e, i, (k, v));
    }
}

/// Swapping two entries keeps keys distinct.
pub proof fn lemma_distinct_swapped(e: Seq<PairView>, i: int, j: int)
    requires
        keys_distinct(e),
        0 <= i < e.len(),
        0 <= j < e.len(),
    ensures
        keys_distinct(swapped(e, i, j)),
{
    let r = swapped(e, i, j);
    assert forall|a: int, b: int| 0 <= a < b < r.len() implies r[a].0 != r[b].0 by {
        let a2 = if a == i { j } else if a == j { i } else { a };
        let b2 = if b == i { j } else if b == j { i } else { b };
        assert(r[a] == e[a2]);
        assert(r[b] == e[b2]);
        if a2 < b2 {
        } else {
            assert(a2 != b2);
        }
    }
}

} // verus!
