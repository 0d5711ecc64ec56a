//! In-memory backing store of the transient stash panes: per stash name,
//! its entries newest first. Nothing of it is persisted.

use cba::vecmap::VecMap;
use vstd::prelude::*;
use crate::collections::{entry_index, entries_insert, key_is};
use crate::text::{contains_string, first_index, lemma_first_index, lemma_first_index_is, str_eq};

verus! {

#[verifier::external_type_specification]
#[verifier::external_body]
#[verifier::reject_recursive_types(K)]
#[verifier::reject_recursive_types(V)]
pub struct ExVecMap<K, V>(VecMap<K, V>);

/// One entry of a stash.
#[derive(Debug)]
pub struct StashEntry {
    pub id: i64,
    /// The stash's name.
    pub name: String,
    /// The stashed path.
    pub stash: String,
    /// A label shown beside the path.
    pub tail: String,
    /// When it was added, in seconds since the epoch.
    pub add_time: i64,
}

/// The model of an entry: id, name, path, tail and add time.
pub type EntryView = (i64, Seq<char>, Seq<char>, Seq<char>, i64);

/// The model of an entry.
pub open spec fn entry_view(e: StashEntry) -> EntryView {
    (e.id, e.name@, e.stash@, e.tail@, e.add_time)
}

/// The model of a list of entries.
pub open spec fn entries_view(v: Seq<StashEntry>) -> Seq<EntryView> {
    v.map_values(|e: StashEntry| entry_view(e))
}

impl StashEntry {
    /// A copy of the entry.
    pub fn copy(&self) -> (e: Self)
        ensures
            entry_view(e) == entry_view(*self),
    {
        StashEntry {
            id: self.id,
            name: self.name.clone(),
            stash: self.stash.clone(),
            tail: self.tail.clone(),
            add_time: self.add_time,
        }
    }
}

/// A copy of a list of entries.
fn copy_entries(v: &Vec<StashEntry>) -> (r: Vec<StashEntry>)
    ensures
        entries_view(r@) == entries_view(v@),
{
    let mut out: Vec<StashEntry> = Vec::new();
    let mut i: usize = 0;
    while i < v.len()
        invariant
            i <= v@.len(),
            entries_view(out@) == entries_view(v@).take(i as int),
        decreases v@.len() - i,
    {
        let ghost before = out@;
        out.push(v[i].copy());
        assert(entries_view(out@) =~= entries_view(before).push(entry_view(v@[i as int])));
        assert(entries_view(v@).take(i + 1) =~= entries_view(v@).take(i as int).push(entry_view(v@[i as int])));
        i = i + 1;
    }
    assert(entries_view(v@).take(v@.len() as int) =~= entries_view(v@));
    out
}

/// The stashes of a store: name and entries, in insertion order.
pub uninterp spec fn store_entries(m: VecMap<String, Vec<StashEntry>>) -> Seq<(Seq<char>, Seq<EntryView>)>;

/// `VecMap::new`.
#[verifier::external_body]
fn store_map_new() -> (m: VecMap<String, Vec<StashEntry>>)
    ensures
        store_entries(m) == Seq::<(Seq<char>, Seq<EntryView>)>::empty(),
{
    VecMap::new()
}

/// `VecMap::get`: the entries stored under `key` (the first match).
#[verifier::external_body]
fn store_map_get<'a>(m: &'a VecMap<String, Vec<StashEntry>>, key: &str) -> (r: Option<&'a Vec<StashEntry>>)
    ensures
        match r {
            Some(v) => {
                let i = entry_index(store_entries(*m), key@);
                i >= 0 && store_entries(*m)[i].1 == entries_view(v@)
            },
            None => entry_index(store_entries(*m), key@) < 0,
        },
{
    m.get(key)
}

/// `VecMap::insert`: an existing key keeps its place and takes the new
/// entries; a new key goes last.
#[verifier::external_body]
fn store_map_insert(m: &mut VecMap<String, Vec<StashEntry>>, key: String, value: Vec<StashEntry>) -> (r: Option<Vec<StashEntry>>)
    ensures
        store_entries(*final(m)) == entries_insert(store_entries(*old(m)), key@, entries_view(value@)),
        r is Some <==> entry_index(store_entries(*old(m)), key@) >= 0,
{
    m.insert(key, value)
}

/// The seconds since the epoch, by the system clock (`0` before it).
#[verifier::external_body]
fn epoch_now() -> i64 {
    std::time::SystemTime::now()
        .duration_since(std::time::UNIX_EPOCH)
        .map(|d| d.as_secs())
        .unwrap_or(0) as i64
}

/// The transient stashes.
#[derive(Debug)]
pub struct MemStashes {
    pub map: VecMap<String, Vec<StashEntry>>,
}

/// The entries of the stash `name` in `s` (none when there is no such stash).
pub open spec fn stash_of(s: Seq<(Seq<char>, Seq<EntryView>)>, name: Seq<char>) -> Seq<EntryView> {
    let i = entry_index(s, name);
    if i >= 0 {
        s[i].1
    } else {
        Seq::empty()
    }
}

/// Whether an entry's path is `path`.
pub open spec fn at_path(path: Seq<char>) -> spec_fn(EntryView) -> bool {
    |e: EntryView| e.2 == path
}

/// Whether an entry's path is not among `paths`.
pub open spec fn not_in(paths: Seq<Seq<char>>) -> spec_fn(EntryView) -> bool {
    |e: EntryView| !paths.contains(e.2)
}

/// The fresh entry for `path` in stash `name`, added at `time`.
pub open spec fn fresh_entry(name: Seq<char>, path: Seq<char>, time: i64) -> EntryView {
    (0, name, path, Seq::empty(), time)
}

/// The stashes after adding `path` at the front of stash `name`.
pub open spec fn mem_add_spec(s: Seq<(Seq<char>, Seq<EntryView>)>, name: Seq<char>, path: Seq<char>, time: i64) -> Seq<
    (Seq<char>, Seq<EntryView>),
> {
    entries_insert(s, name, seq![fresh_entry(name, path, time)] + stash_of(s, name))
}

impl MemStashes {
    /// The stashes, in insertion order.
    pub open spec fn view(&self) -> Seq<(Seq<char>, Seq<EntryView>)> {
        store_entries(self.map)
    }

    /// No stash.
    pub fn new() -> (s: Self)
        ensures
            s.view() == Seq::<(Seq<char>, Seq<EntryView>)>::empty(),
    {
        MemStashes { map: store_map_new() }
    }
}

/// All entries of the stash `name`, newest first.
pub fn mem_get(store: &MemStashes, name: &str) -> (v: Vec<StashEntry>)
    ensures
        entries_view(v@) == stash_of(store.view(), name@),
{
    match store_map_get(&store.map, name) {
        Some(v) => copy_entries(v),
        None => {
            let v: Vec<StashEntry> = Vec::new();
            assert(entries_view(v@) =~= Seq::<EntryView>::empty());
            v
        },
    }
}

/// The position of the first entry of `v` at `path`.
fn entry_position(v: &Vec<StashEntry>, path: &str) -> (r: Option<usize>)
    ensures
        match r {
            Some(i) => i == first_index(entries_view(v@), at_path(path@)),
            None => first_index(entries_view(v@), at_path(path@)) < 0,
        },
{
    let ghost e = entries_view(v@);
    let mut i: usize = 0;
    while i < v.len()
        invariant
            e == entries_view(v@),
            i <= v@.len(),
            forall|j: int| 0 <= j < i ==> !(#[trigger] at_path(path@)(e[j])),
        decreases v@.len() - i,
    {
        if str_eq(v[i].stash.as_str(), path) {
            proof {
                lemma_first_index_is(e, at_path(path@), i as int);
            }
            return Some(i);
        }
        assert(!at_path(path@)(e[i as int]));
        i = i + 1;
    }
    proof {
        lemma_first_index_is(e, at_path(path@), -1);
    }
    None
}

/// Whether the stash `name` holds `path`.
pub fn mem_has(store: &MemStashes, name: &str, path: &str) -> (b: bool)
    ensures
        b == (first_index(stash_of(store.view(), name@), at_path(path@)) >= 0),
{
    match store_map_get(&store.map, name) {
        Some(v) => entry_position(v, path).is_some(),
        None => {
            proof {
                lemma_first_index_is(Seq::<EntryView>::empty(), at_path(path@), -1);
            }
            false
        },
    }
}

/// Adds `path` as a fresh entry at the front of the stash `name`, added at
/// `time`; the stash is made on first use.
pub fn mem_add_at(store: &mut MemStashes, name: &str, path: &str, time: i64)
    ensures
        final(store).view() == mem_add_spec(old(store).view(), name@, path@, time),
{
    let mut v = mem_get(store, name);
    let entry = StashEntry {
        id: 0,
        name: name.to_owned(),
        stash: path.to_owned(),
        tail: String::new(),
        add_time: time,
    };
    let ghost before = v@;
    v.insert(0, entry);
    assert(entries_view(v@) =~= seq![fresh_entry(name@, path@, time)] + entries_view(before));
    store_map_insert(&mut store.map, name.to_owned(), v);
}

/// Adds `path` as a fresh entry at the front of the stash `name`, stamped
/// with the current time.
pub fn mem_add(store: &mut MemStashes, name: &str, path: &str)
    ensures
        exists|t: i64| final(store).view() == mem_add_spec(old(store).view(), name@, path@, t),
{
    let now = epoch_now();
    mem_add_at(store, name, path, now);
}

/// Removes the entries of the stash `name` whose path is among `paths`;
/// returns how many were removed.
pub fn mem_remove(store: &mut MemStashes, name: &str, paths: &Vec<String>) -> (n: usize)
    ensures
        entry_index(old(store).view(), name@) >= 0 ==> {
            let e = stash_of(old(store).view(), name@);
            &&& final(store).view() == entries_insert(old(store).view(), name@, e.filter(not_in(paths.deep_view())))
            &&& n == e.len() - e.filter(not_in(paths.deep_view())).len()
        },
        entry_index(old(store).view(), name@) < 0 ==> final(store).view() == old(store).view() && n == 0,
{
    let ghost pv = paths.deep_view();
    let kept = match store_map_get(&store.map, name) {
        None => {
            return 0;
        },
        Some(v) => {
            let ghost e = entries_view(v@);
            let ghost p = not_in(pv);
            let mut out: Vec<StashEntry> = Vec::new();
            let mut i: usize = 0;
            while i < v.len()
                invariant
                    e == entries_view(v@),
                    p == not_in(pv),
                    pv == paths.deep_view(),
                    i <= v@.len(),
                    entries_view(out@) == e.take(i as int).filter(p),
                    out@.len() <= i,
                decreases v@.len() - i,
            {
                let keep = !contains_string(paths, v[i].stash.as_str());
                proof {
                    assert(e.take(i + 1).drop_last() =~= e.take(i as int));
                    assert(e.take(i + 1).last() == e[i as int]);
                    assert(keep == p(e[i as int]));
                    reveal(Seq::filter);
                    assert(e.take(i + 1).filter(p) == (if p(e[i as int]) {
                        e.take(i as int).filter(p).push(e[i as int])
                    } else {
                        e.take(i as int).filter(p)
                    }));
                }
                if keep {
                    let ghost before = out@;
                    out.push(v[i].copy());
                    assert(entries_view(out@) =~= entries_view(before).push(e[i as int]));
                }
                i = i + 1;
            }
            assert(e.take(v@.len() as int) =~= e);
            (out, v.len())
        },
    };
    let (out, before_len) = kept;
    let removed = before_len - out.len();
    store_map_insert(&mut store.map, name.to_owned(), out);
    removed
}

/// Sets the tail of the first entry of the stash `name` at `path`; returns
/// whether there was one.
pub fn mem_set_tail(store: &mut MemStashes, name: &str, path: &str, tail: &str) -> (b: bool)
    ensures
        ({
            let e = stash_of(old(store).view(), name@);
            let i = first_index(e, at_path(path@));
            if entry_index(old(store).view(), name@) >= 0 && i >= 0 {
                &&& b
                &&& final(store).view() == entries_insert(
                    old(store).view(),
                    name@,
                    e.update(i, (e[i].0, e[i].1, e[i].2, tail@, e[i].4)),
                )
            } else {
                !b && final(store).view() == old(store).view()
            }
        }),
{
    let found = match store_map_get(&store.map, name) {
        None => {
            return false;
        },
        Some(v) => match entry_position(v, path) {
            None => {
                return false;
            },
            Some(i) => (copy_entries(v), i),
        },
    };
    let (mut v, i) = found;
    proof {
        lemma_first_index(entries_view(v@), at_path(path@));
    }
    let ghost before = v@;
    let mut e = v[i].copy();
    e.tail = tail.to_owned();
    v.set(i, e);
    assert(entries_view(v@) =~= entries_view(before).update(
        i as int,
        (before[i as int].id, before[i as int].name@, before[i as int].stash@, tail@, before[i as int].add_time),
    ));
    store_map_insert(&mut store.map, name.to_owned(), v);
    true
}

} // verus!

verus! {

/// The entries of a stash after storing `v` under `name`.
proof fn lemma_stash_of_insert(s: Seq<(Seq<char>, Seq<EntryView>)>, name: Seq<char>, v: Seq<EntryView>)
    ensures
        stash_of(entries_insert(s, name, v), name) == v,
{
    let i = entry_index(s, name);
    lemma_first_index(s, key_is::<Seq<EntryView>>(name));
    let t = entries_insert(s, name, v);
    if i >= 0 {
        assert forall|j: int| 0 <= j < i implies !(#[trigger] key_is::<Seq<EntryView>>(name)(t[j])) by {
            assert(t[j] == s[j]);
        }
        lemma_first_index_is(t, key_is::<Seq<EntryView>>(name), i);
    } else {
        assert forall|j: int| 0 <= j < s.len() implies !(#[trigger] key_is::<Seq<EntryView>>(name)(t[j])) by {
            assert(t[j] == s[j]);
        }
        assert(key_is::<Seq<EntryView>>(name)(t[s.len() as int]));
        lemma_first_index_is(t, key_is::<Seq<EntryView>>(name), s.len() as int);
    }
}

/// After adding `path` to the stash `name`, the stash holds `path`, as its
/// newest entry.
pub proof fn lemma_mem_add_then_has(s: Seq<(Seq<char>, Seq<EntryView>)>, name: Seq<char>, path: Seq<char>, time: i64)
    ensures
        stash_of(mem_add_spec(s, name, path, time), name)[0] == fresh_entry(name, path, time),
        first_index(stash_of(mem_add_spec(s, name, path, time), name), at_path(path)) == 0,
{
    let v = seq![fresh_entry(name, path, time)] + stash_of(s, name);
    lemma_stash_of_insert(s, name, v);
    assert(at_path(path)(v[0]));
}

/// After removing `paths` from the stash `name`, no entry of it has a path
/// among `paths`, and the other entries stay in order.
pub proof fn lemma_mem_remove_then_absent(s: Seq<(Seq<char>, Seq<EntryView>)>, name: Seq<char>, paths: Seq<Seq<char>>)
    requires
        entry_index(s, name) >= 0,
    ensures
        ({
            let e = stash_of(entries_insert(s, name, stash_of(s, name).filter(not_in(paths))), name);
            &&& e == stash_of(s, name).filter(not_in(paths))
            &&& forall|k: int| 0 <= k < e.len() ==> !paths.contains(#[trigger] e[k].2)
        }),
{
    let f = stash_of(s, name).filter(not_in(paths));
    lemma_stash_of_insert(s, name, f);
    assert forall|k: int| 0 <= k < f.len() implies !paths.contains(#[trigger] f[k].2) by {
        stash_of(s, name).filter_lemma(not_in(paths));
        assert(not_in(paths)(f[k]));
    }
}

} // verus!
