//! Selection-aware reload: selections are saved as path hashes before a
//! worker restart invalidates their indices, then mapped back onto the
//! fresh items once the pane has populated.

use std::collections::HashMap;
use std::hash::{Hash, Hasher};
use vstd::prelude::*;
use crate::text::{first_index, lemma_first_index, lemma_first_index_is};

verus! {

/// Hashed selection paths waiting to be mapped back after a reload.
#[derive(Debug)]
pub struct PendingSelections(pub Vec<u64>);

/// Whether an item (index, path hash) has hash `h`.
pub open spec fn hash_is(h: u64) -> spec_fn((u32, u64)) -> bool {
    |e: (u32, u64)| e.1 == h
}

/// The new indices of the saved hashes, in saved order: each hash maps to
/// the first item with that hash; hashes with no item are dropped.
pub open spec fn rehydrate_spec(saved: Seq<u64>, items: Seq<(u32, u64)>) -> Seq<u32>
    decreases saved.len(),
{
    if saved.len() == 0 {
        Seq::empty()
    } else {
        let r = rehydrate_spec(saved.drop_last(), items);
        let i = first_index(items, hash_is(saved.last()));
        if i >= 0 {
            r.push(items[i].0)
        } else {
            r
        }
    }
}

/// Maps the saved hashes back onto the fresh items (index, path hash):
/// the new indices in saved order; a hash shared by several items maps to
/// the first of them.
pub fn rehydrate(saved: &Vec<u64>, items: &Vec<(u32, u64)>) -> (r: Vec<u32>)
    ensures
        r@ == rehydrate_spec(saved@, items@),
{
    let mut reverse: HashMap<u64, u32> = HashMap::new();
    let mut i: usize = 0;
    while i < items.len()
        invariant
            i <= items@.len(),
            forall|h: u64|
                #![trigger reverse@.contains_key(h)]
                reverse@.contains_key(h) <==> first_index(items@.take(i as int), hash_is(h)) >= 0,
            forall|h: u64|
                #![trigger reverse@[h]]
                reverse@.contains_key(h) ==> reverse@[h] == items@[first_index(
                    items@.take(i as int),
                    hash_is(h),
                )].0,
        decreases items@.len() - i,
    {
        let (idx, h) = items[i];
        let ghost t0 = items@.take(i as int);
        let ghost t1 = items@.take(i + 1);
        proof {
            assert(t1.drop_last() =~= t0);
            assert forall|g: u64| first_index(t0, hash_is(g)) >= 0 implies first_index(t1, hash_is(g))
                == first_index(t0, hash_is(g)) by {
                lemma_first_index(t0, hash_is(g));
                let f = first_index(t0, hash_is(g));
                assert(t1[f] == t0[f]);
                assert forall|j: int| 0 <= j < f implies !hash_is(g)(t1[j]) by {
                    assert(t1[j] == t0[j]);
                }
                lemma_first_index_is(t1, hash_is(g), f);
            }
            assert forall|g: u64| first_index(t0, hash_is(g)) < 0 implies first_index(t1, hash_is(g))
                == (if g == h { i as int } else { -1 }) by {
                lemma_first_index(t0, hash_is(g));
                assert forall|j: int| 0 <= j < i implies !hash_is(g)(t1[j]) by {
                    assert(t1[j] == t0[j]);
                }
                if g == h {
                    assert(hash_is(g)(t1[i as int]));
                    lemma_first_index_is(t1, hash_is(g), i as int);
                } else {
                    assert(!hash_is(g)(t1[i as int]));
                    lemma_first_index_is(t1, hash_is(g), -1);
                }
            }
        }
        if !reverse.contains_key(&h) {
            reverse.insert(h, idx);
        }
        i = i + 1;
    }
    assert(items@.take(items@.len() as int) =~= items@);
    let mut out: Vec<u32> = Vec::new();
    let mut k: usize = 0;
    while k < saved.len()
        invariant
            k <= saved@.len(),
            out@ == rehydrate_spec(saved@.take(k as int), items@),
            forall|h: u64|
                #![trigger reverse@.contains_key(h)]
                reverse@.contains_key(h) <==> first_index(items@, hash_is(h)) >= 0,
            forall|h: u64|
                #![trigger reverse@[h]]
                reverse@.contains_key(h) ==> reverse@[h] == items@[first_index(items@, hash_is(h))].0,
        decreases saved@.len() - k,
    {
        let h = saved[k];
        proof {
            assert(saved@.take(k + 1).drop_last() =~= saved@.take(k as int));
            assert(saved@.take(k + 1).last() == h);
        }
        match reverse.get(&h) {
            Some(idx) => {
                out.push(*idx);
            },
            None => {},
        }
        k = k + 1;
    }
    assert(saved@.take(saved@.len() as int) =~= saved@);
    out
}

} // verus!

verus! {

/// `ahash::AHasher` with its default keys, fed the path: a fast hash of
/// `path`. The keys are drawn once per process, so nothing is stated of
/// the value beyond its type; within one process a path always hashes the
/// same.
#[verifier::external_body]
pub fn hash_path(path: &str) -> (h: u64) {
    let mut hasher = ahash::AHasher::default();
    std::path::Path::new(path).hash(&mut hasher);
    hasher.finish()
}

/// The pending selections of the selected `paths`: one hash per path, in
/// selection order.
pub fn snapshot_selections(paths: &Vec<String>) -> (p: PendingSelections)
    ensures
        p.0@.len() == paths@.len(),
{
    let mut hashes: Vec<u64> = Vec::new();
    let mut i: usize = 0;
    while i < paths.len()
        invariant
            i <= paths@.len(),
            hashes@.len() == i,
        decreases paths@.len() - i,
    {
        hashes.push(hash_path(paths[i].as_str()));
        i = i + 1;
    }
    PendingSelections(hashes)
}

/// The fresh items (index, path) with their paths hashed.
pub fn hash_items(items: &Vec<(u32, String)>) -> (v: Vec<(u32, u64)>)
    ensures
        v@.len() == items@.len(),
        forall|k: int| 0 <= k < items@.len() ==> (#[trigger] v@[k]).0 == items@[k].0,
{
    let mut v: Vec<(u32, u64)> = Vec::new();
    let mut i: usize = 0;
    while i < items.len()
        invariant
            i <= items@.len(),
            v@.len() == i,
            forall|k: int| 0 <= k < i ==> (#[trigger] v@[k]).0 == items@[k].0,
        decreases items@.len() - i,
    {
        let h = hash_path(items[i].1.as_str());
        v.push((items[i].0, h));
        i = i + 1;
    }
    v
}

} // verus!
