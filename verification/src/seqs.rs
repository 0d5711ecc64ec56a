//! Sequence vocabulary of the contracts: the indices of the elements that
//! satisfy a predicate, and a sequence with chosen positions left out.

use vstd::prelude::*;

verus! {

/// The indices `i` with `p(s[i])`, ascending.
pub open spec fn indices_where<A>(s: Seq<A>, p: spec_fn(A) -> bool) -> Seq<usize>
    decreases s.len(),
{
    if s.len() == 0 {
        Seq::empty()
    } else {
        let r = indices_where(s.drop_last(), p);
        if p(s.last()) {
            r.push((s.len() - 1) as usize)
        } else {
            r
        }
    }
}

/// `indices_where` lists exactly the satisfying positions, in ascending order.
pub proof fn lemma_indices_where<A>(s: Seq<A>, p: spec_fn(A) -> bool)
    requires
        s.len() <= usize::MAX,
    ensures
        forall|k: int|
            0 <= k < indices_where(s, p).len() ==> (#[trigger] indices_where(s, p)[k] as int) < s.len()
                && p(s[indices_where(s, p)[k] as int]),
        forall|k1: int, k2: int|
            0 <= k1 < k2 < indices_where(s, p).len() ==> #[trigger] indices_where(s, p)[k1]
                < #[trigger] indices_where(s, p)[k2],
        forall|i: int|
            0 <= i < s.len() && p(#[trigger] s[i]) ==> indices_where(s, p).contains(i as usize),
        indices_where(s, p).len() <= s.len(),
    decreases s.len(),
{
    if s.len() > 0 {
        let t = s.drop_last();
        lemma_indices_where(t, p);
        let r = indices_where(t, p);
        assert forall|i: int| 0 <= i < s.len() && p(#[trigger] s[i]) implies indices_where(
            s,
            p,
        ).contains(i as usize) by {
            if i < s.len() - 1 {
                assert(t[i] == s[i]);
                let k = choose|k: int| 0 <= k < r.len() && r[k] == i as usize;
                if p(s.last()) {
                    assert(indices_where(s, p)[k] == i as usize);
                } else {
                    assert(indices_where(s, p)[k] == i as usize);
                }
            } else {
                assert(indices_where(s, p).last() == i as usize);
            }
        }
    }
}

/// The elements of `s` from position `i` on whose index is not `drop`ped.
pub open spec fn filtered_from<A>(s: Seq<A>, drop: spec_fn(int) -> bool, i: int) -> Seq<A>
    decreases s.len() - i,
{
    if i >= s.len() || i < 0 {
        Seq::empty()
    } else if drop(i) {
        filtered_from(s, drop, i + 1)
    } else {
        seq![s[i]] + filtered_from(s, drop, i + 1)
    }
}

/// With nothing dropped, `filtered_from` is the suffix.
pub proof fn lemma_filtered_none<A>(s: Seq<A>, drop: spec_fn(int) -> bool, i: int)
    requires
        0 <= i <= s.len(),
        forall|j: int| i <= j < s.len() ==> !#[trigger] drop(j),
    ensures
        filtered_from(s, drop, i) == s.subrange(i, s.len() as int),
    decreases s.len() - i,
{
    if i < s.len() {
        lemma_filtered_none(s, drop, i + 1);
        assert(seq![s[i]] + s.subrange(i + 1, s.len() as int) =~= s.subrange(i, s.len() as int));
    } else {
        assert(s.subrange(i, s.len() as int) =~= Seq::<A>::empty());
    }
}

/// Removing the dropped positions from the back, one step: what is left
/// before `i - 1`, followed by the kept suffix from `i`.
pub proof fn lemma_filtered_step<A>(s: Seq<A>, drop: spec_fn(int) -> bool, i: int)
    requires
        0 < i <= s.len(),
    ensures
        drop(i - 1) ==> s.take(i - 1) + filtered_from(s, drop, i - 1) == s.take(i - 1) + filtered_from(
            s,
            drop,
            i,
        ),
        !drop(i - 1) ==> s.take(i) + filtered_from(s, drop, i) =~= s.take(i - 1) + filtered_from(
            s,
            drop,
            i - 1,
        ),
{
    if !drop(i - 1) {
        assert(s.take(i) =~= s.take(i - 1).push(s[i - 1]));
        assert(filtered_from(s, drop, i - 1) == seq![s[i - 1]] + filtered_from(s, drop, i));
    }
}

/// Every element of `filtered_from` is an element of `s` at a kept position.
pub proof fn lemma_filtered_members<A>(s: Seq<A>, drop: spec_fn(int) -> bool, i: int)
    requires
        0 <= i,
    ensures
        forall|k: int|
            0 <= k < filtered_from(s, drop, i).len() ==> exists|j: int|
                i <= j < s.len() && !drop(j) && s[j] == #[trigger] filtered_from(s, drop, i)[k],
    decreases s.len() - i,
{
    if i < s.len() {
        lemma_filtered_members(s, drop, i + 1);
        let f = filtered_from(s, drop, i);
        let g = filtered_from(s, drop, i + 1);
        assert forall|k: int| 0 <= k < f.len() implies exists|j: int|
            i <= j < s.len() && !drop(j) && s[j] == #[trigger] f[k] by {
            if drop(i) {
                assert(f[k] == g[k]);
            } else if k == 0 {
                assert(s[i] == f[k]);
            } else {
                assert(f[k] == g[k - 1]);
            }
        }
    }
}

/// Filtering a sequence with one more element.
pub proof fn lemma_filter_push<A>(s: Seq<A>, x: A, p: spec_fn(A) -> bool)
    ensures
        s.push(x).filter(p) == (if p(x) {
            s.filter(p).push(x)
        } else {
            s.filter(p)
        }),
{
    reveal(Seq::filter);
    assert(s.push(x).drop_last() =~= s);
}

/// Removing an element that satisfies `p` removes one element of the filter.
pub proof fn lemma_filter_remove<A>(s: Seq<A>, i: int, p: spec_fn(A) -> bool)
    requires
        0 <= i < s.len(),
    ensures
        s.remove(i).filter(p).len() == s.filter(p).len() - (if p(s[i]) {
            1int
        } else {
            0int
        }),
{
    let a = s.take(i);
    let b = s.skip(i + 1);
    assert(s =~= a + seq![s[i]] + b);
    assert(s.remove(i) =~= a + b);
    Seq::filter_distributes_over_add(a + seq![s[i]], b, p);
    Seq::filter_distributes_over_add(a, seq![s[i]], p);
    Seq::filter_distributes_over_add(a, b, p);
    lemma_filter_push(Seq::<A>::empty(), s[i], p);
    assert(Seq::<A>::empty().push(s[i]) =~= seq![s[i]]);
    reveal(Seq::filter);
    assert(Seq::<A>::empty().filter(p) =~= Seq::<A>::empty());
    assert(seq![s[i]].filter(p).len() == (if p(s[i]) { 1int } else { 0int }));
    assert(s.filter(p).len() == a.filter(p).len() + seq![s[i]].filter(p).len() + b.filter(p).len());
}

/// With no element satisfying `p`, the filter is empty.
pub proof fn lemma_filter_none<A>(s: Seq<A>, p: spec_fn(A) -> bool)
    requires
        forall|i: int| 0 <= i < s.len() ==> !p(#[trigger] s[i]),
    ensures
        s.filter(p).len() == 0,
    decreases s.len(),
{
    reveal(Seq::filter);
    if s.len() > 0 {
        let t = s.drop_last();
        assert forall|i: int| 0 <= i < t.len() implies !p(#[trigger] t[i]) by {
            assert(t[i] == s[i]);
        }
        lemma_filter_none(t, p);
        assert(!p(s[s.len() - 1]));
    }
}

} // verus!
