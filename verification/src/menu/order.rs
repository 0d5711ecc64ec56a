//! The order in which the action files of the actions folder are merged:
//! the innermost subfolders first, files of one depth in path order.

use vstd::prelude::*;
use crate::text::{lemma_text_order, text_less, text_lt, to_chars};

verus! {

/// Whether the path with components `a` comes before the one with
/// components `b` in path order: by the first component in which they
/// differ, in text order; a proper prefix first.
pub open spec fn components_lt(a: Seq<Seq<char>>, b: Seq<Seq<char>>) -> bool
    decreases a.len(),
{
    if a.len() == 0 {
        b.len() > 0
    } else if b.len() == 0 {
        false
    } else if a[0] != b[0] {
        text_lt(a[0], b[0])
    } else {
        components_lt(a.drop_first(), b.drop_first())
    }
}

/// Whether the file with components `a` is merged before the one with
/// components `b`: deeper files first, files of one depth in path order.
pub open spec fn loads_before(a: Seq<Seq<char>>, b: Seq<Seq<char>>) -> bool {
    a.len() > b.len() || (a.len() == b.len() && components_lt(a, b))
}

/// Path order is irreflexive and asymmetric, relates any two different
/// paths one way, and is transitive.
pub proof fn lemma_components_order(a: Seq<Seq<char>>, b: Seq<Seq<char>>, c: Seq<Seq<char>>)
    ensures
        !components_lt(a, a),
        components_lt(a, b) ==> !components_lt(b, a),
        a != b ==> components_lt(a, b) || components_lt(b, a),
        components_lt(a, b) && components_lt(b, c) ==> components_lt(a, c),
    decreases a.len(),
{
    if a.len() > 0 {
        lemma_components_order(a.drop_first(), a.drop_first(), a.drop_first());
        if b.len() > 0 {
            lemma_text_order(a[0], b[0], if c.len() > 0 { c[0] } else { b[0] });
            lemma_text_order(b[0], a[0], a[0]);
            if c.len() > 0 {
                lemma_text_order(c[0], a[0], b[0]);
                lemma_text_order(a[0], c[0], c[0]);
                lemma_components_order(a.drop_first(), b.drop_first(), c.drop_first());
            } else {
                lemma_components_order(a.drop_first(), b.drop_first(), b.drop_first());
            }
            if a != b && a[0] == b[0] {
                assert(a.drop_first() != b.drop_first()) by {
                    if a.drop_first() == b.drop_first() {
                        assert(a =~= seq![a[0]] + a.drop_first());
                        assert(b =~= seq![b[0]] + b.drop_first());
                    }
                }
            }
        }
    } else if b.len() == 0 {
        assert(a =~= b);
    }
}

/// Load order is a strict total order on different paths.
pub proof fn lemma_load_order(a: Seq<Seq<char>>, b: Seq<Seq<char>>, c: Seq<Seq<char>>)
    ensures
        !loads_before(a, a),
        loads_before(a, b) ==> !loads_before(b, a),
        a != b ==> loads_before(a, b) || loads_before(b, a),
        loads_before(a, b) && loads_before(b, c) ==> loads_before(a, c),
{
    lemma_components_order(a, b, c);
    lemma_components_order(b, a, a);
}

/// The components of each file, as character sequences.
pub open spec fn component_view(files: Seq<Vec<String>>, i: int) -> Seq<Seq<char>> {
    files[i].deep_view()
}

/// Whether `path` comes before `other` in path order.
fn components_less(path: &Vec<String>, other: &Vec<String>) -> (r: bool)
    ensures
        r == components_lt(path.deep_view(), other.deep_view()),
{
    let ghost a = path.deep_view();
    let ghost b = other.deep_view();
    let mut k: usize = 0;
    assert(a.skip(0) =~= a && b.skip(0) =~= b);
    while k < path.len() && k < other.len()
        invariant
            a == path.deep_view(),
            b == other.deep_view(),
            k <= a.len(),
            k <= b.len(),
            components_lt(a, b) == components_lt(a.skip(k as int), b.skip(k as int)),
        decreases a.len() - k,
    {
        let x = to_chars(path[k].as_str());
        let y = to_chars(other[k].as_str());
        assert(a.skip(k as int)[0] == x@ && b.skip(k as int)[0] == y@);
        if !crate::text::chars_eq(x.as_slice(), y.as_slice()) {
            return text_less(&x, &y);
        }
        assert(a.skip(k as int).drop_first() =~= a.skip(k + 1));
        assert(b.skip(k as int).drop_first() =~= b.skip(k + 1));
        k = k + 1;
    }
    other.len() > k
}

/// Whether the file with components `a` is merged before the one with
/// components `b`.
fn loads_first(a: &Vec<String>, b: &Vec<String>) -> (r: bool)
    ensures
        r == loads_before(a.deep_view(), b.deep_view()),
{
    a.len() > b.len() || (a.len() == b.len() && components_less(a, b))
}

/// Whether `order` lists each index below `n` exactly once.
pub open spec fn is_permutation(order: Seq<usize>, n: nat) -> bool {
    &&& order.len() == n
    &&& forall|i: int| 0 <= i < order.len() ==> order[i] < n
    &&& forall|i: int, j: int| 0 <= i < j < order.len() ==> order[i] != order[j]
}

/// The merge order of the action files with components `files`: the
/// indices of the files, deeper files first, files of one depth in path
/// order; files with the same components keep their order.
pub fn load_order(files: &Vec<Vec<String>>) -> (order: Vec<usize>)
    ensures
        is_permutation(order@, files@.len()),
        forall|i: int, j: int|
            0 <= i < j < order@.len() ==> !loads_before(
                files@[order@[j] as int].deep_view(),
                files@[order@[i] as int].deep_view(),
            ),
{
    let mut order: Vec<usize> = Vec::new();
    let mut n: usize = 0;
    while n < files.len()
        invariant
            n <= files@.len(),
            order@.len() == n,
            forall|i: int| 0 <= i < order@.len() ==> order@[i] < n,
            forall|i: int, j: int| 0 <= i < j < order@.len() ==> order@[i] != order@[j],
            forall|i: int, j: int|
                0 <= i < j < order@.len() ==> !loads_before(
                    files@[order@[j] as int].deep_view(),
                    files@[order@[i] as int].deep_view(),
                ),
        decreases files@.len() - n,
    {
        let ghost key = files@[n as int].deep_view();
        let mut p: usize = 0;
        while p < order.len() && !loads_first(&files[n], &files[order[p]])
            invariant
                p <= order@.len(),
                order@.len() == n,
                n < files@.len(),
                forall|i: int| 0 <= i < order@.len() ==> order@[i] < n,
                key == files@[n as int].deep_view(),
                forall|q: int| 0 <= q < p ==> !loads_before(key, #[trigger] files@[order@[q] as int].deep_view()),
            decreases order@.len() - p,
        {
            p = p + 1;
        }
        let ghost before = order@;
        proof {
            assert forall|q: int| p <= q < before.len() implies !loads_before(
                #[trigger] files@[before[q] as int].deep_view(),
                key,
            ) by {
                let kp = files@[before[p as int] as int].deep_view();
                let kq = files@[before[q] as int].deep_view();
                lemma_load_order(kq, key, kp);
                if q > p {
                    assert(!loads_before(kq, kp));
                }
                lemma_load_order(kq, kp, kp);
            }
        }
        order.insert(p, n);
        proof {
            assert forall|i: int, j: int| 0 <= i < j < order@.len() implies !loads_before(
                files@[order@[j] as int].deep_view(),
                files@[order@[i] as int].deep_view(),
            ) by {
                if i < p && j < p {
                    assert(order@[i] == before[i] && order@[j] == before[j]);
                } else if i < p && j == p {
                    assert(order@[i] == before[i]);
                } else if i < p {
                    assert(order@[i] == before[i] && order@[j] == before[j - 1]);
                } else if i == p {
                    assert(order@[j] == before[j - 1]);
                } else {
                    assert(order@[i] == before[i - 1] && order@[j] == before[j - 1]);
                }
            }
            assert forall|i: int, j: int| 0 <= i < j < order@.len() implies order@[i] != order@[j] by {
                if i < p && j < p {
                    assert(order@[i] == before[i] && order@[j] == before[j]);
                } else if i < p && j == p {
                    assert(order@[i] == before[i]);
                } else if i < p {
                    assert(order@[i] == before[i] && order@[j] == before[j - 1]);
                } else if i == p {
                    assert(order@[j] == before[j - 1]);
                } else {
                    assert(order@[i] == before[i - 1] && order@[j] == before[j - 1]);
                }
            }
            assert forall|i: int| 0 <= i < order@.len() implies order@[i] < n + 1 by {
                if i < p {
                    assert(order@[i] == before[i]);
                } else if i > p {
                    assert(order@[i] == before[i - 1]);
                }
            }
        }
        n = n + 1;
    }
    order
}

} // verus!
