//! Declaration of the insertion-ordered map of the `indexmap` crate, so
//! that verified code can hold one in a field and pass it through.

use vstd::prelude::*;

verus! {

#[verifier::external_type_specification]
#[verifier::external_body]
#[verifier::reject_recursive_types(K)]
#[verifier::reject_recursive_types(V)]
#[verifier::reject_recursive_types(S)]
pub struct ExIndexMap<K, V, S>(indexmap::IndexMap<K, V, S>);

/// Whether an entry's key is `key`.
pub open spec fn key_is<V>(key: Seq<char>) -> spec_fn((Seq<char>, V)) -> bool {
    |e: (Seq<char>, V)| e.0 == key
}

/// The entry of `entries` whose key is `key`, found by the first match.
pub open spec fn entry_index<V>(entries: Seq<(Seq<char>, V)>, key: Seq<char>) -> int {
    crate::text::first_index(entries, key_is(key))
}

/// No two entries share a key.
pub open spec fn keys_distinct<V>(entries: Seq<(Seq<char>, V)>) -> bool {
    forall|i: int, j: int| 0 <= i < j < entries.len() ==> entries[i].0 != entries[j].0
}

/// The result of inserting `(key, value)` into an insertion-ordered map:
/// an existing key keeps its place and takes the new value, a new key goes last.
pub open spec fn entries_insert<V>(entries: Seq<(Seq<char>, V)>, key: Seq<char>, value: V) -> Seq<
    (Seq<char>, V),
> {
    let i = entry_index(entries, key);
    if i >= 0 {
        entries.update(i, (key, value))
    } else {
        entries.push((key, value))
    }
}

/// The keys of `entries`, in order.
pub open spec fn entry_keys<V>(entries: Seq<(Seq<char>, V)>) -> Seq<Seq<char>> {
    entries.map_values(|e: (Seq<char>, V)| e.0)
}

} // verus!
