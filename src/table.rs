//! A table held as a sequence of records in strictly increasing key order, and the map
//! from keys to records that it stands for.
use vstd::prelude::*;

use crate::keys::strict_total_order;

verus! {

/// The records of `l` strictly increase in `key` under `lt`.
pub open spec fn sorted_by<T, K>(l: Seq<T>, key: spec_fn(T) -> K, lt: spec_fn(K, K) -> bool) -> bool {
    forall|i: int, j: int| 0 <= i < j < l.len() ==> #[trigger] lt(key(l[i]), key(l[j]))
}

/// Whether some record of `l` has key `k`.
pub open spec fn has_key<T, K>(l: Seq<T>, key: spec_fn(T) -> K, k: K) -> bool {
    exists|i: int| 0 <= i < l.len() && key(#[trigger] l[i]) == k
}

/// The map from each key present in `l` to the record of `l` that has it.
pub open spec fn table_map<T, K>(l: Seq<T>, key: spec_fn(T) -> K) -> Map<K, T> {
    Map::new(
        |k: K| has_key(l, key, k),
        |k: K| l[choose|i: int| 0 <= i < l.len() && key(#[trigger] l[i]) == k],
    )
}

/// In a sorted table each key is held by one record only.
pub proof fn lemma_sorted_unique<T, K>(
    l: Seq<T>,
    key: spec_fn(T) -> K,
    lt: spec_fn(K, K) -> bool,
    i: int,
    j: int,
)
    requires
        strict_total_order(lt),
        sorted_by(l, key, lt),
        0 <= i < l.len(),
        0 <= j < l.len(),
        key(l[i]) == key(l[j]),
    ensures
        i == j,
{
    if i < j {
        assert(lt(key(l[i]), key(l[j])));
    } else if j < i {
        assert(lt(key(l[j]), key(l[i])));
    }
}

/// The record at position `i` is what the map holds under its key.
pub proof fn lemma_table_at<T, K>(l: Seq<T>, key: spec_fn(T) -> K, lt: spec_fn(K, K) -> bool, i: int)
    requires
        strict_total_order(lt),
        sorted_by(l, key, lt),
        0 <= i < l.len(),
    ensures
        table_map(l, key).contains_key(key(l[i])),
        table_map(l, key)[key(l[i])] == l[i],
{
    let k = key(l[i]);
    assert(has_key(l, key, k));
    let j = choose|j: int| 0 <= j < l.len() && key(#[trigger] l[j]) == k;
    lemma_sorted_unique(l, key, lt, i, j);
}

/// Each entry of the map is held under its own key.
pub proof fn lemma_table_keys<T, K>(l: Seq<T>, key: spec_fn(T) -> K, lt: spec_fn(K, K) -> bool)
    requires
        strict_total_order(lt),
        sorted_by(l, key, lt),
    ensures
        forall|k: K| #[trigger] table_map(l, key).contains_key(k) ==> key(table_map(l, key)[k]) == k,
{
    assert forall|k: K| #[trigger] table_map(l, key).contains_key(k) implies key(
        table_map(l, key)[k],
    ) == k by {
        let i = choose|i: int| 0 <= i < l.len() && key(#[trigger] l[i]) == k;
        lemma_table_at(l, key, lt, i);
    }
}

/// Inserting a record at the place its key belongs adds it to the map.
pub proof fn lemma_table_insert<T, K>(
    l: Seq<T>,
    key: spec_fn(T) -> K,
    lt: spec_fn(K, K) -> bool,
    p: int,
    v: T,
)
    requires
        strict_total_order(lt),
        sorted_by(l, key, lt),
        0 <= p <= l.len(),
        forall|i: int| 0 <= i < p ==> lt(key(#[trigger] l[i]), key(v)),
        forall|i: int| p <= i < l.len() ==> lt(key(v), key(#[trigger] l[i])),
    ensures
        sorted_by(l.insert(p, v), key, lt),
        table_map(l.insert(p, v), key) == table_map(l, key).insert(key(v), v),
{
    let n = l.insert(p, v);
    assert forall|i: int, j: int| 0 <= i < j < n.len() implies #[trigger] lt(key(n[i]), key(n[j])) by {
        if i < p && j > p {
            assert(lt(key(l[i]), key(v)));
            assert(lt(key(v), key(l[j - 1])));
        } else if i > p {
            assert(lt(key(l[i - 1]), key(l[j - 1])));
        } else if j < p {
            assert(lt(key(l[i]), key(l[j])));
        }
    }
    let m = table_map(l, key).insert(key(v), v);
    assert forall|k: K| #[trigger] table_map(n, key).contains_key(k) <==> m.contains_key(k) by {
        if has_key(n, key, k) {
            let i = choose|i: int| 0 <= i < n.len() && key(#[trigger] n[i]) == k;
            if i < p {
                assert(key(l[i]) == k);
            } else if i > p {
                assert(key(l[i - 1]) == k);
            }
        }
        if has_key(l, key, k) {
            let i = choose|i: int| 0 <= i < l.len() && key(#[trigger] l[i]) == k;
            if i < p {
                assert(key(n[i]) == k);
            } else {
                assert(key(n[i + 1]) == k);
            }
        }
        if k == key(v) {
            assert(key(n[p]) == k);
        }
    }
    assert forall|k: K| #[trigger] table_map(n, key).contains_key(k) implies table_map(n, key)[k]
        == m[k] by {
        let i = choose|i: int| 0 <= i < n.len() && key(#[trigger] n[i]) == k;
        lemma_table_at(n, key, lt, i);
        if i < p {
            lemma_table_at(l, key, lt, i);
            assert(lt(key(l[i]), key(v)));
        } else if i > p {
            lemma_table_at(l, key, lt, i - 1);
            assert(lt(key(v), key(l[i - 1])));
        }
    }
    assert(table_map(n, key) =~= m);
}

/// Putting a record in place of one with the same key replaces it in the map.
pub proof fn lemma_table_update<T, K>(
    l: Seq<T>,
    key: spec_fn(T) -> K,
    lt: spec_fn(K, K) -> bool,
    p: int,
    v: T,
)
    requires
        strict_total_order(lt),
        sorted_by(l, key, lt),
        0 <= p < l.len(),
        key(l[p]) == key(v),
    ensures
        sorted_by(l.update(p, v), key, lt),
        table_map(l.update(p, v), key) == table_map(l, key).insert(key(v), v),
{
    let n = l.update(p, v);
    assert forall|i: int, j: int| 0 <= i < j < n.len() implies #[trigger] lt(key(n[i]), key(n[j])) by {
        assert(lt(key(l[i]), key(l[j])));
    }
    let m = table_map(l, key).insert(key(v), v);
    assert forall|k: K| #[trigger] table_map(n, key).contains_key(k) <==> m.contains_key(k) by {
        if has_key(n, key, k) {
            let i = choose|i: int| 0 <= i < n.len() && key(#[trigger] n[i]) == k;
            if i != p {
                assert(key(l[i]) == k);
            }
        }
        if has_key(l, key, k) {
            let i = choose|i: int| 0 <= i < l.len() && key(#[trigger] l[i]) == k;
            assert(key(n[i]) == k);
        }
        if k == key(v) {
            assert(key(n[p]) == k);
        }
    }
    assert forall|k: K| #[trigger] table_map(n, key).contains_key(k) implies table_map(n, key)[k]
        == m[k] by {
        let i = choose|i: int| 0 <= i < n.len() && key(#[trigger] n[i]) == k;
        lemma_table_at(n, key, lt, i);
        if i != p {
            lemma_table_at(l, key, lt, i);
            lemma_table_at(l, key, lt, p);
            if key(l[i]) == key(v) {
                lemma_sorted_unique(l, key, lt, i, p);
            }
        }
    }
    assert(table_map(n, key) =~= m);
}

/// Taking out the record at position `p` takes its key out of the map.
pub proof fn lemma_table_remove<T, K>(l: Seq<T>, key: spec_fn(T) -> K, lt: spec_fn(K, K) -> bool, p: int)
    requires
        strict_total_order(lt),
        sorted_by(l, key, lt),
        0 <= p < l.len(),
    ensures
        sorted_by(l.remove(p), key, lt),
        table_map(l.remove(p), key) == table_map(l, key).remove(key(l[p])),
{
    let n = l.remove(p);
    assert forall|i: int, j: int| 0 <= i < j < n.len() implies #[trigger] lt(key(n[i]), key(n[j])) by {
        let i0 = if i < p { i } else { i + 1 };
        let j0 = if j < p { j } else { j + 1 };
        assert(lt(key(l[i0]), key(l[j0])));
    }
    let m = table_map(l, key).remove(key(l[p]));
    assert forall|k: K| #[trigger] table_map(n, key).contains_key(k) <==> m.contains_key(k) by {
        if has_key(n, key, k) {
            let i = choose|i: int| 0 <= i < n.len() && key(#[trigger] n[i]) == k;
            let i0 = if i < p { i } else { i + 1 };
            assert(key(l[i0]) == k);
            if k == key(l[p]) {
                lemma_sorted_unique(l, key, lt, i0, p);
            }
        }
        if has_key(l, key, k) && k != key(l[p]) {
            let i = choose|i: int| 0 <= i < l.len() && key(#[trigger] l[i]) == k;
            if i < p {
                assert(key(n[i]) == k);
            } else {
                assert(key(n[i - 1]) == k);
            }
        }
    }
    assert forall|k: K| #[trigger] table_map(n, key).contains_key(k) implies table_map(n, key)[k]
        == m[k] by {
        let i = choose|i: int| 0 <= i < n.len() && key(#[trigger] n[i]) == k;
        lemma_table_at(n, key, lt, i);
        let i0 = if i < p { i } else { i + 1 };
        lemma_table_at(l, key, lt, i0);
    }
    assert(table_map(n, key) =~= m);
}

} // verus!
