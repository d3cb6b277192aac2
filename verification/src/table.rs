//! Tables: lists of pairs in which no key occurs twice, and the maps that they are.

use vstd::prelude::*;

verus! {

/// Whether the pair at a position has a key.
pub open spec fn entry_at<K, V>(pairs: Seq<(K, V)>, key: K, i: int) -> bool {
    0 <= i < pairs.len() && pairs[i].0 == key
}

/// Whether no key occurs twice.
pub open spec fn distinct<K, V>(pairs: Seq<(K, V)>) -> bool {
    forall|key: K, i: int, j: int|
        #![trigger entry_at(pairs, key, i), entry_at(pairs, key, j)]
        entry_at(pairs, key, i) && entry_at(pairs, key, j) ==> i == j
}

/// The map of each key to its value.
pub open spec fn table<K, V>(pairs: Seq<(K, V)>) -> Map<K, V> {
    Map::new(
        |key: K| exists|i: int| entry_at(pairs, key, i),
        |key: K| pairs[choose|i: int| entry_at(pairs, key, i)].1,
    )
}

/// The map has what each pair holds.
pub proof fn lemma_entry<K, V>(pairs: Seq<(K, V)>, i: int)
    requires
        distinct(pairs),
        0 <= i < pairs.len(),
    ensures
        table(pairs).contains_key(pairs[i].0),
        table(pairs)[pairs[i].0] == pairs[i].1,
{
    assert(entry_at(pairs, pairs[i].0, i));
}

/// A pair with a new key adds to the map what it holds.
pub proof fn lemma_push<K, V>(pairs: Seq<(K, V)>, key: K, value: V)
    requires
        distinct(pairs),
        !table(pairs).contains_key(key),
    ensures
        distinct(pairs.push((key, value))),
        table(pairs.push((key, value))) == table(pairs).insert(key, value),
{
    let after = pairs.push((key, value));
    assert forall|k: K, i: int| #[trigger] entry_at(after, k, i) implies entry_at(pairs, k, i) || (i
        == pairs.len() && k == key) by {}
    assert forall|k: K, i: int, j: int|
        #![trigger entry_at(after, k, i), entry_at(after, k, j)]
        entry_at(after, k, i) && entry_at(after, k, j) implies i == j by {
        assert(entry_at(pairs, k, i) || i == pairs.len());
        assert(entry_at(pairs, k, j) || j == pairs.len());
    }
    let got = table(after);
    let want = table(pairs).insert(key, value);
    assert forall|k: K|
        #![trigger got.dom().contains(k)]
        #![trigger want.dom().contains(k)]
        #![trigger got[k]]
        got.dom().contains(k) == want.dom().contains(k) && (got.dom().contains(k) ==> got[k]
            == want[k]) by {
        if k == key {
            lemma_entry(after, pairs.len() as int);
        } else if table(pairs).contains_key(k) {
            let i = choose|i: int| entry_at(pairs, k, i);
            assert(entry_at(after, k, i));
            lemma_entry(after, i);
            lemma_entry(pairs, i);
        }
    }
    assert(got =~= want);
}

/// Another value in a pair is another value for its key.
pub proof fn lemma_update<K, V>(pairs: Seq<(K, V)>, i: int, value: V)
    requires
        distinct(pairs),
        0 <= i < pairs.len(),
    ensures
        distinct(pairs.update(i, (pairs[i].0, value))),
        table(pairs.update(i, (pairs[i].0, value))) == table(pairs).insert(pairs[i].0, value),
{
    let after = pairs.update(i, (pairs[i].0, value));
    assert forall|k: K, j: int| #[trigger] entry_at(after, k, j) == entry_at(pairs, k, j) by {}
    assert forall|k: K, j: int, l: int|
        #![trigger entry_at(after, k, j), entry_at(after, k, l)]
        entry_at(after, k, j) && entry_at(after, k, l) implies j == l by {
        assert(entry_at(pairs, k, j) && entry_at(pairs, k, l));
    }
    let got = table(after);
    let want = table(pairs).insert(pairs[i].0, value);
    assert forall|k: K|
        #![trigger got.dom().contains(k)]
        #![trigger want.dom().contains(k)]
        #![trigger got[k]]
        got.dom().contains(k) == want.dom().contains(k) && (got.dom().contains(k) ==> got[k]
            == want[k]) by {
        if k == pairs[i].0 {
            lemma_entry(after, i);
        } else if table(pairs).contains_key(k) {
            let j = choose|j: int| entry_at(pairs, k, j);
            assert(entry_at(after, k, j));
            lemma_entry(after, j);
            lemma_entry(pairs, j);
        } else if table(after).contains_key(k) {
            let j = choose|j: int| entry_at(after, k, j);
            assert(entry_at(pairs, k, j));
        }
    }
    assert(got =~= want);
}

/// Taking a pair out takes its key out of the map.
pub proof fn lemma_remove<K, V>(pairs: Seq<(K, V)>, i: int)
    requires
        distinct(pairs),
        0 <= i < pairs.len(),
    ensures
        distinct(pairs.remove(i)),
        table(pairs.remove(i)) == table(pairs).remove(pairs[i].0),
{
    let after = pairs.remove(i);
    assert forall|k: K, j: int| #[trigger] entry_at(after, k, j) implies entry_at(
        pairs,
        k,
        if j < i { j } else { j + 1 },
    ) by {}
    assert forall|k: K, j: int, l: int|
        #![trigger entry_at(after, k, j), entry_at(after, k, l)]
        entry_at(after, k, j) && entry_at(after, k, l) implies j == l by {
        assert(entry_at(pairs, k, if j < i { j } else { j + 1 }));
        assert(entry_at(pairs, k, if l < i { l } else { l + 1 }));
    }
    let got = table(after);
    let want = table(pairs).remove(pairs[i].0);
    assert forall|k: K|
        #![trigger got.dom().contains(k)]
        #![trigger want.dom().contains(k)]
        #![trigger got[k]]
        got.dom().contains(k) == want.dom().contains(k) && (got.dom().contains(k) ==> got[k]
            == want[k]) by {
        if table(after).contains_key(k) {
            let j = choose|j: int| entry_at(after, k, j);
            let l = if j < i { j } else { j + 1 };
            assert(entry_at(pairs, k, l));
            assert(entry_at(pairs, pairs[i].0, i));
            lemma_entry(after, j);
            lemma_entry(pairs, l);
        } else if table(pairs).contains_key(k) && k != pairs[i].0 {
            let j = choose|j: int| entry_at(pairs, k, j);
            assert(entry_at(after, k, if j < i { j } else { j - 1 }));
        }
    }
    assert(got =~= want);
}

/// The keys of the pairs are those of the map, each once.
pub proof fn lemma_keys<K, V>(pairs: Seq<(K, V)>, keys: Seq<K>)
    requires
        distinct(pairs),
        keys.len() == pairs.len(),
        forall|i: int| 0 <= i < keys.len() ==> #[trigger] keys[i] == pairs[i].0,
    ensures
        keys.no_duplicates(),
        keys.len() == table(pairs).len(),
        forall|key: K| #[trigger] keys.contains(key) <==> table(pairs).contains_key(key),
{
    assert forall|i: int, j: int|
        0 <= i < keys.len() && 0 <= j < keys.len() && i != j implies keys[i] != keys[j] by {
        assert(entry_at(pairs, keys[i], i));
        assert(entry_at(pairs, keys[j], j));
    }
    assert forall|key: K| #[trigger] keys.contains(key) <==> table(pairs).contains_key(key) by {
        if keys.contains(key) {
            let i = choose|i: int| 0 <= i < keys.len() && keys[i] == key;
            assert(entry_at(pairs, key, i));
        }
        if table(pairs).contains_key(key) {
            let i = choose|i: int| entry_at(pairs, key, i);
            assert(keys[i] == key);
        }
    }
    keys.unique_seq_to_set();
    assert(keys.to_set() =~= table(pairs).dom());
}

} // verus!
