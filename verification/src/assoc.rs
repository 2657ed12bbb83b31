//! Keyed lists as maps: a list of entries read as the map in which a later
//! entry replaces an earlier one with the same key.

use vstd::prelude::*;

verus! {

/// The map that a list of entries stands for: every key of the list, each
/// with the value of its last entry.
pub open spec fn assoc_map<K, V>(entries: Seq<(K, V)>) -> Map<K, V>
    decreases entries.len(),
{
    if entries.len() == 0 {
        Map::empty()
    } else {
        assoc_map(entries.drop_last()).insert(entries.last().0, entries.last().1)
    }
}

/// Whether some entry of the list stands under `key`.
pub open spec fn has_key<K, V>(entries: Seq<(K, V)>, key: K) -> bool {
    exists|i: int| 0 <= i < entries.len() && (#[trigger] entries[i]).0 == key
}

/// Whether entry `i` is the last entry of the list under `key`.
pub open spec fn last_match<K, V>(entries: Seq<(K, V)>, key: K, i: int) -> bool {
    &&& 0 <= i < entries.len()
    &&& entries[i].0 == key
    &&& forall|j: int| i < j < entries.len() ==> (#[trigger] entries[j]).0 != key
}

/// Whether no key occurs twice in the list.
pub open spec fn distinct_keys<K, V>(entries: Seq<(K, V)>) -> bool {
    forall|i: int, j: int|
        0 <= i < j < entries.len() ==> (#[trigger] entries[i]).0 != (#[trigger] entries[j]).0
}

/// The values of all entries under `key`, in the order of the list.
pub open spec fn values_under<K, V>(entries: Seq<(K, V)>, key: K) -> Seq<V>
    decreases entries.len(),
{
    if entries.len() == 0 {
        Seq::empty()
    } else {
        let front = values_under(entries.drop_last(), key);
        if entries.last().0 == key {
            front.push(entries.last().1)
        } else {
            front
        }
    }
}

/// The values under a key in two lists, one after the other, are those in
/// the first followed by those in the second.
pub proof fn lemma_values_concat<K, V>(a: Seq<(K, V)>, b: Seq<(K, V)>, key: K)
    ensures
        values_under(a + b, key) == values_under(a, key) + values_under(b, key),
    decreases b.len(),
{
    if b.len() == 0 {
        assert(a + b == a);
        assert(values_under(a, key) + Seq::<V>::empty() == values_under(a, key));
    } else {
        assert((a + b).drop_last() == a + b.drop_last());
        lemma_values_concat(a, b.drop_last(), key);
        let front = values_under(b.drop_last(), key);
        assert(values_under(a, key) + front.push(b.last().1) == (values_under(a, key)
            + front).push(b.last().1));
    }
}

/// A key that no entry has stands over no value.
pub proof fn lemma_values_absent<K, V>(entries: Seq<(K, V)>, key: K)
    requires
        !has_key(entries, key),
    ensures
        values_under(entries, key).len() == 0,
    decreases entries.len(),
{
    if entries.len() > 0 {
        let n = entries.len() - 1;
        assert(entries[n].0 != key);
        assert forall|i: int| 0 <= i < n implies (#[trigger] entries.drop_last()[i]).0 != key by {
            assert(entries[i].0 != key);
        }
        lemma_values_absent(entries.drop_last(), key);
    }
}

/// In a list without repeated keys, a key stands over at most one value.
pub proof fn lemma_values_distinct<K, V>(entries: Seq<(K, V)>, key: K)
    requires
        distinct_keys(entries),
    ensures
        values_under(entries, key).len() <= 1,
    decreases entries.len(),
{
    if entries.len() > 0 {
        let n = entries.len() - 1;
        let front = entries.drop_last();
        assert forall|i: int, j: int| 0 <= i < j < front.len() implies (#[trigger] front[i]).0 != (
        #[trigger] front[j]).0 by {
            assert(entries[i].0 != entries[j].0);
        }
        if entries.last().0 == key {
            assert forall|i: int| 0 <= i < n implies (#[trigger] front[i]).0 != key by {
                assert(entries[i].0 != entries[n].0);
            }
            lemma_values_absent(front, key);
        } else {
            lemma_values_distinct(front, key);
        }
    }
}

/// A key is in the map exactly when some entry has it, and its value is
/// that of the last such entry.
pub proof fn lemma_assoc_lookup<K, V>(entries: Seq<(K, V)>, key: K)
    ensures
        assoc_map(entries).contains_key(key) <==> has_key(entries, key),
        forall|i: int|
            last_match(entries, key, i) ==> assoc_map(entries)[key] == (#[trigger] entries[i]).1,
    decreases entries.len(),
{
    if entries.len() > 0 {
        let front = entries.drop_last();
        let n = entries.len() - 1;
        lemma_assoc_lookup(front, key);
        if entries.last().0 == key {
            assert(entries[n].0 == key);
            assert forall|i: int| last_match(entries, key, i) implies assoc_map(entries)[key]
                == (#[trigger] entries[i]).1 by {
                assert(i == n);
            }
        } else {
            if has_key(front, key) {
                let i = choose|i: int| 0 <= i < front.len() && (#[trigger] front[i]).0 == key;
                assert(entries[i].0 == key);
            }
            if has_key(entries, key) {
                let i = choose|i: int| 0 <= i < entries.len() && (#[trigger] entries[i]).0 == key;
                assert(front[i].0 == key);
            }
            assert forall|i: int| last_match(entries, key, i) implies assoc_map(entries)[key]
                == (#[trigger] entries[i]).1 by {
                assert(i < n);
                assert(front[i] == entries[i]);
                assert forall|j: int| i < j < front.len() implies (#[trigger] front[j]).0
                    != key by {
                    assert(entries[j].0 != key);
                }
                assert(last_match(front, key, i));
            }
        }
    }
}

/// Adding an entry at the end inserts it into the map.
pub proof fn lemma_assoc_push<K, V>(entries: Seq<(K, V)>, key: K, value: V)
    ensures
        assoc_map(entries.push((key, value))) == assoc_map(entries).insert(key, value),
{
    assert(entries.push((key, value)).drop_last() == entries);
}

/// In a list without repeated keys, giving the entry at `at` a new value
/// under its old key inserts that value into the map.
pub proof fn lemma_assoc_replace<K, V>(entries: Seq<(K, V)>, at: int, value: V)
    requires
        distinct_keys(entries),
        0 <= at < entries.len(),
    ensures
        assoc_map(entries.update(at, (entries[at].0, value))) == assoc_map(entries).insert(
            entries[at].0,
            value,
        ),
        distinct_keys(entries.update(at, (entries[at].0, value))),
{
    let key = entries[at].0;
    let after = entries.update(at, (key, value));
    let want = assoc_map(entries).insert(key, value);
    assert forall|i: int, j: int| 0 <= i < j < after.len() implies (#[trigger] after[i]).0 != (
    #[trigger] after[j]).0 by {
        assert(after[i].0 == entries[i].0);
        assert(after[j].0 == entries[j].0);
    }
    assert forall|k: K|
        #![trigger assoc_map(after).dom().contains(k)]
        #![trigger want.dom().contains(k)]
        assoc_map(after).dom().contains(k) == want.dom().contains(k) && (want.dom().contains(k)
            ==> assoc_map(after)[k] == want[k]) by {
        lemma_assoc_lookup(after, k);
        lemma_assoc_lookup(entries, k);
        if assoc_map(after).contains_key(k) {
            let i = choose|i: int| 0 <= i < after.len() && (#[trigger] after[i]).0 == k;
            assert(entries[i].0 == k);
        }
        if assoc_map(entries).contains_key(k) {
            let i = choose|i: int| 0 <= i < entries.len() && (#[trigger] entries[i]).0 == k;
            assert(after[i].0 == k);
            assert(last_match(after, k, i));
            assert(last_match(entries, k, i));
        }
        if k == key {
            assert(after[at].0 == k);
            assert(last_match(after, k, at));
        }
    }
    assert(assoc_map(after) =~= want);
}

/// The map of two lists one after the other is the map of the first,
/// overridden by the map of the second.
pub proof fn lemma_assoc_concat<K, V>(a: Seq<(K, V)>, b: Seq<(K, V)>)
    ensures
        assoc_map(a + b) == assoc_map(a).union_prefer_right(assoc_map(b)),
    decreases b.len(),
{
    if b.len() == 0 {
        assert(a + b == a);
        assert(assoc_map(a) =~= assoc_map(a).union_prefer_right(assoc_map(b)));
    } else {
        assert((a + b).drop_last() == a + b.drop_last());
        lemma_assoc_concat(a, b.drop_last());
        assert(assoc_map(a + b) =~= assoc_map(a).union_prefer_right(assoc_map(b)));
    }
}

/// Reading a list twice over gives the same map as reading it once.
pub proof fn lemma_assoc_twice<K, V>(entries: Seq<(K, V)>)
    ensures
        assoc_map(entries + entries) == assoc_map(entries),
{
    lemma_assoc_concat(entries, entries);
    assert(assoc_map(entries).union_prefer_right(assoc_map(entries)) =~= assoc_map(entries));
}

} // verus!
