//! Sequences of records with distinct keys, read as maps from key to
//! record. The graph shard keeps its nodes and adjacency lists this way.

use vstd::prelude::*;

verus! {

/// Some record of `s` has key `k`.
pub open spec fn has_key<K, V>(s: Seq<V>, key: spec_fn(V) -> K, k: K) -> bool {
    exists|i: int| #![trigger s[i]] 0 <= i < s.len() && key(s[i]) == k
}

/// No two records of `s` share a key.
pub open spec fn unique_keys<K, V>(s: Seq<V>, key: spec_fn(V) -> K) -> bool {
    forall|i: int, j: int|
        #![trigger s[i], s[j]]
        0 <= i < s.len() && 0 <= j < s.len() && i != j ==> key(s[i]) != key(s[j])
}

/// The position of the record with key `k`.
pub open spec fn key_index<K, V>(s: Seq<V>, key: spec_fn(V) -> K, k: K) -> int {
    choose|i: int| #![trigger s[i]] 0 <= i < s.len() && key(s[i]) == k
}

/// `s` read as a map from key to record.
pub open spec fn keyed_map<K, V>(s: Seq<V>, key: spec_fn(V) -> K) -> Map<K, V> {
    Map::new(|k: K| has_key(s, key, k), |k: K| s[key_index(s, key, k)])
}

/// The record at position `j` is what the map gives for its key.
pub proof fn lemma_keyed_at<K, V>(s: Seq<V>, key: spec_fn(V) -> K, j: int)
    requires
        unique_keys(s, key),
        0 <= j < s.len(),
    ensures
        keyed_map(s, key).contains_key(key(s[j])),
        keyed_map(s, key)[key(s[j])] == s[j],
{
    let k = key(s[j]);
    assert(has_key(s, key, k));
    let i = key_index(s, key, k);
    assert(key(s[i]) == k);
    assert(i == j);
}

/// Appending a record with a fresh key inserts it into the map.
pub proof fn lemma_keyed_push<K, V>(s: Seq<V>, key: spec_fn(V) -> K, v: V)
    requires
        unique_keys(s, key),
        !has_key(s, key, key(v)),
    ensures
        unique_keys(s.push(v), key),
        keyed_map(s.push(v), key) =~= keyed_map(s, key).insert(key(v), v),
{
    let t = s.push(v);
    assert(unique_keys(t, key)) by {
        assert forall|i: int, j: int|
            #![trigger t[i], t[j]]
            0 <= i < t.len() && 0 <= j < t.len() && i != j implies key(t[i]) != key(t[j]) by {
            if i < s.len() && j < s.len() {
                assert(t[i] == s[i] && t[j] == s[j]);
            } else if i < s.len() {
                assert(t[i] == s[i]);
            } else {
                assert(t[j] == s[j]);
            }
        }
    }
    let m = keyed_map(s, key).insert(key(v), v);
    assert forall|k: K| #[trigger] keyed_map(t, key).contains_key(k) <==> m.contains_key(k) by {
        if has_key(s, key, k) {
            let i = choose|i: int| #![trigger s[i]] 0 <= i < s.len() && key(s[i]) == k;
            assert(t[i] == s[i]);
        }
        if has_key(t, key, k) {
            let i = choose|i: int| #![trigger t[i]] 0 <= i < t.len() && key(t[i]) == k;
            if i < s.len() {
                assert(t[i] == s[i]);
            }
        }
        if k == key(v) {
            assert(t[s.len() as int] == v);
        }
    }
    assert forall|k: K| #[trigger] keyed_map(t, key).contains_key(k) implies keyed_map(t, key)[k]
        == m[k] by {
        if k == key(v) {
            assert(t[s.len() as int] == v);
            lemma_keyed_at(t, key, s.len() as int);
        } else {
            let i = choose|i: int| #![trigger t[i]] 0 <= i < t.len() && key(t[i]) == k;
            assert(t[i] == s[i]);
            lemma_keyed_at(t, key, i);
            lemma_keyed_at(s, key, i);
        }
    }
}

/// Replacing the record at `j` by one with the same key updates the map.
pub proof fn lemma_keyed_update<K, V>(s: Seq<V>, key: spec_fn(V) -> K, j: int, v: V)
    requires
        unique_keys(s, key),
        0 <= j < s.len(),
        key(v) == key(s[j]),
    ensures
        unique_keys(s.update(j, v), key),
        keyed_map(s.update(j, v), key) =~= keyed_map(s, key).insert(key(v), v),
{
    let t = s.update(j, v);
    assert(unique_keys(t, key)) by {
        assert forall|a: int, b: int|
            #![trigger t[a], t[b]]
            0 <= a < t.len() && 0 <= b < t.len() && a != b implies key(t[a]) != key(t[b]) by {
            assert(key(t[a]) == key(s[a]));
            assert(key(t[b]) == key(s[b]));
        }
    }
    let m = keyed_map(s, key).insert(key(v), v);
    assert forall|k: K| #[trigger] keyed_map(t, key).contains_key(k) <==> m.contains_key(k) by {
        if has_key(s, key, k) {
            let i = choose|i: int| #![trigger s[i]] 0 <= i < s.len() && key(s[i]) == k;
            assert(key(t[i]) == key(s[i]));
        }
        if has_key(t, key, k) {
            let i = choose|i: int| #![trigger t[i]] 0 <= i < t.len() && key(t[i]) == k;
            assert(key(t[i]) == key(s[i]));
        }
        if k == key(v) {
            assert(t[j] == v);
        }
    }
    assert forall|k: K| #[trigger] keyed_map(t, key).contains_key(k) implies keyed_map(t, key)[k]
        == m[k] by {
        let i = choose|i: int| #![trigger t[i]] 0 <= i < t.len() && key(t[i]) == k;
        lemma_keyed_at(t, key, i);
        if i != j {
            assert(t[i] == s[i]);
            lemma_keyed_at(s, key, i);
        }
    }
}

/// Removing the record at `j` removes its key from the map.
pub proof fn lemma_keyed_remove<K, V>(s: Seq<V>, key: spec_fn(V) -> K, j: int)
    requires
        unique_keys(s, key),
        0 <= j < s.len(),
    ensures
        unique_keys(s.remove(j), key),
        keyed_map(s.remove(j), key) =~= keyed_map(s, key).remove(key(s[j])),
{
    let t = s.remove(j);
    assert forall|i: int| 0 <= i < t.len() implies #[trigger] t[i] == (if i < j {
        s[i]
    } else {
        s[i + 1]
    }) by {}
    assert(unique_keys(t, key)) by {
        assert forall|a: int, b: int|
            #![trigger t[a], t[b]]
            0 <= a < t.len() && 0 <= b < t.len() && a != b implies key(t[a]) != key(t[b]) by {
            let a2 = if a < j {
                a
            } else {
                a + 1
            };
            let b2 = if b < j {
                b
            } else {
                b + 1
            };
            assert(t[a] == s[a2] && t[b] == s[b2]);
        }
    }
    let m = keyed_map(s, key).remove(key(s[j]));
    assert forall|k: K| #[trigger] keyed_map(t, key).contains_key(k) <==> m.contains_key(k) by {
        if has_key(t, key, k) {
            let i = choose|i: int| #![trigger t[i]] 0 <= i < t.len() && key(t[i]) == k;
            let i2 = if i < j {
                i
            } else {
                i + 1
            };
            assert(t[i] == s[i2]);
            assert(has_key(s, key, k));
        }
        if has_key(s, key, k) && k != key(s[j]) {
            let i = choose|i: int| #![trigger s[i]] 0 <= i < s.len() && key(s[i]) == k;
            if i < j {
                assert(t[i] == s[i]);
            } else {
                assert(t[i - 1] == s[i]);
            }
        }
    }
    assert forall|k: K| #[trigger] keyed_map(t, key).contains_key(k) implies keyed_map(t, key)[k]
        == m[k] by {
        let i = choose|i: int| #![trigger t[i]] 0 <= i < t.len() && key(t[i]) == k;
        let i2 = if i < j {
            i
        } else {
            i + 1
        };
        assert(t[i] == s[i2]);
        lemma_keyed_at(t, key, i);
        lemma_keyed_at(s, key, i2);
    }
}

/// With distinct keys, the map has as many keys as the sequence has records.
pub proof fn lemma_keyed_len<K, V>(s: Seq<V>, key: spec_fn(V) -> K)
    requires
        unique_keys(s, key),
    ensures
        keyed_map(s, key).dom().finite(),
        keyed_map(s, key).dom().len() == s.len(),
    decreases s.len(),
{
    if s.len() == 0 {
        assert(keyed_map(s, key).dom() =~= Set::empty());
    } else {
        let p = s.drop_last();
        let v = s.last();
        assert(unique_keys(p, key)) by {
            assert forall|a: int, b: int|
                #![trigger p[a], p[b]]
                0 <= a < p.len() && 0 <= b < p.len() && a != b implies key(p[a]) != key(p[b]) by {
                assert(p[a] == s[a] && p[b] == s[b]);
            }
        }
        assert(!has_key(p, key, key(v))) by {
            if has_key(p, key, key(v)) {
                let i = choose|i: int| #![trigger p[i]] 0 <= i < p.len() && key(p[i]) == key(v);
                assert(p[i] == s[i]);
                assert(s[s.len() - 1] == v);
            }
        }
        lemma_keyed_len(p, key);
        lemma_keyed_push(p, key, v);
        assert(p.push(v) =~= s);
        assert(!keyed_map(p, key).dom().contains(key(v)));
    }
}

/// A map value carries its own key.
pub proof fn lemma_keyed_value_key<K, V>(s: Seq<V>, key: spec_fn(V) -> K, k: K)
    requires
        keyed_map(s, key).contains_key(k),
    ensures
        key(keyed_map(s, key)[k]) == k,
{
}

/// Growing a prefix of `s` by one record inserts that record into the map.
pub proof fn lemma_keyed_prefix_step<K, V>(s: Seq<V>, key: spec_fn(V) -> K, i: int)
    requires
        unique_keys(s, key),
        0 <= i < s.len(),
    ensures
        unique_keys(s.take(i), key),
        unique_keys(s.take(i + 1), key),
        !has_key(s.take(i), key, key(s[i])),
        keyed_map(s.take(i + 1), key) =~= keyed_map(s.take(i), key).insert(key(s[i]), s[i]),
{
    let p = s.take(i);
    assert forall|a: int, b: int|
        #![trigger p[a], p[b]]
        0 <= a < p.len() && 0 <= b < p.len() && a != b implies key(p[a]) != key(p[b]) by {
        assert(p[a] == s[a] && p[b] == s[b]);
    }
    if has_key(p, key, key(s[i])) {
        let j = choose|j: int| #![trigger p[j]] 0 <= j < p.len() && key(p[j]) == key(s[i]);
        assert(p[j] == s[j]);
    }
    assert(s.take(i + 1) =~= p.push(s[i]));
    lemma_keyed_push(p, key, s[i]);
}

} // verus!
