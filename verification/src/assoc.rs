//! A sequence of records with distinct keys read as a finite map from key to
//! value. The contract keeps each kind of storage entry in such a sequence.
use vstd::prelude::*;

verus! {

/// Some record of `s` has key `k`.
pub open spec fn has_key<R, K>(s: Seq<R>, key: spec_fn(R) -> K, k: K) -> bool {
    exists|i: int| 0 <= i < s.len() && #[trigger] key(s[i]) == k
}

/// No two records of `s` share a key.
pub open spec fn keys_distinct<R, K>(s: Seq<R>, key: spec_fn(R) -> K) -> bool {
    forall|i: int, j: int|
        0 <= i < s.len() && 0 <= j < s.len() && #[trigger] key(s[i]) == #[trigger] key(s[j]) ==> i
            == j
}

/// The position of a record with key `k` (meaningful where one exists).
pub open spec fn position_of<R, K>(s: Seq<R>, key: spec_fn(R) -> K, k: K) -> int {
    choose|i: int| 0 <= i < s.len() && #[trigger] key(s[i]) == k
}

/// The map from each key of `s` to the value of its record.
pub open spec fn assoc_map<R, K, V>(s: Seq<R>, key: spec_fn(R) -> K, val: spec_fn(R) -> V) -> Map<
    K,
    V,
> {
    Map::new(|k: K| has_key(s, key, k), |k: K| val(s[position_of(s, key, k)]))
}

pub proof fn lemma_assoc_empty<R, K, V>(s: Seq<R>, key: spec_fn(R) -> K, val: spec_fn(R) -> V)
    requires
        s.len() == 0,
    ensures
        keys_distinct(s, key),
        assoc_map(s, key, val) == Map::<K, V>::empty(),
{
    assert(assoc_map(s, key, val) =~= Map::<K, V>::empty());
}

/// The record at position `j` is the one the map reads for its key.
pub proof fn lemma_assoc_lookup<R, K, V>(
    s: Seq<R>,
    key: spec_fn(R) -> K,
    val: spec_fn(R) -> V,
    j: int,
)
    requires
        keys_distinct(s, key),
        0 <= j < s.len(),
    ensures
        assoc_map(s, key, val).contains_key(key(s[j])),
        assoc_map(s, key, val)[key(s[j])] == val(s[j]),
{
    let k = key(s[j]);
    assert(has_key(s, key, k));
    let i = position_of(s, key, k);
    assert(key(s[i]) == key(s[j]));
}

/// Replacing the record at `j` by one with the same key updates the map at
/// that key.
pub proof fn lemma_assoc_update<R, K, V>(
    s: Seq<R>,
    key: spec_fn(R) -> K,
    val: spec_fn(R) -> V,
    j: int,
    r: R,
)
    requires
        keys_distinct(s, key),
        0 <= j < s.len(),
        key(r) == key(s[j]),
    ensures
        keys_distinct(s.update(j, r), key),
        assoc_map(s.update(j, r), key, val) == assoc_map(s, key, val).insert(key(r), val(r)),
{
    let t = s.update(j, r);
    assert forall|a: int, b: int|
        0 <= a < t.len() && 0 <= b < t.len() && #[trigger] key(t[a]) == #[trigger] key(t[b]) implies a
        == b by {
        let ka = key(s[a]);
        let kb = key(s[b]);
        assert(key(t[a]) == ka);
        assert(key(t[b]) == kb);
    }
    let m1 = assoc_map(t, key, val);
    let m2 = assoc_map(s, key, val).insert(key(r), val(r));
    assert forall|k: K| m1.contains_key(k) <==> m2.contains_key(k) by {
        if has_key(t, key, k) {
            let i = choose|i: int| 0 <= i < t.len() && #[trigger] key(t[i]) == k;
            if i != j {
                assert(key(s[i]) == k);
            }
        }
        if has_key(s, key, k) {
            let i = choose|i: int| 0 <= i < s.len() && #[trigger] key(s[i]) == k;
            assert(key(t[i]) == k);
        }
        if k == key(r) {
            assert(key(t[j]) == k);
        }
    }
    assert forall|k: K| m1.contains_key(k) implies m1[k] == m2[k] by {
        let i = position_of(t, key, k);
        assert(key(t[i]) == k);
        if k == key(r) {
            assert(key(t[j]) == k);
            assert(i == j);
        } else {
            assert(i != j);
            assert(key(s[i]) == k);
            lemma_assoc_lookup(s, key, val, i);
        }
    }
    assert(m1 =~= m2);
}

/// Appending a record with a fresh key adds that key to the map.
pub proof fn lemma_assoc_push<R, K, V>(s: Seq<R>, key: spec_fn(R) -> K, val: spec_fn(R) -> V, r: R)
    requires
        keys_distinct(s, key),
        !has_key(s, key, key(r)),
    ensures
        keys_distinct(s.push(r), key),
        assoc_map(s.push(r), key, val) == assoc_map(s, key, val).insert(key(r), val(r)),
{
    let t = s.push(r);
    let n = s.len() as int;
    assert forall|a: int, b: int|
        0 <= a < t.len() && 0 <= b < t.len() && #[trigger] key(t[a]) == #[trigger] key(t[b]) implies a
        == b by {
        if a < n && b < n {
            assert(key(s[a]) == key(t[a]));
            assert(key(s[b]) == key(t[b]));
        } else if a < n {
            assert(key(s[a]) == key(r));
        } else if b < n {
            assert(key(s[b]) == key(r));
        }
    }
    let m1 = assoc_map(t, key, val);
    let m2 = assoc_map(s, key, val).insert(key(r), val(r));
    assert forall|k: K| m1.contains_key(k) <==> m2.contains_key(k) by {
        if has_key(t, key, k) {
            let i = choose|i: int| 0 <= i < t.len() && #[trigger] key(t[i]) == k;
            if i < n {
                assert(key(s[i]) == k);
            }
        }
        if has_key(s, key, k) {
            let i = choose|i: int| 0 <= i < s.len() && #[trigger] key(s[i]) == k;
            assert(key(t[i]) == k);
        }
        if k == key(r) {
            assert(key(t[n]) == k);
        }
    }
    assert forall|k: K| m1.contains_key(k) implies m1[k] == m2[k] by {
        let i = position_of(t, key, k);
        assert(key(t[i]) == k);
        if k == key(r) {
            assert(key(t[n]) == k);
            assert(i == n);
        } else {
            assert(i != n);
            assert(key(s[i]) == k);
            lemma_assoc_lookup(s, key, val, i);
        }
    }
    assert(m1 =~= m2);
}

} // verus!
