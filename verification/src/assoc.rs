//! Association lists: sequences of key/value pairs read as finite maps.

use vstd::prelude::*;

verus! {

/// The map that inserting the pairs of `s` in order yields; a later pair for a key
/// replaces an earlier one.
pub open spec fn assoc_map<K, V>(s: Seq<(K, V)>) -> Map<K, V>
    decreases s.len(),
{
    if s.len() == 0 {
        Map::empty()
    } else {
        assoc_map(s.drop_last()).insert(s.last().0, s.last().1)
    }
}

/// No key occurs twice in `s`.
pub open spec fn keys_distinct<K, V>(s: Seq<(K, V)>) -> bool {
    forall|i: int, j: int| 0 <= i < s.len() && 0 <= j < s.len() && i != j ==> s[i].0 != s[j].0
}

/// With distinct keys, the pair at `i` gives the value of its key.
pub proof fn lemma_assoc_lookup<K, V>(s: Seq<(K, V)>, i: int)
    requires
        keys_distinct(s),
        0 <= i < s.len(),
    ensures
        assoc_map(s).contains_key(s[i].0),
        assoc_map(s)[s[i].0] == s[i].1,
    decreases s.len(),
{
    if i < s.len() - 1 {
        lemma_assoc_lookup(s.drop_last(), i);
    }
}

/// The pair at `j` gives the value of its key when no later pair carries that key.
pub proof fn lemma_assoc_last_wins<K, V>(s: Seq<(K, V)>, j: int)
    requires
        0 <= j < s.len(),
        forall|i: int| j < i < s.len() ==> (#[trigger] s[i]).0 != s[j].0,
    ensures
        assoc_map(s).contains_key(s[j].0),
        assoc_map(s)[s[j].0] == s[j].1,
    decreases s.len(),
{
    if j < s.len() - 1 {
        lemma_assoc_last_wins(s.drop_last(), j);
    }
}

/// A key that no pair carries is not in the map.
pub proof fn lemma_assoc_absent<K, V>(s: Seq<(K, V)>, k: K)
    requires
        forall|i: int| 0 <= i < s.len() ==> s[i].0 != k,
    ensures
        !assoc_map(s).contains_key(k),
    decreases s.len(),
{
    if s.len() > 0 {
        lemma_assoc_absent(s.drop_last(), k);
    }
}

/// The keys of the map are exactly the keys of the pairs.
pub proof fn lemma_assoc_dom<K, V>(s: Seq<(K, V)>, k: K)
    ensures
        assoc_map(s).contains_key(k) <==> exists|i: int| 0 <= i < s.len() && #[trigger] s[i].0 == k,
    decreases s.len(),
{
    if s.len() > 0 {
        lemma_assoc_dom(s.drop_last(), k);
        if assoc_map(s.drop_last()).contains_key(k) {
            let i = choose|i: int| 0 <= i < s.drop_last().len() && #[trigger] s.drop_last()[i].0 == k;
            assert(s[i].0 == k);
        }
        if exists|i: int| 0 <= i < s.len() && #[trigger] s[i].0 == k {
            let i = choose|i: int| 0 <= i < s.len() && #[trigger] s[i].0 == k;
            if i < s.len() - 1 {
                assert(s.drop_last()[i].0 == k);
            }
        }
    }
}

/// Replacing the value of the pair at `j` is inserting its key with the new value.
pub proof fn lemma_assoc_update<K, V>(s: Seq<(K, V)>, j: int, v: V)
    requires
        keys_distinct(s),
        0 <= j < s.len(),
    ensures
        keys_distinct(s.update(j, (s[j].0, v))),
        assoc_map(s.update(j, (s[j].0, v))) == assoc_map(s).insert(s[j].0, v),
    decreases s.len(),
{
    let k = s[j].0;
    let t = s.update(j, (k, v));
    if j == s.len() - 1 {
        assert(t.drop_last() =~= s.drop_last());
    } else {
        assert(t.drop_last() =~= s.drop_last().update(j, (k, v)));
        lemma_assoc_update(s.drop_last(), j, v);
        assert(s.last().0 != k);
    }
    assert(assoc_map(t) =~= assoc_map(s).insert(k, v));
}

/// Appending a pair with a new key inserts that key.
pub proof fn lemma_assoc_push<K, V>(s: Seq<(K, V)>, k: K, v: V)
    requires
        keys_distinct(s),
        forall|i: int| 0 <= i < s.len() ==> s[i].0 != k,
    ensures
        keys_distinct(s.push((k, v))),
        assoc_map(s.push((k, v))) == assoc_map(s).insert(k, v),
{
    assert(s.push((k, v)).drop_last() =~= s);
}

/// Inserting a pair with a new key at position `p` inserts that key.
pub proof fn lemma_assoc_insert_at<K, V>(s: Seq<(K, V)>, p: int, k: K, v: V)
    requires
        keys_distinct(s),
        0 <= p <= s.len(),
        forall|i: int| 0 <= i < s.len() ==> s[i].0 != k,
    ensures
        keys_distinct(s.insert(p, (k, v))),
        assoc_map(s.insert(p, (k, v))) == assoc_map(s).insert(k, v),
    decreases s.len(),
{
    let t = s.insert(p, (k, v));
    if p == s.len() {
        assert(t =~= s.push((k, v)));
        lemma_assoc_push(s, k, v);
    } else {
        assert(t.drop_last() =~= s.drop_last().insert(p, (k, v)));
        lemma_assoc_insert_at(s.drop_last(), p, k, v);
        assert(t.last() == s.last());
        assert(assoc_map(t) =~= assoc_map(s).insert(k, v));
    }
}

/// Removing the pair at `j` removes its key.
pub proof fn lemma_assoc_remove<K, V>(s: Seq<(K, V)>, j: int)
    requires
        keys_distinct(s),
        0 <= j < s.len(),
    ensures
        keys_distinct(s.remove(j)),
        assoc_map(s.remove(j)) == assoc_map(s).remove(s[j].0),
    decreases s.len(),
{
    let k = s[j].0;
    let t = s.remove(j);
    if j == s.len() - 1 {
        assert(t =~= s.drop_last());
        lemma_assoc_absent(s.drop_last(), k);
        assert(assoc_map(t) =~= assoc_map(s).remove(k));
    } else {
        assert(t.drop_last() =~= s.drop_last().remove(j));
        lemma_assoc_remove(s.drop_last(), j);
        assert(t.last() == s.last());
        assert(s.last().0 != k);
        assert(assoc_map(t) =~= assoc_map(s).remove(k));
    }
}

} // verus!
