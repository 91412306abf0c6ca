//! A sequence of key-value entries read as an associative map. The ledger
//! stores its records this way, with creation defined as insert-if-absent,
//! so "at most one record per key" is part of the representation invariant.

use vstd::prelude::*;

verus! {

/// The map that a sequence of entries denotes.
pub open spec fn kv_map<K, V>(s: Seq<(K, V)>) -> Map<K, V>
    decreases s.len(),
{
    if s.len() == 0 {
        Map::empty()
    } else {
        kv_map(s.drop_last()).insert(s.last().0, s.last().1)
    }
}

/// No two entries share a key.
pub open spec fn kv_unique<K, V>(s: Seq<(K, V)>) -> bool {
    forall|i: int, j: int| 0 <= i < j < s.len() ==> s[i].0 != s[j].0
}

/// A prefix of a duplicate-free sequence is duplicate-free.
pub proof fn lemma_kv_unique_drop_last<K, V>(s: Seq<(K, V)>)
    requires
        kv_unique(s),
        s.len() > 0,
    ensures
        kv_unique(s.drop_last()),
{
    assert forall|i: int, j: int|
        0 <= i < j < s.drop_last().len() implies s.drop_last()[i].0 != s.drop_last()[j].0 by {
        assert(s.drop_last()[i] == s[i]);
        assert(s.drop_last()[j] == s[j]);
    }
}

/// The map holds a key exactly when some entry carries it.
pub proof fn lemma_kv_contains<K, V>(s: Seq<(K, V)>, k: K)
    ensures
        kv_map(s).contains_key(k) <==> exists|i: int| 0 <= i < s.len() && s[i].0 == k,
    decreases s.len(),
{
    if s.len() > 0 {
        lemma_kv_contains(s.drop_last(), k);
        if kv_map(s).contains_key(k) {
            if k == s.last().0 {
                assert(s[s.len() - 1].0 == k);
            } else {
                let i = choose|i: int| 0 <= i < s.drop_last().len() && s.drop_last()[i].0 == k;
                assert(s[i].0 == k);
            }
        }
        if exists|i: int| 0 <= i < s.len() && s[i].0 == k {
            let i = choose|i: int| 0 <= i < s.len() && s[i].0 == k;
            if i < s.len() - 1 {
                assert(s.drop_last()[i].0 == k);
            }
        }
    }
}

/// Under unique keys, the map sends each entry's key to that entry's value.
pub proof fn lemma_kv_get<K, V>(s: Seq<(K, V)>, i: int)
    requires
        kv_unique(s),
        0 <= i < s.len(),
    ensures
        kv_map(s).contains_key(s[i].0),
        kv_map(s)[s[i].0] == s[i].1,
    decreases s.len(),
{
    if i == s.len() - 1 {
    } else {
        lemma_kv_unique_drop_last(s);
        lemma_kv_get(s.drop_last(), i);
        assert(s.drop_last()[i] == s[i]);
        assert(s[i].0 != s.last().0);
    }
}

/// Appending an entry inserts its key.
pub proof fn lemma_kv_push<K, V>(s: Seq<(K, V)>, p: (K, V))
    ensures
        kv_map(s.push(p)) == kv_map(s).insert(p.0, p.1),
{
    assert(s.push(p).drop_last() =~= s);
    assert(s.push(p).last() == p);
}

/// Appending an entry under a fresh key keeps the keys unique.
pub proof fn lemma_kv_push_unique<K, V>(s: Seq<(K, V)>, p: (K, V))
    requires
        kv_unique(s),
        !kv_map(s).contains_key(p.0),
    ensures
        kv_unique(s.push(p)),
{
    lemma_kv_contains(s, p.0);
    let s2 = s.push(p);
    assert forall|i: int, j: int| 0 <= i < j < s2.len() implies s2[i].0 != s2[j].0 by {
        if j < s2.len() - 1 {
            assert(s2[i] == s[i]);
            assert(s2[j] == s[j]);
        } else {
            assert(s2[i] == s[i]);
            assert(s2[j] == p);
            assert(!(s[i].0 == p.0));
        }
    }
}

/// Replacing the value at one entry updates the map at that entry's key and
/// keeps the keys unique.
pub proof fn lemma_kv_update<K, V>(s: Seq<(K, V)>, i: int, v: V)
    requires
        kv_unique(s),
        0 <= i < s.len(),
    ensures
        kv_map(s.update(i, (s[i].0, v))) == kv_map(s).insert(s[i].0, v),
        kv_unique(s.update(i, (s[i].0, v))),
    decreases s.len(),
{
    let s2 = s.update(i, (s[i].0, v));
    assert forall|a: int, b: int| 0 <= a < b < s2.len() implies s2[a].0 != s2[b].0 by {
        assert(s2[a].0 == s[a].0);
        assert(s2[b].0 == s[b].0);
    }
    if i == s.len() - 1 {
        assert(s2.drop_last() =~= s.drop_last());
        assert(s2.last() == (s[i].0, v));
        assert(kv_map(s2) =~= kv_map(s).insert(s[i].0, v));
    } else {
        lemma_kv_unique_drop_last(s);
        lemma_kv_update(s.drop_last(), i, v);
        assert(s2.drop_last() =~= s.drop_last().update(i, (s[i].0, v)));
        assert(s2.last() == s.last());
        assert(s.drop_last()[i] == s[i]);
        assert(s[i].0 != s.last().0);
        assert(kv_map(s2) =~= kv_map(s).insert(s[i].0, v));
    }
}

/// Deleting one entry removes the map at that entry's key and keeps the
/// keys unique.
pub proof fn lemma_kv_remove<K, V>(s: Seq<(K, V)>, i: int)
    requires
        kv_unique(s),
        0 <= i < s.len(),
    ensures
        kv_map(s.remove(i)) == kv_map(s).remove(s[i].0),
        kv_unique(s.remove(i)),
    decreases s.len(),
{
    let s2 = s.remove(i);
    assert forall|a: int, b: int| 0 <= a < b < s2.len() implies s2[a].0 != s2[b].0 by {
        if a < i {
            assert(s2[a] == s[a]);
        } else {
            assert(s2[a] == s[a + 1]);
        }
        if b < i {
            assert(s2[b] == s[b]);
        } else {
            assert(s2[b] == s[b + 1]);
        }
    }
    if i == s.len() - 1 {
        lemma_kv_unique_drop_last(s);
        assert(s2 =~= s.drop_last());
        lemma_kv_contains(s.drop_last(), s[i].0);
        assert forall|j: int|
            0 <= j < s.drop_last().len() implies s.drop_last()[j].0 != s[i].0 by {
            assert(s.drop_last()[j] == s[j]);
        }
        assert(!kv_map(s.drop_last()).contains_key(s[i].0));
        assert(kv_map(s2) =~= kv_map(s).remove(s[i].0));
    } else {
        lemma_kv_unique_drop_last(s);
        lemma_kv_remove(s.drop_last(), i);
        assert(s2.drop_last() =~= s.drop_last().remove(i));
        assert(s2.last() == s.last());
        assert(s.drop_last()[i] == s[i]);
        assert(s[i].0 != s.last().0);
        assert(kv_map(s2) =~= kv_map(s).remove(s[i].0));
    }
}

} // verus!
