//! First-match association lookup over sequences of key/value pairs.
//!
//! The database, the catalog indices and the validator configuration maps are
//! all stored as vectors of pairs; this module gives them one shared spec-level
//! lookup function and the lemmas that connect it to index-based scans.

use vstd::prelude::*;

verus! {

/// The value of the first pair whose key equals `key`, if any.
pub open spec fn assoc_get<K, V>(s: Seq<(K, V)>, key: K) -> Option<V>
    decreases s.len(),
{
    if s.len() == 0 {
        None
    } else if s[0].0 == key {
        Some(s[0].1)
    } else {
        assoc_get(s.drop_first(), key)
    }
}

/// A first match at index `i` settles the lookup.
pub proof fn lemma_assoc_get_at<K, V>(s: Seq<(K, V)>, key: K, i: int)
    requires
        0 <= i < s.len(),
        s[i].0 == key,
        forall|j: int| 0 <= j < i ==> s[j].0 != key,
    ensures
        assoc_get(s, key) == Some(s[i].1),
    decreases i,
{
    if i == 0 {
    } else {
        lemma_assoc_get_at(s.drop_first(), key, i - 1);
    }
}

/// No pair carries the key: the lookup misses.
pub proof fn lemma_assoc_get_none<K, V>(s: Seq<(K, V)>, key: K)
    requires
        forall|j: int| 0 <= j < s.len() ==> s[j].0 != key,
    ensures
        assoc_get(s, key) is None,
    decreases s.len(),
{
    if s.len() > 0 {
        lemma_assoc_get_none(s.drop_first(), key);
    }
}

/// Appends `item` to the entry for `key`, creating the entry at the end if
/// no pair carries the key yet. This is how the builder's indices grow.
pub open spec fn add_entry<K, V>(idx: Seq<(K, Seq<V>)>, key: K, item: V) -> Seq<(K, Seq<V>)>
    decreases idx.len(),
{
    if idx.len() == 0 {
        seq![(key, seq![item])]
    } else if idx[0].0 == key {
        seq![(idx[0].0, idx[0].1.push(item))] + idx.skip(1)
    } else {
        seq![idx[0]] + add_entry(idx.skip(1), key, item)
    }
}

/// With the key present first at position `k`, adding an item updates that
/// entry in place.
pub proof fn lemma_add_entry_found<K, V>(idx: Seq<(K, Seq<V>)>, key: K, item: V, k: int)
    requires
        0 <= k < idx.len(),
        idx[k].0 == key,
        forall|j: int| 0 <= j < k ==> idx[j].0 != key,
    ensures
        add_entry(idx, key, item) == idx.update(k, (idx[k].0, idx[k].1.push(item))),
    decreases k,
{
    if k == 0 {
        assert(add_entry(idx, key, item) =~= idx.update(0, (idx[0].0, idx[0].1.push(item))));
    } else {
        let t = idx.skip(1);
        assert forall|j: int| 0 <= j < k - 1 implies t[j].0 != key by {
            assert(t[j] == idx[j + 1]);
        }
        assert(t[k - 1] == idx[k]);
        lemma_add_entry_found(t, key, item, k - 1);
        assert(add_entry(idx, key, item) =~= idx.update(k, (idx[k].0, idx[k].1.push(item))));
    }
}

/// With the key absent, adding an item appends a fresh entry.
pub proof fn lemma_add_entry_missing<K, V>(idx: Seq<(K, Seq<V>)>, key: K, item: V)
    requires
        forall|j: int| 0 <= j < idx.len() ==> idx[j].0 != key,
    ensures
        add_entry(idx, key, item) == idx.push((key, seq![item])),
    decreases idx.len(),
{
    if idx.len() == 0 {
        assert(add_entry(idx, key, item) =~= idx.push((key, seq![item])));
    } else {
        let t = idx.skip(1);
        assert forall|j: int| 0 <= j < t.len() implies t[j].0 != key by {
            assert(t[j] == idx[j + 1]);
        }
        lemma_add_entry_missing(t, key, item);
        assert(add_entry(idx, key, item) =~= idx.push((key, seq![item])));
    }
}

/// Appending a pair changes a lookup only for a key that was absent.
pub proof fn lemma_assoc_get_push<K, V>(s: Seq<(K, V)>, e: (K, V), key: K)
    ensures
        assoc_get(s, key) is Some ==> assoc_get(s.push(e), key) == assoc_get(s, key),
        assoc_get(s, key) is None && e.0 == key ==> assoc_get(s.push(e), key) == Some(e.1),
        assoc_get(s, key) is None && e.0 != key ==> assoc_get(s.push(e), key) is None,
    decreases s.len(),
{
    reveal_with_fuel(assoc_get, 3);
    if s.len() == 0 {
        assert(s.push(e)[0] == e);
        if e.0 != key {
            assert(s.push(e).drop_first() =~= Seq::<(K, V)>::empty());
        }
    } else {
        assert(s.push(e)[0] == s[0]);
        if s[0].0 != key {
            assert(s.push(e).drop_first() =~= s.drop_first().push(e));
            lemma_assoc_get_push(s.drop_first(), e, key);
        }
    }
}

/// How `add_entry` changes lookups: the touched key gains the item, every
/// other key is untouched.
pub proof fn lemma_add_entry_get<K, V>(idx: Seq<(K, Seq<V>)>, key: K, item: V, key2: K)
    ensures
        key2 == key && assoc_get(idx, key) is Some ==> assoc_get(add_entry(idx, key, item), key2)
            == Some(assoc_get(idx, key)->0.push(item)),
        key2 == key && assoc_get(idx, key) is None ==> assoc_get(add_entry(idx, key, item), key2)
            == Some(seq![item]),
        key2 != key && assoc_get(idx, key2) is Some ==> assoc_get(add_entry(idx, key, item), key2)
            == assoc_get(idx, key2),
        key2 != key && assoc_get(idx, key2) is None ==> assoc_get(add_entry(idx, key, item), key2)
            is None,
    decreases idx.len(),
{
    reveal_with_fuel(assoc_get, 3);
    if idx.len() == 0 {
        assert(add_entry(idx, key, item) == seq![(key, seq![item])]);
        if key2 != key {
            assert(add_entry(idx, key, item).drop_first() =~= Seq::<(K, Seq<V>)>::empty());
        }
    } else if idx[0].0 == key {
        let upd = seq![(idx[0].0, idx[0].1.push(item))] + idx.skip(1);
        assert(add_entry(idx, key, item) == upd);
        assert(upd[0] == (idx[0].0, idx[0].1.push(item)));
        if key2 != key {
            assert(upd.drop_first() =~= idx.drop_first());
        }
    } else {
        let upd = seq![idx[0]] + add_entry(idx.skip(1), key, item);
        assert(add_entry(idx, key, item) == upd);
        assert(upd[0] == idx[0]);
        assert(idx.skip(1) =~= idx.drop_first());
        lemma_add_entry_get(idx.drop_first(), key, item, key2);
        if upd[0].0 != key2 {
            assert(upd.drop_first() =~= add_entry(idx.drop_first(), key, item));
        }
    }
}

/// A hit names some index; useful to turn a successful lookup back into a
/// witness position.
pub proof fn lemma_assoc_get_some_index<K, V>(s: Seq<(K, V)>, key: K) -> (i: int)
    requires
        assoc_get(s, key) is Some,
    ensures
        0 <= i < s.len(),
        s[i].0 == key,
        assoc_get(s, key) == Some(s[i].1),
    decreases s.len(),
{
    if s.len() == 0 {
        0
    } else if s[0].0 == key {
        0
    } else {
        let j = lemma_assoc_get_some_index(s.drop_first(), key);
        j + 1
    }
}

} // verus!
