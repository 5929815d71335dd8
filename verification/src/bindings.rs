//! Association lists with distinct keys, viewed as maps.

use vstd::prelude::*;

verus! {

/// No key occurs twice.
pub open spec fn keys_unique<V>(s: Seq<(Seq<char>, V)>) -> bool {
    forall|i: int, j: int| 0 <= i < s.len() && 0 <= j < s.len() && i != j ==> s[i].0 != s[j].0
}

/// The map that an association list stands for; a later entry wins over an
/// earlier one with the same key.
pub open spec fn pairs_map<V>(s: Seq<(Seq<char>, V)>) -> Map<Seq<char>, V>
    decreases s.len(),
{
    if s.len() == 0 {
        Map::empty()
    } else {
        pairs_map(s.drop_last()).insert(s.last().0, s.last().1)
    }
}

/// A key is in the map exactly where some entry has it.
pub proof fn lemma_pairs_map_domain<V>(s: Seq<(Seq<char>, V)>, k: Seq<char>)
    ensures
        pairs_map(s).contains_key(k) <==> exists|i: int| 0 <= i < s.len() && s[i].0 == k,
    decreases s.len(),
{
    if s.len() > 0 {
        lemma_pairs_map_domain(s.drop_last(), k);
        if pairs_map(s).contains_key(k) && s.last().0 != k {
            let i = choose|i: int| 0 <= i < s.drop_last().len() && s.drop_last()[i].0 == k;
            assert(s[i].0 == k);
        }
        if exists|i: int| 0 <= i < s.len() && s[i].0 == k {
            let i = choose|i: int| 0 <= i < s.len() && s[i].0 == k;
            if i < s.len() - 1 {
                assert(s.drop_last()[i].0 == k);
            }
        }
    }
}

/// With distinct keys, the map gives each entry's value under its key.
pub proof fn lemma_pairs_map_index<V>(s: Seq<(Seq<char>, V)>, i: int)
    requires
        keys_unique(s),
        0 <= i < s.len(),
    ensures
        pairs_map(s).contains_key(s[i].0),
        pairs_map(s)[s[i].0] == s[i].1,
    decreases s.len(),
{
    if i < s.len() - 1 {
        let t = s.drop_last();
        assert(t[i] == s[i]);
        assert(keys_unique(t));
        lemma_pairs_map_index(t, i);
        assert(s.last().0 != s[i].0);
    }
}

/// Replacing the value of an entry keeps the keys distinct and updates the map at its key.
pub proof fn lemma_pairs_map_update<V>(s: Seq<(Seq<char>, V)>, j: int, v: V)
    requires
        keys_unique(s),
        0 <= j < s.len(),
    ensures
        keys_unique(s.update(j, (s[j].0, v))),
        pairs_map(s.update(j, (s[j].0, v))) == pairs_map(s).insert(s[j].0, v),
{
    let t = s.update(j, (s[j].0, v));
    assert(keys_unique(t));
    assert forall|k: Seq<char>| #[trigger] pairs_map(t).contains_key(k) == pairs_map(s).insert(s[j].0, v).contains_key(k) by {
        lemma_pairs_map_domain(t, k);
        lemma_pairs_map_domain(s, k);
        if exists|i: int| 0 <= i < s.len() && s[i].0 == k {
            let i = choose|i: int| 0 <= i < s.len() && s[i].0 == k;
            assert(t[i].0 == k);
        }
        if exists|i: int| 0 <= i < t.len() && t[i].0 == k {
            let i = choose|i: int| 0 <= i < t.len() && t[i].0 == k;
            assert(s[i].0 == k);
        }
    }
    assert forall|k: Seq<char>| pairs_map(t).contains_key(k) implies #[trigger] pairs_map(t)[k] == pairs_map(s).insert(s[j].0, v)[k] by {
        lemma_pairs_map_domain(t, k);
        let i = choose|i: int| 0 <= i < t.len() && t[i].0 == k;
        lemma_pairs_map_index(t, i);
        if i != j {
            lemma_pairs_map_index(s, i);
        }
    }
    assert(pairs_map(t) =~= pairs_map(s).insert(s[j].0, v));
}

/// Appending an entry with a new key keeps the keys distinct and inserts it into the map.
pub proof fn lemma_pairs_map_push<V>(s: Seq<(Seq<char>, V)>, k: Seq<char>, v: V)
    requires
        keys_unique(s),
        !pairs_map(s).contains_key(k),
    ensures
        keys_unique(s.push((k, v))),
        pairs_map(s.push((k, v))) == pairs_map(s).insert(k, v),
{
    lemma_pairs_map_domain(s, k);
    let t = s.push((k, v));
    assert(t.drop_last() =~= s);
    assert forall|i: int, j: int| 0 <= i < t.len() && 0 <= j < t.len() && i != j implies t[i].0 != t[j].0 by {
        if i == s.len() {
            assert(s[j].0 != k);
        } else if j == s.len() {
            assert(s[i].0 != k);
        }
    }
}

/// Removing an entry keeps the keys distinct and removes its key from the map.
pub proof fn lemma_pairs_map_remove<V>(s: Seq<(Seq<char>, V)>, j: int)
    requires
        keys_unique(s),
        0 <= j < s.len(),
    ensures
        keys_unique(s.remove(j)),
        pairs_map(s.remove(j)) == pairs_map(s).remove(s[j].0),
{
    let t = s.remove(j);
    let k = s[j].0;
    assert forall|a: int, b: int| 0 <= a < t.len() && 0 <= b < t.len() && a != b implies t[a].0 != t[b].0 by {
        let a2 = if a < j { a } else { a + 1 };
        let b2 = if b < j { b } else { b + 1 };
        assert(t[a] == s[a2]);
        assert(t[b] == s[b2]);
    }
    assert forall|x: Seq<char>| #[trigger] pairs_map(t).contains_key(x) == pairs_map(s).remove(k).contains_key(x) by {
        lemma_pairs_map_domain(t, x);
        lemma_pairs_map_domain(s, x);
        if exists|i: int| 0 <= i < t.len() && t[i].0 == x {
            let i = choose|i: int| 0 <= i < t.len() && t[i].0 == x;
            let i2 = if i < j { i } else { i + 1 };
            assert(s[i2].0 == x);
            assert(i2 != j);
        }
        if x != k && exists|i: int| 0 <= i < s.len() && s[i].0 == x {
            let i = choose|i: int| 0 <= i < s.len() && s[i].0 == x;
            assert(i != j);
            let i1 = if i < j { i } else { i - 1 };
            assert(t[i1].0 == x);
        }
    }
    assert forall|x: Seq<char>| pairs_map(t).contains_key(x) implies #[trigger] pairs_map(t)[x] == pairs_map(s).remove(k)[x] by {
        lemma_pairs_map_domain(t, x);
        let i = choose|i: int| 0 <= i < t.len() && t[i].0 == x;
        lemma_pairs_map_index(t, i);
        let i2 = if i < j { i } else { i + 1 };
        assert(t[i] == s[i2]);
        lemma_pairs_map_index(s, i2);
    }
    assert(pairs_map(t) =~= pairs_map(s).remove(k));
}

} // verus!
