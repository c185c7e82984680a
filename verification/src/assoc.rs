//! Association lists and the maps they represent.
//!
//! A list of pairs with distinct keys stands for a finite map. The tables of
//! this library hold such lists and are specified by the map.

use vstd::prelude::*;

verus! {

pub open spec fn has_key<K, V>(s: Seq<(K, V)>, key: K) -> bool {
    exists|i: int| 0 <= i < s.len() && (#[trigger] s[i]).0 == key
}

/// Every key occurs once.
pub open spec fn distinct<K, V>(s: Seq<(K, V)>) -> bool {
    forall|i: int, j: int|
        0 <= i < s.len() && 0 <= j < s.len() && i != j ==> (#[trigger] s[i]).0 != (#[trigger] s[j]).0
}

/// The map from the keys of the list to their values.
pub open spec fn as_map<K, V>(s: Seq<(K, V)>) -> Map<K, V>
    decreases s.len(),
{
    if s.len() == 0 {
        Map::<K, V>::empty()
    } else {
        as_map(s.drop_last()).insert(s.last().0, s.last().1)
    }
}

proof fn lemma_distinct_prefix<K, V>(s: Seq<(K, V)>)
    requires
        distinct(s),
        s.len() > 0,
    ensures
        distinct(s.drop_last()),
        !has_key(s.drop_last(), s.last().0),
{
    let rest = s.drop_last();
    assert forall|i: int, j: int|
        0 <= i < rest.len() && 0 <= j < rest.len() && i != j implies (#[trigger] rest[i]).0 != (
    #[trigger] rest[j]).0 by {
        assert(s[i].0 != s[j].0);
    }
    assert forall|i: int| 0 <= i < rest.len() implies (#[trigger] rest[i]).0 != s.last().0 by {
        assert(s[i].0 != s[s.len() - 1].0);
    }
}

/// The map holds exactly the keys of the list.
pub proof fn lemma_domain<K, V>(s: Seq<(K, V)>)
    ensures
        forall|key: K| #[trigger] as_map(s).dom().contains(key) <==> has_key(s, key),
    decreases s.len(),
{
    if s.len() > 0 {
        let rest = s.drop_last();
        lemma_domain(rest);
        assert forall|key: K| #[trigger] as_map(s).dom().contains(key) <==> has_key(s, key) by {
            assert(as_map(s).dom().contains(key) <==> as_map(rest).dom().contains(key) || key
                == s.last().0);
            if has_key(rest, key) {
                let i = choose|i: int| 0 <= i < rest.len() && (#[trigger] rest[i]).0 == key;
                assert(s[i].0 == key);
            }
            if has_key(s, key) && s.last().0 != key {
                let i = choose|i: int| 0 <= i < s.len() && (#[trigger] s[i]).0 == key;
                assert(rest[i].0 == key);
            }
            if s.last().0 == key {
                assert(s[s.len() - 1].0 == key);
            }
        }
    }
}

/// Each key of the list maps to the value beside it.
pub proof fn lemma_entry<K, V>(s: Seq<(K, V)>, i: int)
    requires
        distinct(s),
        0 <= i < s.len(),
    ensures
        as_map(s).dom().contains(s[i].0),
        as_map(s)[s[i].0] == s[i].1,
    decreases s.len(),
{
    lemma_distinct_prefix(s);
    if i < s.len() - 1 {
        lemma_entry(s.drop_last(), i);
        assert(s[i].0 != s[s.len() - 1].0);
    }
}

pub proof fn lemma_push<K, V>(s: Seq<(K, V)>, key: K, value: V)
    requires
        distinct(s),
        !has_key(s, key),
    ensures
        distinct(s.push((key, value))),
        as_map(s.push((key, value))) == as_map(s).insert(key, value),
{
    let t = s.push((key, value));
    assert(t.drop_last() =~= s);
    assert forall|i: int, j: int| 0 <= i < t.len() && 0 <= j < t.len() && i != j implies (
    #[trigger] t[i]).0 != (#[trigger] t[j]).0 by {
        if i < s.len() && j < s.len() {
            assert(s[i].0 != s[j].0);
        } else if i < s.len() {
            assert(s[i].0 != key);
        } else {
            assert(s[j].0 != key);
        }
    }
}

pub proof fn lemma_update<K, V>(s: Seq<(K, V)>, i: int, value: V)
    requires
        distinct(s),
        0 <= i < s.len(),
    ensures
        distinct(s.update(i, (s[i].0, value))),
        as_map(s.update(i, (s[i].0, value))) == as_map(s).insert(s[i].0, value),
    decreases s.len(),
{
    let t = s.update(i, (s[i].0, value));
    assert forall|a: int, b: int| 0 <= a < t.len() && 0 <= b < t.len() && a != b implies (
    #[trigger] t[a]).0 != (#[trigger] t[b]).0 by {
        assert(s[a].0 != s[b].0);
    }
    lemma_distinct_prefix(s);
    if i < s.len() - 1 {
        lemma_update(s.drop_last(), i, value);
        assert(t.drop_last() =~= s.drop_last().update(i, (s[i].0, value)));
        assert(s[i].0 != s[s.len() - 1].0);
        assert(as_map(t) =~= as_map(s).insert(s[i].0, value));
    } else {
        assert(t.drop_last() =~= s.drop_last());
        assert(as_map(t) =~= as_map(s).insert(s[i].0, value));
    }
}

pub proof fn lemma_remove<K, V>(s: Seq<(K, V)>, i: int)
    requires
        distinct(s),
        0 <= i < s.len(),
    ensures
        distinct(s.remove(i)),
        as_map(s.remove(i)) == as_map(s).remove(s[i].0),
    decreases s.len(),
{
    let t = s.remove(i);
    assert forall|a: int, b: int| 0 <= a < t.len() && 0 <= b < t.len() && a != b implies (
    #[trigger] t[a]).0 != (#[trigger] t[b]).0 by {
        let p = if a < i { a } else { a + 1 };
        let q = if b < i { b } else { b + 1 };
        assert(s[p].0 != s[q].0);
    }
    lemma_distinct_prefix(s);
    if i < s.len() - 1 {
        lemma_remove(s.drop_last(), i);
        assert(t.drop_last() =~= s.drop_last().remove(i));
        assert(t.last() == s.last());
        assert(s[i].0 != s[s.len() - 1].0);
        assert(as_map(t) =~= as_map(s).remove(s[i].0));
    } else {
        assert(t =~= s.drop_last());
        lemma_domain(s.drop_last());
        assert(as_map(t) =~= as_map(s).remove(s[i].0));
    }
}

/// The map has as many keys as the list has entries.
pub proof fn lemma_len<K, V>(s: Seq<(K, V)>)
    requires
        distinct(s),
    ensures
        as_map(s).dom().finite(),
        as_map(s).dom().len() == s.len(),
    decreases s.len(),
{
    if s.len() > 0 {
        lemma_distinct_prefix(s);
        lemma_len(s.drop_last());
        lemma_domain(s.drop_last());
    }
}

} // verus!
