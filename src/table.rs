//! Association lists keyed by strings: the map they denote, and the facts
//! about it that the store and the dispatcher rely on.
use vstd::prelude::*;

verus! {

/// The map that a list of (key, value) pairs denotes: each pair overrides
/// whatever an earlier pair with the same key said.
pub open spec fn pairs_to_map<W>(s: Seq<(Seq<char>, W)>) -> Map<Seq<char>, W>
    decreases s.len(),
{
    if s.len() == 0 {
        Map::empty()
    } else {
        pairs_to_map(s.drop_last()).insert(s.last().0, s.last().1)
    }
}

/// No key occurs twice in the list.
pub open spec fn keys_unique<W>(s: Seq<(Seq<char>, W)>) -> bool {
    forall|i: int, j: int| 0 <= i < j < s.len() ==> s[i].0 != s[j].0
}

/// Some pair of the list has key `k`.
pub open spec fn has_key<W>(s: Seq<(Seq<char>, W)>, k: Seq<char>) -> bool {
    exists|i: int| 0 <= i < s.len() && s[i].0 == k
}

/// A key is in the denoted map exactly when some pair carries it.
pub proof fn lemma_pairs_to_map_dom<W>(s: Seq<(Seq<char>, W)>, k: Seq<char>)
    ensures
        pairs_to_map(s).contains_key(k) <==> has_key(s, k),
    decreases s.len(),
{
    if s.len() > 0 {
        let init = s.drop_last();
        lemma_pairs_to_map_dom(init, k);
        if pairs_to_map(s).contains_key(k) {
            if k == s.last().0 {
                assert(s[s.len() - 1].0 == k);
            } else {
                let i = choose|i: int| 0 <= i < init.len() && init[i].0 == k;
                assert(s[i].0 == k);
            }
        }
        if has_key(s, k) {
            let i = choose|i: int| 0 <= i < s.len() && s[i].0 == k;
            if i < s.len() - 1 {
                assert(init[i].0 == k);
            }
        }
    }
}

/// With unique keys, the map gives each key the value of its pair.
pub proof fn lemma_pairs_to_map_index<W>(s: Seq<(Seq<char>, W)>, i: int)
    requires
        keys_unique(s),
        0 <= i < s.len(),
    ensures
        pairs_to_map(s).contains_key(s[i].0),
        pairs_to_map(s)[s[i].0] == s[i].1,
    decreases s.len(),
{
    if i < s.len() - 1 {
        let init = s.drop_last();
        assert(keys_unique(init));
        assert(init[i] == s[i]);
        lemma_pairs_to_map_index(init, i);
        assert(s[i].0 != s[s.len() - 1].0);
    }
}

/// Appending a pair with a new key keeps keys unique and adds that key.
pub proof fn lemma_push_new_key<W>(s: Seq<(Seq<char>, W)>, k: Seq<char>, v: W)
    requires
        keys_unique(s),
        !has_key(s, k),
    ensures
        keys_unique(s.push((k, v))),
        pairs_to_map(s.push((k, v))) == pairs_to_map(s).insert(k, v),
{
    let t = s.push((k, v));
    assert(t.drop_last() =~= s);
    assert forall|i: int, j: int| 0 <= i < j < t.len() implies t[i].0 != t[j].0 by {
        if j == s.len() {
            assert(s[i].0 != k);
        }
    }
}

/// Replacing the value of one pair replaces the value of its key.
pub proof fn lemma_set_value<W>(s: Seq<(Seq<char>, W)>, i: int, v: W)
    requires
        keys_unique(s),
        0 <= i < s.len(),
    ensures
        keys_unique(s.update(i, (s[i].0, v))),
        pairs_to_map(s.update(i, (s[i].0, v))) == pairs_to_map(s).insert(s[i].0, v),
{
    let k = s[i].0;
    let t = s.update(i, (k, v));
    assert forall|a: int, b: int| 0 <= a < b < t.len() implies t[a].0 != t[b].0 by {
        assert(t[a].0 == s[a].0 && t[b].0 == s[b].0);
    }
    let m = pairs_to_map(s).insert(k, v);
    assert forall|q: Seq<char>| #[trigger] pairs_to_map(t).contains_key(q) <==> m.contains_key(q) by {
        lemma_pairs_to_map_dom(s, q);
        lemma_pairs_to_map_dom(t, q);
        if has_key(s, q) {
            let j = choose|j: int| 0 <= j < s.len() && s[j].0 == q;
            assert(t[j].0 == q);
        }
        if has_key(t, q) {
            let j = choose|j: int| 0 <= j < t.len() && t[j].0 == q;
            assert(s[j].0 == q);
        }
    }
    assert forall|q: Seq<char>| #[trigger] pairs_to_map(t).contains_key(q) implies pairs_to_map(
        t,
    )[q] == m[q] by {
        lemma_pairs_to_map_dom(t, q);
        let j = choose|j: int| 0 <= j < t.len() && t[j].0 == q;
        lemma_pairs_to_map_index(t, j);
        if j != i {
            assert(s[j] == t[j]);
            lemma_pairs_to_map_index(s, j);
        }
    }
    assert(pairs_to_map(t) =~= m);
}

/// Removing one pair removes its key.
pub proof fn lemma_remove_at<W>(s: Seq<(Seq<char>, W)>, i: int)
    requires
        keys_unique(s),
        0 <= i < s.len(),
    ensures
        keys_unique(s.remove(i)),
        pairs_to_map(s.remove(i)) == pairs_to_map(s).remove(s[i].0),
{
    let k = s[i].0;
    let t = s.remove(i);
    assert forall|j: int| 0 <= j < t.len() implies #[trigger] t[j] == s[if j < i {
        j
    } else {
        j + 1
    }] by {}
    assert forall|a: int, b: int| 0 <= a < b < t.len() implies t[a].0 != t[b].0 by {
        let a2 = if a < i { a } else { a + 1 };
        let b2 = if b < i { b } else { b + 1 };
        assert(t[a] == s[a2] && t[b] == s[b2]);
    }
    let m = pairs_to_map(s).remove(k);
    assert forall|q: Seq<char>| #[trigger] pairs_to_map(t).contains_key(q) <==> m.contains_key(q) by {
        lemma_pairs_to_map_dom(s, q);
        lemma_pairs_to_map_dom(t, q);
        if has_key(s, q) && q != k {
            let j = choose|j: int| 0 <= j < s.len() && s[j].0 == q;
            let j2 = if j < i { j } else { j - 1 };
            assert(t[j2] == s[j]);
        }
        if has_key(t, q) {
            let j = choose|j: int| 0 <= j < t.len() && t[j].0 == q;
            let j2 = if j < i { j } else { j + 1 };
            assert(s[j2].0 == q);
            assert(j2 != i);
        }
    }
    assert forall|q: Seq<char>| #[trigger] pairs_to_map(t).contains_key(q) implies pairs_to_map(
        t,
    )[q] == m[q] by {
        lemma_pairs_to_map_dom(t, q);
        let j = choose|j: int| 0 <= j < t.len() && t[j].0 == q;
        let j2 = if j < i { j } else { j + 1 };
        assert(s[j2] == t[j]);
        lemma_pairs_to_map_index(t, j);
        lemma_pairs_to_map_index(s, j2);
    }
    assert(pairs_to_map(t) =~= m);
}

/// The view of a list of string-keyed pairs.
pub open spec fn entry_views<V: View>(s: Seq<(String, V)>) -> Seq<(Seq<char>, V::V)> {
    s.map_values(|p: (String, V)| (p.0@, p.1@))
}

/// Sets `key` to `value` in a list of pairs with unique keys, appending the
/// pair when the key is new.
pub fn upsert<V: View>(entries: &mut Vec<(String, V)>, key: String, value: V)
    requires
        keys_unique(entry_views(old(entries)@)),
    ensures
        keys_unique(entry_views(final(entries)@)),
        pairs_to_map(entry_views(final(entries)@)) == pairs_to_map(
            entry_views(old(entries)@),
        ).insert(key@, value@),
{
    let ghost s = entry_views(entries@);
    let ghost kv = key@;
    let ghost vv = value@;
    match find_key(entries, &key) {
        Some(i) => {
            let k = entries[i].0.clone();
            entries.set(i, (k, value));
            proof {
                assert(entry_views(entries@) =~= s.update(i as int, (s[i as int].0, vv)));
                lemma_set_value(s, i as int, vv);
            }
        },
        None => {
            entries.push((key, value));
            proof {
                assert(entry_views(entries@) =~= s.push((kv, vv)));
                assert(!has_key(s, kv)) by {
                    if has_key(s, kv) {
                        let j = choose|j: int| 0 <= j < s.len() && s[j].0 == kv;
                        assert(old(entries)@[j].0@ == kv);
                    }
                }
                lemma_push_new_key(s, kv, vv);
            }
        },
    }
}

/// The position of `key` in a list of string-keyed pairs, if it is there.
pub fn find_key<V>(entries: &Vec<(String, V)>, key: &String) -> (r: Option<usize>)
    ensures
        match r {
            Some(i) => i < entries@.len() && entries@[i as int].0@ == key@,
            None => forall|i: int| 0 <= i < entries@.len() ==> entries@[i].0@ != key@,
        },
{
    let mut i: usize = 0;
    while i < entries.len()
        invariant
            i <= entries@.len(),
            forall|j: int| 0 <= j < i ==> entries@[j].0@ != key@,
        decreases entries@.len() - i,
    {
        if entries[i].0 == *key {
            return Some(i);
        }
        i = i + 1;
    }
    None
}

} // verus!
