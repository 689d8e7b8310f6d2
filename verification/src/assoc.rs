//! Association lists: sequences of (key, value) entries with unique keys,
//! the model of the small keyed tables kept by the browser modules.
use vstd::prelude::*;

verus! {

/// Keys are pairwise different.
pub open spec fn keys_unique<V>(s: Seq<(Seq<char>, V)>) -> bool {
    forall|i: int, j: int| 0 <= i < s.len() && 0 <= j < s.len() && i != j ==> s[i].0 != s[j].0
}

/// Whether a key is present.
pub open spec fn present<V>(s: Seq<(Seq<char>, V)>, k: Seq<char>) -> bool {
    exists|i: int| 0 <= i < s.len() && (#[trigger] s[i]).0 == k
}

/// The value of the first entry with a key.
pub open spec fn lookup<V>(s: Seq<(Seq<char>, V)>, k: Seq<char>) -> Option<V>
    decreases s.len(),
{
    if s.len() == 0 {
        None
    } else if s[0].0 == k {
        Some(s[0].1)
    } else {
        lookup(s.drop_first(), k)
    }
}

/// The keys, in order.
pub open spec fn keys<V>(s: Seq<(Seq<char>, V)>) -> Seq<Seq<char>> {
    s.map_values(|e: (Seq<char>, V)| e.0)
}

/// With unique keys, the value of a key is that of its entry.
pub proof fn lemma_lookup_at<V>(s: Seq<(Seq<char>, V)>, k: Seq<char>, i: int)
    requires
        keys_unique(s),
        0 <= i < s.len(),
        s[i].0 == k,
    ensures
        lookup(s, k) == Some(s[i].1),
    decreases s.len(),
{
    if i > 0 {
        let d = s.drop_first();
        assert(s[0].0 != s[i].0);
        assert forall|a: int, b: int| 0 <= a < d.len() && 0 <= b < d.len() && a != b implies d[a].0 != d[b].0 by {
            assert(s[a + 1].0 != s[b + 1].0);
        }
        lemma_lookup_at(d, k, i - 1);
    }
}

/// An absent key has no value.
pub proof fn lemma_lookup_none<V>(s: Seq<(Seq<char>, V)>, k: Seq<char>)
    requires
        !present(s, k),
    ensures
        lookup(s, k) is None,
    decreases s.len(),
{
    if s.len() > 0 {
        let d = s.drop_first();
        assert(s[0].0 != k);
        assert(!present(d, k)) by {
            if present(d, k) {
                let j = choose|j: int| 0 <= j < d.len() && (#[trigger] d[j]).0 == k;
                assert(s[j + 1].0 == k);
            }
        }
        lemma_lookup_none(d, k);
    }
}

/// Replacing the value of entry `i` (same key) changes only that key.
pub proof fn lemma_update_value<V>(s: Seq<(Seq<char>, V)>, i: int, v: V)
    requires
        keys_unique(s),
        0 <= i < s.len(),
    ensures
        keys_unique(s.update(i, (s[i].0, v))),
        lookup(s.update(i, (s[i].0, v)), s[i].0) == Some(v),
        forall|k: Seq<char>| k != s[i].0 ==> lookup(#[trigger] s.update(i, (s[i].0, v)), k) == lookup(s, k),
        forall|k: Seq<char>| present(s.update(i, (s[i].0, v)), k) == present(s, k),
        keys(s.update(i, (s[i].0, v))) == keys(s),
{
    let t = s.update(i, (s[i].0, v));
    assert forall|a: int, b: int| 0 <= a < t.len() && 0 <= b < t.len() && a != b implies t[a].0 != t[b].0 by {
        assert(s[a].0 != s[b].0);
    }
    lemma_lookup_at(t, s[i].0, i);
    assert forall|k: Seq<char>| k != s[i].0 implies lookup(#[trigger] s.update(i, (s[i].0, v)), k) == lookup(s, k) by {
        if present(s, k) {
            let j = choose|j: int| 0 <= j < s.len() && (#[trigger] s[j]).0 == k;
            lemma_lookup_at(s, k, j);
            assert(t[j].0 == k);
            lemma_lookup_at(t, k, j);
        } else {
            lemma_lookup_none(s, k);
            assert(!present(t, k)) by {
                if present(t, k) {
                    let j = choose|j: int| 0 <= j < t.len() && (#[trigger] t[j]).0 == k;
                    assert(s[j].0 == k);
                }
            }
            lemma_lookup_none(t, k);
        }
    }
    assert forall|k: Seq<char>| present(t, k) == present(s, k) by {
        if present(s, k) {
            let j = choose|j: int| 0 <= j < s.len() && (#[trigger] s[j]).0 == k;
            assert(t[j].0 == k);
        }
        if present(t, k) {
            let j = choose|j: int| 0 <= j < t.len() && (#[trigger] t[j]).0 == k;
            assert(s[j].0 == k);
        }
    }
    assert(keys(t) =~= keys(s));
}

/// Appending an entry with a new key adds exactly that key.
pub proof fn lemma_push_new<V>(s: Seq<(Seq<char>, V)>, k: Seq<char>, v: V)
    requires
        keys_unique(s),
        !present(s, k),
    ensures
        keys_unique(s.push((k, v))),
        lookup(s.push((k, v)), k) == Some(v),
        forall|k2: Seq<char>| k2 != k ==> lookup(#[trigger] s.push((k, v)), k2) == lookup(s, k2),
        forall|k2: Seq<char>| present(#[trigger] s.push((k, v)), k2) == (present(s, k2) || k2 == k),
        keys(s.push((k, v))) == keys(s).push(k),
{
    let t = s.push((k, v));
    assert forall|a: int, b: int| 0 <= a < t.len() && 0 <= b < t.len() && a != b implies t[a].0 != t[b].0 by {
        if a < s.len() && b < s.len() {
            assert(s[a].0 != s[b].0);
        } else if a < s.len() {
            assert(s[a].0 != k);
        } else {
            assert(s[b].0 != k);
        }
    }
    lemma_lookup_at(t, k, s.len() as int);
    assert forall|k2: Seq<char>| k2 != k implies lookup(#[trigger] s.push((k, v)), k2) == lookup(s, k2) by {
        if present(s, k2) {
            let j = choose|j: int| 0 <= j < s.len() && (#[trigger] s[j]).0 == k2;
            lemma_lookup_at(s, k2, j);
            assert(t[j].0 == k2);
            lemma_lookup_at(t, k2, j);
        } else {
            lemma_lookup_none(s, k2);
            assert(!present(t, k2)) by {
                if present(t, k2) {
                    let j = choose|j: int| 0 <= j < t.len() && (#[trigger] t[j]).0 == k2;
                    if j < s.len() {
                        assert(s[j].0 == k2);
                    }
                }
            }
            lemma_lookup_none(t, k2);
        }
    }
    assert forall|k2: Seq<char>| present(#[trigger] s.push((k, v)), k2) == (present(s, k2) || k2 == k) by {
        if present(s, k2) {
            let j = choose|j: int| 0 <= j < s.len() && (#[trigger] s[j]).0 == k2;
            assert(t[j].0 == k2);
        }
        if k2 == k {
            assert(t[s.len() as int].0 == k2);
        }
        if present(t, k2) && k2 != k {
            let j = choose|j: int| 0 <= j < t.len() && (#[trigger] t[j]).0 == k2;
            assert(j < s.len());
            assert(s[j].0 == k2);
        }
    }
    assert(keys(t) =~= keys(s).push(k));
}

/// Removing entry `i` removes exactly its key.
pub proof fn lemma_remove_at<V>(s: Seq<(Seq<char>, V)>, i: int)
    requires
        keys_unique(s),
        0 <= i < s.len(),
    ensures
        keys_unique(s.remove(i)),
        lookup(s.remove(i), s[i].0) is None,
        !present(s.remove(i), s[i].0),
        forall|k: Seq<char>| k != s[i].0 ==> lookup(#[trigger] s.remove(i), k) == lookup(s, k),
        forall|k: Seq<char>| k != s[i].0 ==> present(#[trigger] s.remove(i), k) == present(s, k),
{
    let t = s.remove(i);
    assert forall|a: int, b: int| 0 <= a < t.len() && 0 <= b < t.len() && a != b implies t[a].0 != t[b].0 by {
        let a2 = if a < i { a } else { a + 1 };
        let b2 = if b < i { b } else { b + 1 };
        assert(s[a2].0 != s[b2].0);
    }
    assert(!present(t, s[i].0)) by {
        if present(t, s[i].0) {
            let j = choose|j: int| 0 <= j < t.len() && (#[trigger] t[j]).0 == s[i].0;
            let j2 = if j < i { j } else { j + 1 };
            assert(s[j2].0 == s[i].0);
        }
    }
    lemma_lookup_none(t, s[i].0);
    assert forall|k: Seq<char>| k != s[i].0 implies present(#[trigger] s.remove(i), k) == present(s, k) by {
        if present(s, k) {
            let j = choose|j: int| 0 <= j < s.len() && (#[trigger] s[j]).0 == k;
            let j2 = if j < i { j } else { j - 1 };
            assert(t[j2].0 == k);
        }
        if present(t, k) {
            let j = choose|j: int| 0 <= j < t.len() && (#[trigger] t[j]).0 == k;
            let j2 = if j < i { j } else { j + 1 };
            assert(s[j2].0 == k);
        }
    }
    assert forall|k: Seq<char>| k != s[i].0 implies lookup(#[trigger] s.remove(i), k) == lookup(s, k) by {
        if present(s, k) {
            let j = choose|j: int| 0 <= j < s.len() && (#[trigger] s[j]).0 == k;
            lemma_lookup_at(s, k, j);
            let j2 = if j < i { j } else { j - 1 };
            assert(t[j2].0 == k);
            lemma_lookup_at(t, k, j2);
        } else {
            lemma_lookup_none(s, k);
            lemma_lookup_none(t, k);
        }
    }
}

} // verus!
