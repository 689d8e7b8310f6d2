//! Stable sorting, stated as insertion: each element, in turn, goes before
//! the first element it must precede, so equal elements keep their order.
use vstd::prelude::*;

verus! {

/// `x` inserted into `s` before the first element it must precede.
pub open spec fn insert_sorted<A>(s: Seq<A>, x: A, before: spec_fn(A, A) -> bool) -> Seq<A>
    decreases s.len(),
{
    if s.len() == 0 {
        seq![x]
    } else if before(x, s[0]) {
        seq![x] + s
    } else {
        seq![s[0]] + insert_sorted(s.drop_first(), x, before)
    }
}

/// The stable sort of `s` by the strict order `before`.
pub open spec fn stable_sort<A>(s: Seq<A>, before: spec_fn(A, A) -> bool) -> Seq<A>
    decreases s.len(),
{
    if s.len() == 0 {
        s
    } else {
        insert_sorted(stable_sort(s.drop_last(), before), s.last(), before)
    }
}

/// Inserting at the first position whose element `x` must precede is
/// `insert_sorted`.
pub proof fn lemma_insert_sorted_at<A>(s: Seq<A>, x: A, before: spec_fn(A, A) -> bool, p: int)
    requires
        0 <= p <= s.len(),
        forall|j: int| 0 <= j < p ==> !before(x, #[trigger] s[j]),
        p < s.len() ==> before(x, s[p]),
    ensures
        insert_sorted(s, x, before) == s.insert(p, x),
    decreases s.len(),
{
    if s.len() == 0 {
        assert(s.insert(p, x) =~= seq![x]);
    } else if p == 0 {
        assert(s.insert(0, x) =~= seq![x] + s);
    } else {
        let d = s.drop_first();
        assert forall|j: int| 0 <= j < p - 1 implies !before(x, #[trigger] d[j]) by {
            assert(d[j] == s[j + 1]);
        }
        if p - 1 < d.len() {
            assert(d[p - 1] == s[p]);
        }
        assert(!before(x, s[0]));
        lemma_insert_sorted_at(d, x, before, p - 1);
        assert(s.insert(p, x) =~= seq![s[0]] + d.insert(p - 1, x));
    }
}

/// The stable sort keeps the length.
pub proof fn lemma_stable_sort_len<A>(s: Seq<A>, before: spec_fn(A, A) -> bool)
    ensures
        stable_sort(s, before).len() == s.len(),
    decreases s.len(),
{
    if s.len() > 0 {
        lemma_stable_sort_len(s.drop_last(), before);
        lemma_insert_sorted_len(stable_sort(s.drop_last(), before), s.last(), before);
    }
}

/// Inserting adds one element.
pub proof fn lemma_insert_sorted_len<A>(s: Seq<A>, x: A, before: spec_fn(A, A) -> bool)
    ensures
        insert_sorted(s, x, before).len() == s.len() + 1,
    decreases s.len(),
{
    if s.len() > 0 && !before(x, s[0]) {
        lemma_insert_sorted_len(s.drop_first(), x, before);
    }
}

/// Whether `s` is in non-decreasing order of `key`.
pub open spec fn key_sorted<A>(s: Seq<A>, key: spec_fn(A) -> int) -> bool {
    forall|k: int| 0 <= k < s.len() - 1 ==> key(#[trigger] s[k]) <= key(s[k + 1])
}

/// The first element after an insertion is the inserted one or the old
/// first one.
pub proof fn lemma_insert_sorted_first<A>(s: Seq<A>, x: A, before: spec_fn(A, A) -> bool)
    ensures
        insert_sorted(s, x, before).len() == s.len() + 1,
        insert_sorted(s, x, before)[0] == x || (s.len() > 0 && insert_sorted(s, x, before)[0] == s[0]),
    decreases s.len(),
{
    if s.len() > 0 && !before(x, s[0]) {
        lemma_insert_sorted_first(s.drop_first(), x, before);
    }
}

/// Inserting into a sequence sorted by a key keeps it sorted, when
/// `before` compares the keys.
pub proof fn lemma_insert_keeps_key_sorted<A>(
    s: Seq<A>,
    x: A,
    before: spec_fn(A, A) -> bool,
    key: spec_fn(A) -> int,
)
    requires
        key_sorted(s, key),
        forall|a: A, b: A| #[trigger] before(a, b) <==> key(a) < key(b),
    ensures
        key_sorted(insert_sorted(s, x, before), key),
    decreases s.len(),
{
    let r = insert_sorted(s, x, before);
    if s.len() == 0 {
    } else if before(x, s[0]) {
        assert forall|k: int| 0 <= k < r.len() - 1 implies key(#[trigger] r[k]) <= key(r[k + 1]) by {
            if k > 0 {
                assert(r[k] == s[k - 1] && r[k + 1] == s[k]);
            }
        }
    } else {
        let d = s.drop_first();
        assert forall|k: int| 0 <= k < d.len() - 1 implies key(#[trigger] d[k]) <= key(d[k + 1]) by {
            assert(d[k] == s[k + 1] && d[k + 1] == s[k + 2]);
        }
        lemma_insert_keeps_key_sorted(d, x, before, key);
        lemma_insert_sorted_first(d, x, before);
        let t = insert_sorted(d, x, before);
        assert(r == seq![s[0]] + t);
        assert forall|k: int| 0 <= k < r.len() - 1 implies key(#[trigger] r[k]) <= key(r[k + 1]) by {
            if k == 0 {
                assert(r[1] == t[0]);
                if d.len() > 0 {
                    assert(key(s[0]) <= key(s[1]));
                }
            } else {
                assert(r[k] == t[k - 1] && r[k + 1] == t[k]);
            }
        }
    }
}

/// Sorting by `before` that compares keys gives a sequence in
/// non-decreasing key order.
pub proof fn lemma_stable_sort_key_sorted<A>(s: Seq<A>, before: spec_fn(A, A) -> bool, key: spec_fn(A) -> int)
    requires
        forall|a: A, b: A| #[trigger] before(a, b) <==> key(a) < key(b),
    ensures
        key_sorted(stable_sort(s, before), key),
    decreases s.len(),
{
    if s.len() > 0 {
        lemma_stable_sort_key_sorted(s.drop_last(), before, key);
        lemma_insert_keeps_key_sorted(stable_sort(s.drop_last(), before), s.last(), before, key);
    }
}

} // verus!
