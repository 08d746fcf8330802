//! Stable insertion sort: the specification of every ordering the library
//! produces, and the laws that it sorts and only permutes.

use vstd::prelude::*;

verus! {

broadcast use vstd::seq_lib::group_seq_properties, vstd::multiset::group_multiset_axioms;

/// `s` with `x` inserted before the first element that `x` sorts strictly
/// before (after every element it ties with).
pub open spec fn insert_sorted<A>(s: Seq<A>, x: A, lt: spec_fn(A, A) -> bool) -> Seq<A>
    decreases s.len(),
{
    if s.len() == 0 {
        seq![x]
    } else if lt(x, s[0]) {
        seq![x] + s
    } else {
        seq![s[0]] + insert_sorted(s.drop_first(), x, lt)
    }
}

/// The stable sort of `s` by the strict order `lt`: elements that neither
/// sorts before the other keep their relative order.
pub open spec fn sort_by<A>(s: Seq<A>, lt: spec_fn(A, A) -> bool) -> Seq<A>
    decreases s.len(),
{
    if s.len() == 0 {
        seq![]
    } else {
        insert_sorted(sort_by(s.drop_last(), lt), s.last(), lt)
    }
}

/// `lt` is a strict order: irreflexive and transitive.
pub open spec fn is_strict_order<A>(lt: spec_fn(A, A) -> bool) -> bool {
    &&& forall|a: A| !(#[trigger] lt(a, a))
    &&& forall|a: A, b: A, c: A| #[trigger] lt(a, b) && #[trigger] lt(b, c) ==> lt(a, c)
}

/// No element of `s` sorts strictly before an element in front of it.
pub open spec fn sorted_by<A>(s: Seq<A>, lt: spec_fn(A, A) -> bool) -> bool {
    forall|i: int, j: int| 0 <= i < j < s.len() ==> !lt(#[trigger] s[j], #[trigger] s[i])
}

/// Inserting before the first element that `x` sorts before is `insert_sorted`.
pub proof fn lemma_insert_sorted_at<A>(s: Seq<A>, x: A, lt: spec_fn(A, A) -> bool, p: int)
    requires
        0 <= p <= s.len(),
        forall|k: int| 0 <= k < p ==> !lt(x, #[trigger] s[k]),
        p == s.len() || lt(x, s[p]),
    ensures
        insert_sorted(s, x, lt) == s.insert(p, x),
    decreases s.len(),
{
    if s.len() == 0 {
        assert(s.insert(p, x) =~= seq![x]);
    } else if p == 0 {
        assert(s.insert(0, x) =~= seq![x] + s);
    } else {
        assert(!lt(x, s[0]));
        let t = s.drop_first();
        assert forall|k: int| 0 <= k < p - 1 implies !lt(x, #[trigger] t[k]) by {
            assert(t[k] == s[k + 1]);
        }
        if p - 1 < t.len() {
            assert(t[p - 1] == s[p]);
        }
        lemma_insert_sorted_at(t, x, lt, p - 1);
        assert(seq![s[0]] + t.insert(p - 1, x) =~= s.insert(p, x));
    }
}

/// Insertion adds exactly `x` to the multiset of elements.
pub proof fn lemma_insert_sorted_multiset<A>(s: Seq<A>, x: A, lt: spec_fn(A, A) -> bool)
    ensures
        insert_sorted(s, x, lt).to_multiset() == s.to_multiset().insert(x),
        insert_sorted(s, x, lt).len() == s.len() + 1,
    decreases s.len(),
{
    if s.len() == 0 {
        assert(insert_sorted(s, x, lt) == s.insert(0, x)) by {
            lemma_insert_sorted_at(s, x, lt, 0);
        }
    } else if lt(x, s[0]) {
        assert(seq![x] + s == s.insert(0, x));
    } else {
        let t = s.drop_first();
        lemma_insert_sorted_multiset(t, x, lt);
        assert(s == t.insert(0, s[0]));
        assert(seq![s[0]] + insert_sorted(t, x, lt) == insert_sorted(t, x, lt).insert(0, s[0]));
    }
}

/// Sorting only permutes: the result has the same elements, as a multiset.
pub proof fn lemma_sort_by_multiset<A>(s: Seq<A>, lt: spec_fn(A, A) -> bool)
    ensures
        sort_by(s, lt).to_multiset() == s.to_multiset(),
        sort_by(s, lt).len() == s.len(),
    decreases s.len(),
{
    if s.len() > 0 {
        lemma_sort_by_multiset(s.drop_last(), lt);
        lemma_insert_sorted_multiset(sort_by(s.drop_last(), lt), s.last(), lt);
        assert(s == s.drop_last().push(s.last()));
    }
}

proof fn lemma_insert_sorted_elems<A>(s: Seq<A>, x: A, lt: spec_fn(A, A) -> bool)
    ensures
        forall|k: int|
            0 <= k < insert_sorted(s, x, lt).len() ==> #[trigger] insert_sorted(s, x, lt)[k] == x
                || s.contains(insert_sorted(s, x, lt)[k]),
    decreases s.len(),
{
    lemma_insert_sorted_multiset(s, x, lt);
    if s.len() > 0 && !lt(x, s[0]) {
        let t = s.drop_first();
        lemma_insert_sorted_elems(t, x, lt);
        assert forall|k: int| 0 <= k < insert_sorted(s, x, lt).len() implies #[trigger] insert_sorted(
            s,
            x,
            lt,
        )[k] == x || s.contains(insert_sorted(s, x, lt)[k]) by {
            if k == 0 {
                assert(s.contains(s[0]));
            } else {
                let e = insert_sorted(t, x, lt)[k - 1];
                assert(insert_sorted(s, x, lt)[k] == e);
                if e != x {
                    let m = choose|m: int| 0 <= m < t.len() && t[m] == e;
                    assert(s[m + 1] == e);
                }
            }
        }
    } else if s.len() > 0 {
        assert forall|k: int| 0 <= k < insert_sorted(s, x, lt).len() implies #[trigger] insert_sorted(
            s,
            x,
            lt,
        )[k] == x || s.contains(insert_sorted(s, x, lt)[k]) by {
            if k > 0 {
                assert(insert_sorted(s, x, lt)[k] == s[k - 1]);
            }
        }
    }
}

/// Inserting into a sorted sequence keeps it sorted.
pub proof fn lemma_insert_sorted_sorted<A>(s: Seq<A>, x: A, lt: spec_fn(A, A) -> bool)
    requires
        is_strict_order(lt),
        sorted_by(s, lt),
    ensures
        sorted_by(insert_sorted(s, x, lt), lt),
    decreases s.len(),
{
    let r = insert_sorted(s, x, lt);
    if s.len() == 0 {
    } else if lt(x, s[0]) {
        assert forall|i: int, j: int| 0 <= i < j < r.len() implies !lt(#[trigger] r[j], #[trigger] r[i]) by {
            if i == 0 {
                assert(r[j] == s[j - 1]);
                if lt(s[j - 1], x) {
                    assert(lt(s[j - 1], s[0]));
                }
            } else {
                assert(r[i] == s[i - 1] && r[j] == s[j - 1]);
            }
        }
    } else {
        let t = s.drop_first();
        assert(sorted_by(t, lt)) by {
            assert forall|i: int, j: int| 0 <= i < j < t.len() implies !lt(#[trigger] t[j], #[trigger] t[i]) by {
                assert(t[i] == s[i + 1] && t[j] == s[j + 1]);
            }
        }
        lemma_insert_sorted_sorted(t, x, lt);
        lemma_insert_sorted_elems(t, x, lt);
        let inner = insert_sorted(t, x, lt);
        assert forall|i: int, j: int| 0 <= i < j < r.len() implies !lt(#[trigger] r[j], #[trigger] r[i]) by {
            if i == 0 {
                let e = inner[j - 1];
                assert(r[j] == e);
                if e != x {
                    let m = choose|m: int| 0 <= m < t.len() && t[m] == e;
                    assert(s[m + 1] == e);
                }
            } else {
                assert(r[i] == inner[i - 1] && r[j] == inner[j - 1]);
            }
        }
    }
}

/// The stable sort by a strict order is sorted.
pub proof fn lemma_sort_by_sorted<A>(s: Seq<A>, lt: spec_fn(A, A) -> bool)
    requires
        is_strict_order(lt),
    ensures
        sorted_by(sort_by(s, lt), lt),
    decreases s.len(),
{
    if s.len() > 0 {
        lemma_sort_by_sorted(s.drop_last(), lt);
        lemma_insert_sorted_sorted(sort_by(s.drop_last(), lt), s.last(), lt);
    }
}

/// Inserting places `x` at some position of `s`.
proof fn lemma_insert_sorted_is_insert<A>(s: Seq<A>, x: A, lt: spec_fn(A, A) -> bool)
    ensures
        exists|p: int| 0 <= p <= s.len() && insert_sorted(s, x, lt) == s.insert(p, x),
    decreases s.len(),
{
    if s.len() == 0 {
        assert(insert_sorted(s, x, lt) == s.insert(0, x));
    } else if lt(x, s[0]) {
        assert(insert_sorted(s, x, lt) == s.insert(0, x));
    } else {
        let t = s.drop_first();
        lemma_insert_sorted_is_insert(t, x, lt);
        let q = choose|q: int| 0 <= q <= t.len() && insert_sorted(t, x, lt) == t.insert(q, x);
        assert(seq![s[0]] + t.insert(q, x) =~= s.insert(q + 1, x));
    }
}

/// Sorting keeps keys distinct: when no two elements of `s` share a key,
/// no two of its sort do, and each element of the sort is one of `s`.
pub proof fn lemma_sort_by_distinct_keys<A, K>(s: Seq<A>, lt: spec_fn(A, A) -> bool, key: spec_fn(A) -> K)
    requires
        forall|i: int, j: int| 0 <= i < j < s.len() ==> key(#[trigger] s[i]) != key(#[trigger] s[j]),
    ensures
        forall|i: int, j: int|
            0 <= i < j < sort_by(s, lt).len() ==> key(#[trigger] sort_by(s, lt)[i]) != key(
                #[trigger] sort_by(s, lt)[j],
            ),
        forall|j: int|
            0 <= j < sort_by(s, lt).len() ==> exists|i: int|
                0 <= i < s.len() && s[i] == #[trigger] sort_by(s, lt)[j],
    decreases s.len(),
{
    if s.len() > 0 {
        let d = s.drop_last();
        let x = s.last();
        assert forall|i: int, j: int| 0 <= i < j < d.len() implies key(#[trigger] d[i]) != key(#[trigger] d[j]) by {
            assert(d[i] == s[i] && d[j] == s[j]);
        }
        lemma_sort_by_distinct_keys(d, lt, key);
        let t = sort_by(d, lt);
        lemma_insert_sorted_is_insert(t, x, lt);
        let p = choose|p: int| 0 <= p <= t.len() && insert_sorted(t, x, lt) == t.insert(p, x);
        let r = sort_by(s, lt);
        assert(r == t.insert(p, x));
        assert forall|j: int| 0 <= j < r.len() implies exists|i: int| 0 <= i < s.len() && s[i] == #[trigger] r[j] by {
            if j == p {
                assert(s[s.len() - 1] == r[j]);
            } else {
                let tj = if j < p { j } else { j - 1 };
                assert(r[j] == t[tj]);
                let i = choose|i: int| 0 <= i < d.len() && d[i] == #[trigger] t[tj];
                assert(s[i] == r[j]);
            }
        }
        assert forall|a: int, b: int| 0 <= a < b < r.len() implies key(#[trigger] r[a]) != key(#[trigger] r[b]) by {
            if a != p && b != p {
                let ta = if a < p { a } else { a - 1 };
                let tb = if b < p { b } else { b - 1 };
                assert(r[a] == t[ta] && r[b] == t[tb]);
            } else {
                let o = if a == p { b } else { a };
                let to = if o < p { o } else { o - 1 };
                assert(r[o] == t[to]);
                let i = choose|i: int| 0 <= i < d.len() && d[i] == #[trigger] t[to];
                assert(d[i] == s[i]);
                assert(key(s[i]) != key(s[s.len() - 1]));
            }
        }
    }
}

} // verus!
