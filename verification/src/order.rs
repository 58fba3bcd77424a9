//! Stable insertion sort as a specification, and what it guarantees: the
//! result is ordered and holds exactly the elements it was given.
use vstd::prelude::*;

verus! {

/// `l` with `x` placed after every element that `x` does not come before.
pub open spec fn insert_by<A>(l: Seq<A>, x: A, before: spec_fn(A, A) -> bool) -> Seq<A>
    decreases l.len(),
{
    if l.len() == 0 {
        seq![x]
    } else if before(x, l[0]) {
        seq![x] + l
    } else {
        seq![l[0]] + insert_by(l.drop_first(), x, before)
    }
}

/// `xs` sorted by inserting each element in turn.
pub open spec fn sort_by<A>(xs: Seq<A>, before: spec_fn(A, A) -> bool) -> Seq<A>
    decreases xs.len(),
{
    if xs.len() == 0 {
        seq![]
    } else {
        insert_by(sort_by(xs.drop_last(), before), xs.last(), before)
    }
}

/// `before` is a strict order: never `a` before `a`, and transitive.
pub open spec fn strict_order<A>(before: spec_fn(A, A) -> bool) -> bool {
    &&& forall|a: A| !#[trigger] before(a, a)
    &&& forall|a: A, b: A, c: A|
        #![trigger before(a, b), before(b, c)]
        before(a, b) && before(b, c) ==> before(a, c)
}

/// No element comes before one that precedes it.
pub open spec fn sorted_by<A>(l: Seq<A>, before: spec_fn(A, A) -> bool) -> bool {
    forall|i: int, j: int| 0 <= i < j < l.len() ==> !before(#[trigger] l[j], #[trigger] l[i])
}

/// Where [`insert_by`] puts `x`: the first index whose element `x` comes
/// before, or the end.
pub open spec fn insert_position<A>(l: Seq<A>, x: A, before: spec_fn(A, A) -> bool) -> int
    decreases l.len(),
{
    if l.len() == 0 {
        0
    } else if before(x, l[0]) {
        0
    } else {
        1 + insert_position(l.drop_first(), x, before)
    }
}

proof fn lemma_insert_shape<A>(l: Seq<A>, x: A, before: spec_fn(A, A) -> bool)
    ensures
        ({
            let p = insert_position(l, x, before);
            &&& 0 <= p <= l.len()
            &&& insert_by(l, x, before) == l.take(p).push(x) + l.skip(p)
            &&& forall|i: int| 0 <= i < p ==> !before(x, #[trigger] l[i])
            &&& p < l.len() ==> before(x, l[p])
        }),
    decreases l.len(),
{
    if l.len() == 0 {
        assert(l.take(0).push(x) + l.skip(0) =~= seq![x]);
    } else if before(x, l[0]) {
        assert(l.take(0).push(x) + l.skip(0) =~= seq![x] + l);
    } else {
        let t = l.drop_first();
        lemma_insert_shape(t, x, before);
        let q = insert_position(t, x, before);
        assert(l.take(q + 1).push(x) + l.skip(q + 1) =~= seq![l[0]] + (t.take(q).push(x) + t.skip(q)));
        assert forall|i: int| 0 <= i < q + 1 implies !before(x, #[trigger] l[i]) by {
            if i > 0 {
                assert(l[i] == t[i - 1]);
            }
        }
        if q + 1 < l.len() {
            assert(l[q + 1] == t[q]);
        }
    }
}

proof fn lemma_insert_sorted<A>(l: Seq<A>, x: A, before: spec_fn(A, A) -> bool)
    requires
        strict_order(before),
        sorted_by(l, before),
    ensures
        sorted_by(insert_by(l, x, before), before),
        insert_by(l, x, before).to_multiset() == l.to_multiset().insert(x),
{
    broadcast use vstd::seq_lib::group_to_multiset_ensures;
    lemma_insert_shape(l, x, before);
    let p = insert_position(l, x, before);
    let r = insert_by(l, x, before);
    assert(r.len() == l.len() + 1);
    assert forall|i: int, j: int| 0 <= i < j < r.len() implies !before(#[trigger] r[j], #[trigger] r[i]) by {
        if j < p {
            assert(r[i] == l[i] && r[j] == l[j]);
        } else if j == p {
            assert(r[j] == x && r[i] == l[i]);
        } else if i < p {
            assert(r[i] == l[i] && r[j] == l[j - 1]);
        } else if i == p {
            assert(r[i] == x && r[j] == l[j - 1]);
            if before(l[j - 1], x) {
                assert(before(l[j - 1], l[p]));
                if j - 1 == p {
                    assert(!before(l[p], l[p]));
                }
            }
        } else {
            assert(r[i] == l[i - 1] && r[j] == l[j - 1]);
        }
    }
    vstd::seq_lib::lemma_multiset_commutative(l.take(p).push(x), l.skip(p));
    vstd::seq_lib::lemma_multiset_commutative(l.take(p), l.skip(p));
    assert(l.take(p) + l.skip(p) =~= l);
    assert(r.to_multiset() =~= l.to_multiset().insert(x));
}

/// Insertion sort by a strict order gives an ordered arrangement of the
/// same elements.
pub proof fn lemma_sort_by<A>(xs: Seq<A>, before: spec_fn(A, A) -> bool)
    requires
        strict_order(before),
    ensures
        sorted_by(sort_by(xs, before), before),
        sort_by(xs, before).to_multiset() == xs.to_multiset(),
    decreases xs.len(),
{
    broadcast use vstd::seq_lib::group_to_multiset_ensures;
    if xs.len() > 0 {
        lemma_sort_by(xs.drop_last(), before);
        lemma_insert_sorted(sort_by(xs.drop_last(), before), xs.last(), before);
        assert(xs.drop_last().push(xs.last()) =~= xs);
    }
}

/// Each element after an insertion is the inserted one or was there before.
pub proof fn lemma_insert_by_elements<A>(l: Seq<A>, x: A, before: spec_fn(A, A) -> bool, k: int)
    requires
        0 <= k < insert_by(l, x, before).len(),
    ensures
        insert_by(l, x, before)[k] == x || l.contains(insert_by(l, x, before)[k]),
        insert_by(l, x, before).len() == l.len() + 1,
{
    lemma_insert_shape(l, x, before);
    let p = insert_position(l, x, before);
    let r = insert_by(l, x, before);
    if k < p {
        assert(r[k] == l[k]);
    } else if k > p {
        assert(r[k] == l[k - 1]);
    }
}

/// An element of an arrangement of `xs` is an element of `xs`.
pub proof fn lemma_same_elements<A>(a: Seq<A>, b: Seq<A>, i: int)
    requires
        a.to_multiset() == b.to_multiset(),
        0 <= i < a.len(),
    ensures
        b.contains(a[i]),
{
    broadcast use vstd::seq_lib::group_to_multiset_ensures;
    assert(a.contains(a[i]));
    assert(a.to_multiset().count(a[i]) > 0);
    assert(b.to_multiset().count(a[i]) > 0);
}

/// An arrangement of a sequence without repeats has no repeats either.
pub proof fn lemma_no_duplicates_kept<A>(a: Seq<A>, b: Seq<A>)
    requires
        a.to_multiset() == b.to_multiset(),
        b.no_duplicates(),
    ensures
        a.no_duplicates(),
{
    broadcast use vstd::seq_lib::group_to_multiset_ensures;
    broadcast use vstd::multiset::group_multiset_axioms;
    assert forall|i: int, j: int| 0 <= i < a.len() && 0 <= j < a.len() && i != j implies a[i] != a[j] by {
        if a[i] == a[j] {
            let e = a[i];
            let (lo, hi) = if i < j { (i, j) } else { (j, i) };
            let ra = a.remove(hi);
            assert(ra[lo] == e);
            assert(ra.contains(e));
            assert(ra.to_multiset().count(e) > 0);
            assert(a.to_multiset().count(e) >= 2);
            assert(b.to_multiset().count(e) >= 2);
            assert(b.contains(e));
            let k = choose|k: int| 0 <= k < b.len() && b[k] == e;
            let rb = b.remove(k);
            assert(rb.to_multiset().count(e) > 0);
            assert(rb.contains(e));
            let m = choose|m: int| 0 <= m < rb.len() && rb[m] == e;
            let m2 = if m < k { m } else { m + 1 };
            assert(b[m2] == e && m2 != k);
        }
    }
}

} // verus!
