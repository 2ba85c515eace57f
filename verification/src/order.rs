//! Stable sorting under a strict weak order.
//!
//! A listing is sorted by some rule (newest first, by name, ...) and elements
//! that the rule does not tell apart keep the order in which they came. The
//! rule is a `SortOrder`; `stable_sort` arranges a vector by it, and
//! `stable_sorted` names the one arrangement that is ordered, a permutation of
//! the input, and keeps every group of tied elements in input order.

use vstd::prelude::*;

verus! {

broadcast use vstd::seq_lib::group_seq_properties, vstd::seq_lib::group_to_multiset_ensures;

/// A rule that says which of two elements must come first.
///
/// `before` is a strict weak order: irreflexive, transitive, and negatively
/// transitive (so that "neither comes first" is an equivalence).
pub trait SortOrder<T> {
    /// `a` must be listed before `b`.
    spec fn before(a: T, b: T) -> bool;

    proof fn lemma_irreflexive(a: T)
        ensures
            !Self::before(a, a),
    ;

    proof fn lemma_transitive(a: T, b: T, c: T)
        requires
            Self::before(a, b),
            Self::before(b, c),
        ensures
            Self::before(a, c),
    ;

    proof fn lemma_negatively_transitive(a: T, b: T, c: T)
        requires
            Self::before(a, c),
        ensures
            Self::before(a, b) || Self::before(b, c),
    ;

    /// Decides `before`.
    fn precedes(a: &T, b: &T) -> (r: bool)
        ensures
            r == Self::before(*a, *b),
    ;
}

/// Neither element must come before the other.
pub open spec fn tied<T, R: SortOrder<T>>(a: T, b: T) -> bool {
    !R::before(a, b) && !R::before(b, a)
}

/// The elements of `s` tied with `y`, in the order of `s`.
pub open spec fn ties<T, R: SortOrder<T>>(s: Seq<T>, y: T) -> Seq<T> {
    s.filter(|z: T| tied::<T, R>(z, y))
}

/// No element of `s` must come before one that precedes it in `s`.
pub open spec fn in_order<T, R: SortOrder<T>>(s: Seq<T>) -> bool {
    forall|i: int, j: int| 0 <= i < j < s.len() ==> !R::before(#[trigger] s[j], #[trigger] s[i])
}

/// `o` is `s` rearranged in order, with tied elements kept in their order in `s`.
pub open spec fn is_stable_sort_of<T, R: SortOrder<T>>(o: Seq<T>, s: Seq<T>) -> bool {
    &&& o.to_multiset() == s.to_multiset()
    &&& in_order::<T, R>(o)
    &&& forall|y: T| #[trigger] ties::<T, R>(o, y) == ties::<T, R>(s, y)
}

/// The stable sort of `s` (there is exactly one: see `lemma_stable_sort_unique`).
pub open spec fn stable_sorted<T, R: SortOrder<T>>(s: Seq<T>) -> Seq<T> {
    choose|o: Seq<T>| is_stable_sort_of::<T, R>(o, s)
}

/// Tied with is an equivalence: it is transitive.
pub proof fn lemma_tied_transitive<T, R: SortOrder<T>>(a: T, b: T, c: T)
    requires
        tied::<T, R>(a, b),
        tied::<T, R>(b, c),
    ensures
        tied::<T, R>(a, c),
{
    if R::before(a, c) {
        R::lemma_negatively_transitive(a, b, c);
    }
    if R::before(c, a) {
        R::lemma_negatively_transitive(c, b, a);
    }
}

/// A sequence none of whose elements is tied with `y` has no ties with `y`.
proof fn lemma_no_ties<T, R: SortOrder<T>>(s: Seq<T>, y: T)
    requires
        forall|i: int| 0 <= i < s.len() ==> !tied::<T, R>(#[trigger] s[i], y),
    ensures
        ties::<T, R>(s, y) == Seq::<T>::empty(),
{
    let pred = |z: T| tied::<T, R>(z, y);
    assert(s.all(|z: T| !pred(z)));
    s.lemma_all_neg_filter_empty(pred);
}

/// Inserting `x` where the elements that must precede it end keeps a stable
/// sort stable, for the input with `x` in front.
proof fn lemma_insert_step<T, R: SortOrder<T>>(o: Seq<T>, t: Seq<T>, x: T, p: int)
    requires
        is_stable_sort_of::<T, R>(o, t),
        0 <= p <= o.len(),
        forall|q: int| 0 <= q < p ==> R::before(#[trigger] o[q], x),
        p < o.len() ==> !R::before(o[p], x),
    ensures
        is_stable_sort_of::<T, R>(o.insert(p, x), seq![x] + t),
{
    let o2 = o.insert(p, x);
    let t2 = seq![x] + t;
    // Nothing from position p on must come before x.
    assert forall|j: int| p <= j < o.len() implies !R::before(#[trigger] o[j], x) by {
        if j > p && R::before(o[j], x) {
            R::lemma_negatively_transitive(o[j], o[p], x);
        }
    }
    assert(t2 =~= t.insert(0, x));
    // Ordered.
    assert forall|i: int, j: int| 0 <= i < j < o2.len() implies !R::before(
        #[trigger] o2[j],
        #[trigger] o2[i],
    ) by {
        if j < p {
            assert(o2[i] == o[i] && o2[j] == o[j]);
        } else if j == p {
            assert(o2[i] == o[i]);
            if R::before(x, o[i]) {
                R::lemma_transitive(x, o[i], x);
                R::lemma_irreflexive(x);
            }
        } else if i < p {
            assert(o2[i] == o[i] && o2[j] == o[j - 1]);
            assert(!R::before(o[j - 1], o[i]));
        } else if i == p {
            assert(o2[j] == o[j - 1]);
        } else {
            assert(o2[i] == o[i - 1] && o2[j] == o[j - 1]);
            assert(!R::before(o[j - 1], o[i - 1]));
        }
    }
    // Ties kept.
    assert forall|y: T| #[trigger] ties::<T, R>(o2, y) == ties::<T, R>(t2, y) by {
        let pred = |z: T| tied::<T, R>(z, y);
        let front = o.take(p);
        let back = o.skip(p);
        assert(o =~= front + back);
        assert(o2 =~= front + seq![x] + back);
        Seq::filter_distributes_over_add(front, back, pred);
        Seq::filter_distributes_over_add(front + seq![x], back, pred);
        Seq::filter_distributes_over_add(front, seq![x], pred);
        t.lemma_filter_prepend(x, pred);
        seq![x].lemma_filter_prepend(x, pred);
        Seq::<T>::empty().lemma_filter_prepend(x, pred);
        reveal(Seq::filter);
        assert(seq![x] =~= seq![x] + Seq::<T>::empty());
        assert(ties::<T, R>(o, y) == ties::<T, R>(t, y));
        if tied::<T, R>(x, y) {
            assert forall|i: int| 0 <= i < front.len() implies !tied::<T, R>(
                #[trigger] front[i],
                y,
            ) by {
                if tied::<T, R>(front[i], y) {
                    lemma_tied_transitive::<T, R>(front[i], y, x);
                }
            }
            lemma_no_ties::<T, R>(front, y);
        }
    }
}

/// The number of leading elements of `o` that must come before `x`.
pub open spec fn insertion_point<T, R: SortOrder<T>>(o: Seq<T>, x: T) -> nat
    decreases o.len(),
{
    if o.len() > 0 && R::before(o[0], x) {
        1 + insertion_point::<T, R>(o.drop_first(), x)
    } else {
        0
    }
}

proof fn lemma_insertion_point<T, R: SortOrder<T>>(o: Seq<T>, x: T)
    ensures
        insertion_point::<T, R>(o, x) <= o.len(),
        forall|q: int|
            0 <= q < insertion_point::<T, R>(o, x) ==> R::before(#[trigger] o[q], x),
        insertion_point::<T, R>(o, x) < o.len() ==> !R::before(
            o[insertion_point::<T, R>(o, x) as int],
            x,
        ),
    decreases o.len(),
{
    if o.len() > 0 && R::before(o[0], x) {
        lemma_insertion_point::<T, R>(o.drop_first(), x);
        assert forall|q: int| 0 <= q < insertion_point::<T, R>(o, x) implies R::before(
            #[trigger] o[q],
            x,
        ) by {
            if q > 0 {
                assert(o[q] == o.drop_first()[q - 1]);
            }
        }
    }
}

/// Every sequence has a stable sort.
pub proof fn lemma_stable_sort_exists<T, R: SortOrder<T>>(s: Seq<T>)
    ensures
        exists|o: Seq<T>| is_stable_sort_of::<T, R>(o, s),
    decreases s.len(),
{
    if s.len() == 0 {
        assert(is_stable_sort_of::<T, R>(s, s));
    } else {
        let t = s.drop_first();
        lemma_stable_sort_exists::<T, R>(t);
        let o = choose|o: Seq<T>| is_stable_sort_of::<T, R>(o, t);
        let p = insertion_point::<T, R>(o, s[0]);
        lemma_insertion_point::<T, R>(o, s[0]);
        lemma_insert_step::<T, R>(o, t, s[0], p as int);
        assert(seq![s[0]] + t =~= s);
    }
}

/// Two stable sorts of one sequence are equal.
pub proof fn lemma_stable_sort_unique<T, R: SortOrder<T>>(o1: Seq<T>, o2: Seq<T>, s: Seq<T>)
    requires
        is_stable_sort_of::<T, R>(o1, s),
        is_stable_sort_of::<T, R>(o2, s),
    ensures
        o1 == o2,
{
    assert forall|y: T| #[trigger] ties::<T, R>(o1, y) == ties::<T, R>(o2, y) by {
        assert(ties::<T, R>(o1, y) == ties::<T, R>(s, y));
        assert(ties::<T, R>(o2, y) == ties::<T, R>(s, y));
    }
    lemma_same_ties_equal::<T, R>(o1, o2);
}

/// An element of `s` is among its own ties in `s`.
proof fn lemma_self_tie<T, R: SortOrder<T>>(s: Seq<T>, i: int)
    requires
        0 <= i < s.len(),
    ensures
        ties::<T, R>(s, s[i]).contains(s[i]),
{
    R::lemma_irreflexive(s[i]);
    s.lemma_filter_contains(|z: T| tied::<T, R>(z, s[i]), i);
}

/// Two ordered sequences with the same ties for every element are equal.
proof fn lemma_same_ties_equal<T, R: SortOrder<T>>(o1: Seq<T>, o2: Seq<T>)
    requires
        in_order::<T, R>(o1),
        in_order::<T, R>(o2),
        forall|y: T| #[trigger] ties::<T, R>(o1, y) == ties::<T, R>(o2, y),
    ensures
        o1 == o2,
    decreases o1.len(),
{
    if o1.len() == 0 && o2.len() == 0 {
        assert(o1 =~= o2);
    } else if o1.len() == 0 {
        lemma_self_tie::<T, R>(o2, 0);
        assert(ties::<T, R>(o1, o2[0]) == ties::<T, R>(o2, o2[0]));
        o1.lemma_filter_contains_rev(|z: T| tied::<T, R>(z, o2[0]), o2[0]);
    } else if o2.len() == 0 {
        lemma_self_tie::<T, R>(o1, 0);
        assert(ties::<T, R>(o1, o1[0]) == ties::<T, R>(o2, o1[0]));
        o2.lemma_filter_contains_rev(|z: T| tied::<T, R>(z, o1[0]), o1[0]);
    } else {
        let a = o1[0];
        let b = o2[0];
        let r1 = o1.drop_first();
        let r2 = o2.drop_first();
        assert(o1 =~= seq![a] + r1);
        assert(o2 =~= seq![b] + r2);
        // The heads are tied.
        if R::before(a, b) {
            lemma_self_tie::<T, R>(o1, 0);
            assert(ties::<T, R>(o1, a) == ties::<T, R>(o2, a));
            o2.lemma_filter_contains_rev(|z: T| tied::<T, R>(z, a), a);
            let j = choose|j: int| 0 <= j < o2.len() && o2[j] == a;
            R::lemma_irreflexive(a);
            assert(j != 0);
            assert(!R::before(o2[j], o2[0]));
        }
        if R::before(b, a) {
            lemma_self_tie::<T, R>(o2, 0);
            assert(ties::<T, R>(o1, b) == ties::<T, R>(o2, b));
            o1.lemma_filter_contains_rev(|z: T| tied::<T, R>(z, b), b);
            let j = choose|j: int| 0 <= j < o1.len() && o1[j] == b;
            R::lemma_irreflexive(b);
            assert(j != 0);
            assert(!R::before(o1[j], o1[0]));
        }
        assert(tied::<T, R>(a, b));
        // The heads are equal.
        R::lemma_irreflexive(a);
        r1.lemma_filter_prepend(a, |z: T| tied::<T, R>(z, a));
        r2.lemma_filter_prepend(b, |z: T| tied::<T, R>(z, a));
        assert(ties::<T, R>(o1, a) == ties::<T, R>(o2, a));
        assert(ties::<T, R>(o1, a)[0] == a);
        assert(ties::<T, R>(o2, a)[0] == b);
        // The rests have the same ties.
        assert forall|y: T| #[trigger] ties::<T, R>(r1, y) == ties::<T, R>(r2, y) by {
            let pred = |z: T| tied::<T, R>(z, y);
            r1.lemma_filter_prepend(a, pred);
            r2.lemma_filter_prepend(b, pred);
            assert(ties::<T, R>(o1, y) == ties::<T, R>(o2, y));
            if tied::<T, R>(a, y) {
                assert(ties::<T, R>(r1, y) =~= ties::<T, R>(o1, y).drop_first());
                assert(ties::<T, R>(r2, y) =~= ties::<T, R>(o2, y).drop_first());
            }
        }
        assert forall|i: int, j: int| 0 <= i < j < r1.len() implies !R::before(
            #[trigger] r1[j],
            #[trigger] r1[i],
        ) by {
            assert(!R::before(o1[j + 1], o1[i + 1]));
        }
        assert forall|i: int, j: int| 0 <= i < j < r2.len() implies !R::before(
            #[trigger] r2[j],
            #[trigger] r2[i],
        ) by {
            assert(!R::before(o2[j + 1], o2[i + 1]));
        }
        lemma_same_ties_equal::<T, R>(r1, r2);
    }
}

/// `stable_sorted` is the stable sort of its argument: a permutation of it,
/// in order, with tied elements kept in the order they came in.
pub proof fn lemma_stable_sorted_is_stable_sort<T, R: SortOrder<T>>(s: Seq<T>)
    ensures
        is_stable_sort_of::<T, R>(stable_sorted::<T, R>(s), s),
{
    lemma_stable_sort_exists::<T, R>(s);
}

/// Sorting what is already in order leaves it unchanged.
pub proof fn lemma_stable_sorted_idempotent<T, R: SortOrder<T>>(s: Seq<T>)
    requires
        in_order::<T, R>(s),
    ensures
        stable_sorted::<T, R>(s) == s,
{
    lemma_stable_sorted_is_stable_sort::<T, R>(s);
    lemma_stable_sort_unique::<T, R>(stable_sorted::<T, R>(s), s, s);
}

/// Keeping only some elements of a sequence in order leaves it in order.
pub proof fn lemma_filter_keeps_order<T, R: SortOrder<T>>(s: Seq<T>, pred: spec_fn(T) -> bool)
    requires
        in_order::<T, R>(s),
    ensures
        in_order::<T, R>(s.filter(pred)),
    decreases s.len(),
{
    reveal(Seq::filter);
    if s.len() > 0 {
        let d = s.drop_last();
        assert forall|i: int, j: int| 0 <= i < j < d.len() implies !R::before(
            #[trigger] d[j],
            #[trigger] d[i],
        ) by {
            assert(d[i] == s[i] && d[j] == s[j]);
        }
        lemma_filter_keeps_order::<T, R>(d, pred);
        let f = d.filter(pred);
        if pred(s.last()) {
            let g = s.filter(pred);
            assert(g == f.push(s.last()));
            assert forall|i: int, j: int| 0 <= i < j < g.len() implies !R::before(
                #[trigger] g[j],
                #[trigger] g[i],
            ) by {
                if j == g.len() - 1 {
                    assert(g[i] == f[i]);
                    d.lemma_filter_contains_rev(pred, f[i]);
                    assert(f.contains(f[i]));
                    let k = choose|k: int| 0 <= k < d.len() && d[k] == f[i];
                    assert(s[k] == d[k]);
                    assert(s[s.len() - 1] == s.last());
                } else {
                    assert(g[i] == f[i] && g[j] == f[j]);
                }
            }
        }
    }
}

/// Rearranges `v` by `R`, keeping tied elements in the order they came in.
pub fn stable_sort<T, R: SortOrder<T>>(v: Vec<T>) -> (out: Vec<T>)
    ensures
        out@ == stable_sorted::<T, R>(v@),
{
    let ghost s = v@;
    let mut v = v;
    let mut out: Vec<T> = Vec::new();
    assert(s.skip(s.len() as int) =~= Seq::<T>::empty());
    assert(out@ =~= Seq::<T>::empty());
    while v.len() > 0
        invariant
            v@ == s.take(v.len() as int),
            v.len() <= s.len(),
            is_stable_sort_of::<T, R>(out@, s.skip(v.len() as int)),
        decreases v.len(),
    {
        let ghost t = s.skip(v.len() as int);
        let x = v.pop().unwrap();
        let mut p: usize = 0;
        while p < out.len() && R::precedes(&out[p], &x)
            invariant
                p <= out.len(),
                forall|q: int| 0 <= q < p ==> R::before(#[trigger] out@[q], x),
            decreases out.len() - p,
        {
            p = p + 1;
        }
        proof {
            R::lemma_irreflexive(x);
            lemma_insert_step::<T, R>(out@, t, x, p as int);
            assert(seq![x] + t =~= s.skip(v.len() as int));
        }
        out.insert(p, x);
    }
    proof {
        lemma_stable_sorted_is_stable_sort::<T, R>(s);
        lemma_stable_sort_unique::<T, R>(out@, stable_sorted::<T, R>(s), s);
    }
    out
}

} // verus!
