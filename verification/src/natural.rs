//! Natural order of names, and the stable sort that every listing goes through.
//!
//! Two names are compared by `natord::compare`, which reads runs of digits as
//! numbers. Nothing is assumed of how that comparison behaves across three
//! names, so the sort is defined by what it does: every element is placed, last
//! to first, before the first already placed element that it does not come
//! after. Where the comparison is a strict weak order this is the sorted
//! arrangement in which ties keep the order they came in; the proofs below
//! say so, and what holds without that condition.

use crate::outside::{natord_compare, natural_compare};
use vstd::prelude::*;

verus! {

/// `left` comes after `right` in natural order.
pub open spec fn name_after(left: Seq<char>, right: Seq<char>) -> bool {
    natord_compare(left, right) > 0
}

/// A value with a place in a listing.
pub trait Ranked: View + Sized {
    /// `a` has to stand after `b`.
    spec fn after(a: Self::V, b: Self::V) -> bool;

    /// Decides `after` for two values.
    fn comes_after(&self, other: &Self) -> (r: bool)
        ensures
            r == Self::after(self@, other@),
    ;
}

impl Ranked for String {
    open spec fn after(a: Seq<char>, b: Seq<char>) -> bool {
        name_after(a, b)
    }

    fn comes_after(&self, other: &Self) -> (r: bool) {
        natural_compare(self.as_str(), other.as_str()) > 0
    }
}

/// The views of the elements of `s`.
pub open spec fn views<T: View>(s: Seq<T>) -> Seq<T::V> {
    Seq::new(s.len(), |i: int| s[i]@)
}

/// Where `x` is placed in `s`: before the first element that it does not come
/// after, or at the end.
pub open spec fn insertion_point<T: Ranked>(x: T::V, s: Seq<T::V>) -> int
    decreases s.len(),
{
    if s.len() == 0 || !T::after(x, s[0]) {
        0
    } else {
        1 + insertion_point::<T>(x, s.drop_first())
    }
}

/// `s` sorted: its first element placed into the rest, sorted.
pub open spec fn sorted<T: Ranked>(s: Seq<T::V>) -> Seq<T::V>
    decreases s.len(),
{
    if s.len() == 0 {
        s
    } else {
        let rest = sorted::<T>(s.drop_first());
        rest.insert(insertion_point::<T>(s[0], rest), s[0])
    }
}

/// Names in natural order.
pub open spec fn natural_sort(names: Seq<Seq<char>>) -> Seq<Seq<char>> {
    sorted::<String>(names)
}

/// No element of `s` has to stand after a later one.
pub open spec fn in_order<T: Ranked>(s: Seq<T::V>) -> bool {
    forall|i: int, j: int| 0 <= i < j < s.len() ==> !T::after(#[trigger] s[i], #[trigger] s[j])
}

/// Neither of `a` and `b` has to stand after the other.
pub open spec fn tied<T: Ranked>(a: T::V, b: T::V) -> bool {
    !T::after(a, b) && !T::after(b, a)
}

/// Picks the values that are tied with `x`.
pub open spec fn ties_of<T: Ranked>(x: T::V) -> spec_fn(T::V) -> bool {
    |y: T::V| tied::<T>(y, x)
}

/// On the elements of `s`, `after` is a strict weak order: never both ways
/// between two elements, and where `a` need not follow `b` nor `b` follow `c`,
/// `a` need not follow `c`.
pub open spec fn orders_weakly<T: Ranked>(s: Seq<T::V>) -> bool {
    &&& forall|a: T::V, b: T::V|
        s.contains(a) && s.contains(b) && #[trigger] T::after(a, b) ==> !T::after(b, a)
    &&& forall|a: T::V, b: T::V, c: T::V|
        s.contains(a) && s.contains(b) && s.contains(c) && !#[trigger] T::after(a, b)
            && !#[trigger] T::after(b, c) ==> !T::after(a, c)
}

/// The insertion point is the one index up to which `x` comes after every
/// element and at which it does not.
pub proof fn lemma_insertion_point<T: Ranked>(x: T::V, s: Seq<T::V>, p: int)
    requires
        0 <= p <= s.len(),
        forall|k: int| 0 <= k < p ==> T::after(x, #[trigger] s[k]),
        p < s.len() ==> !T::after(x, s[p]),
    ensures
        insertion_point::<T>(x, s) == p,
    decreases s.len(),
{
    if p > 0 {
        let t = s.drop_first();
        assert forall|k: int| 0 <= k < p - 1 implies T::after(x, #[trigger] t[k]) by {
            assert(t[k] == s[k + 1]);
        }
        lemma_insertion_point::<T>(x, t, p - 1);
    }
}

/// The insertion point lies in the sequence or at its end, after elements
/// that `x` comes after, and not before one that it comes after.
pub proof fn lemma_insertion_point_bounds<T: Ranked>(x: T::V, s: Seq<T::V>)
    ensures
        0 <= insertion_point::<T>(x, s) <= s.len(),
        forall|k: int| 0 <= k < insertion_point::<T>(x, s) ==> T::after(x, #[trigger] s[k]),
        insertion_point::<T>(x, s) < s.len() ==> !T::after(x, s[insertion_point::<T>(x, s)]),
    decreases s.len(),
{
    if s.len() > 0 && T::after(x, s[0]) {
        let t = s.drop_first();
        lemma_insertion_point_bounds::<T>(x, t);
        let p = insertion_point::<T>(x, t);
        assert forall|k: int| 0 <= k < p + 1 implies T::after(x, #[trigger] s[k]) by {
            if k > 0 {
                assert(s[k] == t[k - 1]);
            }
        }
    }
}

/// Sorting rearranges: the result holds each element as often as the input.
pub proof fn lemma_sorted_permutes<T: Ranked>(s: Seq<T::V>)
    ensures
        sorted::<T>(s).len() == s.len(),
        sorted::<T>(s).to_multiset() == s.to_multiset(),
    decreases s.len(),
{
    broadcast use vstd::seq_lib::group_to_multiset_ensures;

    if s.len() > 0 {
        let t = s.drop_first();
        lemma_sorted_permutes::<T>(t);
        lemma_insertion_point_bounds::<T>(s[0], sorted::<T>(t));
        assert(s =~= t.insert(0, s[0]));
    }
}

/// Sorting neither adds nor drops a value.
pub proof fn lemma_sorted_contains<T: Ranked>(s: Seq<T::V>, x: T::V)
    ensures
        sorted::<T>(s).contains(x) == s.contains(x),
{
    broadcast use vstd::seq_lib::group_to_multiset_ensures;

    lemma_sorted_permutes::<T>(s);
    assert(sorted::<T>(s).to_multiset().count(x) == s.to_multiset().count(x));
}

/// Where the comparison is a strict weak order on the elements of `s`, the
/// sorted sequence is in order.
pub proof fn lemma_sorted_in_order<T: Ranked>(s: Seq<T::V>)
    requires
        orders_weakly::<T>(s),
    ensures
        in_order::<T>(sorted::<T>(s)),
    decreases s.len(),
{
    if s.len() > 0 {
        let t = s.drop_first();
        let rest = sorted::<T>(t);
        let x = s[0];
        assert forall|y: T::V| rest.contains(y) implies s.contains(y) by {
            lemma_sorted_contains::<T>(t, y);
            let m = choose|m: int| 0 <= m < t.len() && t[m] == y;
            assert(s[m + 1] == y);
        }
        assert(s.contains(x));
        assert(orders_weakly::<T>(t)) by {
            assert forall|y: T::V| t.contains(y) implies s.contains(y) by {
                lemma_sorted_contains::<T>(t, y);
            }
        }
        lemma_sorted_in_order::<T>(t);
        lemma_insertion_point_bounds::<T>(x, rest);
        let p = insertion_point::<T>(x, rest);
        let out = rest.insert(p, x);
        assert forall|i: int, j: int| 0 <= i < j < out.len() implies !T::after(
            #[trigger] out[i],
            #[trigger] out[j],
        ) by {
            if i == p {
                // `x` need not follow `rest[p]`, nor `rest[p]` what stands behind it
                assert(rest.contains(rest[p]) && rest.contains(rest[j - 1]));
                assert(!T::after(x, rest[p]) && !T::after(rest[p], rest[j - 1]));
            } else if j == p {
                // `x` follows `rest[i]`, so `rest[i]` does not follow `x`
                assert(rest.contains(rest[i]));
                assert(T::after(x, rest[i]));
            }
        }
    }
}

/// Ties keep the order they came in: where the comparison is a strict weak
/// order on `x` and the elements of `s`, the values tied with `x` stand in
/// the sorted sequence as they stand in `s`.
pub proof fn lemma_sorted_keeps_ties<T: Ranked>(s: Seq<T::V>, x: T::V)
    requires
        orders_weakly::<T>(s.push(x)),
    ensures
        sorted::<T>(s).filter(ties_of::<T>(x)) == s.filter(ties_of::<T>(x)),
    decreases s.len(),
{
    broadcast use Seq::filter_distributes_over_add;

    let pick = ties_of::<T>(x);
    if s.len() > 0 {
        let t = s.drop_first();
        let rest = sorted::<T>(t);
        let first = s[0];
        let all = s.push(x);
        assert(all.contains(x)) by {
            assert(all[s.len() as int] == x);
        }
        assert forall|y: T::V| s.contains(y) implies all.contains(y) by {
            let m = choose|m: int| 0 <= m < s.len() && s[m] == y;
            assert(all[m] == y);
        }
        assert forall|y: T::V| rest.contains(y) implies s.contains(y) by {
            lemma_sorted_contains::<T>(t, y);
            let m = choose|m: int| 0 <= m < t.len() && t[m] == y;
            assert(s[m + 1] == y);
        }
        assert(orders_weakly::<T>(t.push(x))) by {
            assert forall|y: T::V| t.push(x).contains(y) implies all.contains(y) by {
                let m = choose|m: int| 0 <= m < t.push(x).len() && t.push(x)[m] == y;
                assert(all[m + 1] == y);
            }
        }
        lemma_sorted_keeps_ties::<T>(t, x);
        lemma_insertion_point_bounds::<T>(first, rest);
        let p = insertion_point::<T>(first, rest);
        let front = rest.subrange(0, p);
        let back = rest.subrange(p, rest.len() as int);
        let one = Seq::<T::V>::empty().push(first);
        Seq::<T::V>::empty().lemma_filter_push(first, pick);
        assert(Seq::<T::V>::empty().filter(pick) =~= Seq::<T::V>::empty()) by {
            Seq::<T::V>::empty().lemma_filter_len(pick);
        }
        assert(rest =~= front + back);
        assert(rest.insert(p, first) =~= front + one + back);
        assert(s =~= one + t);
        assert(s.contains(first));
        if pick(first) {
            // what `first` passes on its way in is not tied with it, nor then with `x`
            assert forall|k: int| 0 <= k < front.len() implies !pick(#[trigger] front[k]) by {
                assert(rest.contains(rest[k]));
                assert(T::after(first, rest[k]));
                if tied::<T>(rest[k], x) {
                    assert(!T::after(first, x) && !T::after(x, rest[k]));
                }
            }
            assert(front.all(|y: T::V| !pick(y)));
            front.lemma_all_neg_filter_empty(pick);
            assert(front.filter(pick) =~= Seq::<T::V>::empty());
            assert(front.filter(pick) + one + back.filter(pick) =~= one + (front.filter(pick)
                + back.filter(pick)));
        } else {
            assert(front.filter(pick) + Seq::<T::V>::empty() + back.filter(pick) =~= front.filter(
                pick,
            ) + back.filter(pick));
            assert(Seq::<T::V>::empty() + t.filter(pick) =~= t.filter(pick));
        }
    }
}

/// Ties among the elements of `s` keep the order they came in.
pub proof fn lemma_sorted_is_stable<T: Ranked>(s: Seq<T::V>, i: int)
    requires
        orders_weakly::<T>(s),
        0 <= i < s.len(),
    ensures
        sorted::<T>(s).filter(ties_of::<T>(s[i])) == s.filter(ties_of::<T>(s[i])),
{
    assert forall|y: T::V| s.push(s[i]).contains(y) implies s.contains(y) by {
        let m = choose|m: int| 0 <= m < s.push(s[i]).len() && s.push(s[i])[m] == y;
        if m < s.len() {
            assert(s[m] == y);
        }
    }
    lemma_sorted_keeps_ties::<T>(s, s[i]);
}

/// A sequence that is in order is left as it is, whatever the comparison
/// makes of three elements.
pub proof fn lemma_sorted_fixes_ordered<T: Ranked>(s: Seq<T::V>)
    requires
        in_order::<T>(s),
    ensures
        sorted::<T>(s) == s,
    decreases s.len(),
{
    if s.len() > 0 {
        let t = s.drop_first();
        assert forall|i: int, j: int| 0 <= i < j < t.len() implies !T::after(
            #[trigger] t[i],
            #[trigger] t[j],
        ) by {
            assert(t[i] == s[i + 1] && t[j] == s[j + 1]);
        }
        lemma_sorted_fixes_ordered::<T>(t);
        // the first element need not follow the second, so it stays in front
        assert(t.insert(0, s[0]) =~= s);
    }
}

/// Where the comparison is a strict weak order on the elements of `s`,
/// sorting twice gives what sorting once gives.
pub proof fn lemma_sorted_idempotent<T: Ranked>(s: Seq<T::V>)
    requires
        orders_weakly::<T>(s),
    ensures
        sorted::<T>(sorted::<T>(s)) == sorted::<T>(s),
{
    lemma_sorted_in_order::<T>(s);
    lemma_sorted_fixes_ordered::<T>(sorted::<T>(s));
}

/// Sorts `v` by `comes_after`, keeping ties in the order they came in.
pub fn stable_sort<T: Ranked>(v: Vec<T>) -> (out: Vec<T>)
    ensures
        views(out@) == sorted::<T>(views(v@)),
{
    let ghost all = views(v@);
    let mut rest = v;
    let mut out: Vec<T> = Vec::new();
    while rest.len() > 0
        invariant
            rest.len() <= all.len(),
            views(rest@) == all.subrange(0, rest.len() as int),
            views(out@) == sorted::<T>(all.subrange(rest.len() as int, all.len() as int)),
        decreases rest.len(),
    {
        let ghost before = views(out@);
        let ghost tail = all.subrange(rest.len() - 1, all.len() as int);
        let x = rest.pop().unwrap();
        assert(x@ == all[rest.len() as int]) by {
            assert(all.subrange(0, rest.len() + 1)[rest.len() as int] == x@);
        }
        assert(tail.drop_first() =~= all.subrange(rest.len() + 1, all.len() as int));
        let mut p: usize = 0;
        loop
            invariant
                p <= out.len(),
                views(out@) == before,
                forall|k: int| 0 <= k < p ==> T::after(x@, #[trigger] before[k]),
            ensures
                p <= out.len(),
                p < out.len() ==> !T::after(x@, before[p as int]),
            decreases out.len() - p,
        {
            if p == out.len() {
                break ;
            }
            let after = x.comes_after(&out[p]);
            if !after {
                break ;
            }
            p += 1;
        }
        proof {
            lemma_insertion_point::<T>(x@, before, p as int);
        }
        out.insert(p, x);
    }
    assert(all.subrange(0, all.len() as int) =~= all);
    out
}

/// Sorts names into natural order.
pub fn sort_names(names: Vec<String>) -> (out: Vec<String>)
    ensures
        views(out@) == natural_sort(views(names@)),
{
    stable_sort(names)
}

} // verus!
