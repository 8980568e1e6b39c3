//! Insertion into ordered sequences, and what it preserves.

use vstd::prelude::*;

verus! {

/// Where `x` goes: behind the last element that it does not come before.
pub open spec fn place_index<T>(s: Seq<T>, x: T, before: spec_fn(T, T) -> bool) -> int
    decreases s.len(),
{
    if s.len() == 0 || !before(x, s.last()) {
        s.len() as int
    } else {
        place_index(s.drop_last(), x, before)
    }
}

/// The sequence with `x` in its place.
pub open spec fn placed<T>(s: Seq<T>, x: T, before: spec_fn(T, T) -> bool) -> Seq<T> {
    s.insert(place_index(s, x, before), x)
}

/// The elements in order; elements that tie keep their order.
pub open spec fn arranged<T>(s: Seq<T>, before: spec_fn(T, T) -> bool) -> Seq<T>
    decreases s.len(),
{
    if s.len() == 0 {
        s
    } else {
        placed(arranged(s.drop_last(), before), s.last(), before)
    }
}

/// No element comes before one that stands ahead of it.
pub open spec fn in_order<T>(s: Seq<T>, before: spec_fn(T, T) -> bool) -> bool {
    forall|i: int, j: int| 0 <= i < j < s.len() ==> !before(#[trigger] s[j], #[trigger] s[i])
}

/// Elements are compared by a strict weak order.
pub open spec fn strict_order<T>(before: spec_fn(T, T) -> bool) -> bool {
    &&& forall|a: T, b: T| #[trigger] before(a, b) ==> !before(b, a)
    &&& forall|a: T, b: T, c: T|
        !(#[trigger] before(b, a)) && !(#[trigger] before(c, b)) ==> !before(c, a)
}

/// The place is inside the sequence, everything behind it comes after `x`, and
/// the element just ahead of it does not.
pub proof fn lemma_place_index<T>(s: Seq<T>, x: T, before: spec_fn(T, T) -> bool)
    ensures
        0 <= place_index(s, x, before) <= s.len(),
        forall|i: int|
            place_index(s, x, before) <= i < s.len() ==> before(x, #[trigger] s[i]),
        place_index(s, x, before) > 0 ==> !before(x, s[place_index(s, x, before) - 1]),
    decreases s.len(),
{
    if s.len() > 0 && before(x, s.last()) {
        lemma_place_index(s.drop_last(), x, before);
        assert forall|i: int| place_index(s, x, before) <= i < s.len() implies before(
            x,
            #[trigger] s[i],
        ) by {
            if i < s.len() - 1 {
                assert(s.drop_last()[i] == s[i]);
            }
        }
    }
}

/// The place is determined by what stands on either side of it.
pub proof fn lemma_place_index_is<T>(s: Seq<T>, x: T, before: spec_fn(T, T) -> bool, k: int)
    requires
        0 <= k <= s.len(),
        forall|i: int| k <= i < s.len() ==> before(x, #[trigger] s[i]),
        k > 0 ==> !before(x, s[k - 1]),
    ensures
        place_index(s, x, before) == k,
    decreases s.len(),
{
    if s.len() > k {
        assert(before(x, s[s.len() - 1]));
        assert forall|i: int| k <= i < s.drop_last().len() implies before(
            x,
            #[trigger] s.drop_last()[i],
        ) by {
            assert(before(x, s[i]));
        }
        lemma_place_index_is(s.drop_last(), x, before, k);
    }
}

/// Placing an element keeps a sequence in order.
pub proof fn lemma_placed_in_order<T>(s: Seq<T>, x: T, before: spec_fn(T, T) -> bool)
    requires
        strict_order(before),
        in_order(s, before),
    ensures
        in_order(placed(s, x, before), before),
{
    lemma_place_index(s, x, before);
    let p = place_index(s, x, before);
    let out = placed(s, x, before);
    assert forall|i: int, j: int| 0 <= i < j < out.len() implies !before(
        #[trigger] out[j],
        #[trigger] out[i],
    ) by {
        let a = if i < p {
            i
        } else {
            i - 1
        };
        let b = if j < p {
            j
        } else {
            j - 1
        };
        if i == p {
            assert(before(x, s[b]));
        } else if j == p {
            if i < p - 1 {
                assert(!before(s[p - 1], s[i]));
                assert(!before(x, s[p - 1]));
            }
        } else {
            assert(!before(s[b], s[a]));
        }
    }
}

/// Arranging puts the elements in order and neither drops, adds nor changes
/// one.
pub proof fn arranged_is_an_ordering<T>(s: Seq<T>, before: spec_fn(T, T) -> bool)
    requires
        strict_order(before),
    ensures
        in_order(arranged(s, before), before),
        arranged(s, before).len() == s.len(),
        arranged(s, before).to_multiset() == s.to_multiset(),
    decreases s.len(),
{
    broadcast use vstd::seq_lib::group_to_multiset_ensures;

    if s.len() > 0 {
        let rest = s.drop_last();
        let inner = arranged(rest, before);
        arranged_is_an_ordering(rest, before);
        lemma_placed_in_order(inner, s.last(), before);
        lemma_place_index(inner, s.last(), before);
        assert(s =~= rest.push(s.last()));
        vstd::seq_lib::to_multiset_insert(inner, place_index(inner, s.last(), before), s.last());
    }
}

/// What holds of every element still holds of every element once they are
/// arranged.
pub proof fn lemma_arranged_all<T>(
    s: Seq<T>,
    before: spec_fn(T, T) -> bool,
    p: spec_fn(T) -> bool,
)
    requires
        forall|i: int| 0 <= i < s.len() ==> p(#[trigger] s[i]),
    ensures
        arranged(s, before).len() == s.len(),
        forall|i: int| 0 <= i < s.len() ==> p(#[trigger] arranged(s, before)[i]),
    decreases s.len(),
{
    if s.len() > 0 {
        let rest = s.drop_last();
        assert forall|i: int| 0 <= i < rest.len() implies p(#[trigger] rest[i]) by {
            assert(p(s[i]));
        }
        lemma_arranged_all(rest, before, p);
        let inner = arranged(rest, before);
        lemma_place_index(inner, s.last(), before);
        let k = place_index(inner, s.last(), before);
        let out = arranged(s, before);
        assert forall|i: int| 0 <= i < s.len() implies p(#[trigger] out[i]) by {
            if i < k {
                assert(p(inner[i]));
            } else if i == k {
                assert(p(s[s.len() - 1]));
            } else {
                assert(p(inner[i - 1]));
            }
        }
    }
}

/// Elements that differ pairwise still differ pairwise once they are arranged.
pub proof fn lemma_arranged_distinct<T>(
    s: Seq<T>,
    before: spec_fn(T, T) -> bool,
    same: spec_fn(T, T) -> bool,
)
    requires
        forall|a: T, b: T| #[trigger] same(a, b) == same(b, a),
        forall|i: int, j: int|
            0 <= i < j < s.len() ==> !same(#[trigger] s[i], #[trigger] s[j]),
    ensures
        arranged(s, before).len() == s.len(),
        forall|i: int, j: int|
            0 <= i < j < s.len() ==> !same(
                #[trigger] arranged(s, before)[i],
                #[trigger] arranged(s, before)[j],
            ),
    decreases s.len(),
{
    if s.len() > 0 {
        let rest = s.drop_last();
        let x = s.last();
        assert forall|i: int, j: int| 0 <= i < j < rest.len() implies !same(
            #[trigger] rest[i],
            #[trigger] rest[j],
        ) by {
            assert(!same(s[i], s[j]));
        }
        lemma_arranged_distinct(rest, before, same);
        let inner = arranged(rest, before);
        assert forall|i: int| 0 <= i < rest.len() implies (|a: T| !same(a, x))(
            #[trigger] rest[i],
        ) by {
            assert(!same(s[i], s[s.len() - 1]));
        }
        lemma_arranged_all(rest, before, |a: T| !same(a, x));
        lemma_place_index(inner, x, before);
        let k = place_index(inner, x, before);
        let out = arranged(s, before);
        assert forall|i: int, j: int| 0 <= i < j < s.len() implies !same(
            #[trigger] out[i],
            #[trigger] out[j],
        ) by {
            let a = if i < k {
                i
            } else {
                i - 1
            };
            let b = if j < k {
                j
            } else {
                j - 1
            };
            if i == k {
                assert((|a: T| !same(a, x))(inner[b]));
                assert(same(inner[b], x) == same(x, inner[b]));
            } else if j == k {
                assert((|a: T| !same(a, x))(inner[a]));
            } else {
                assert(!same(inner[a], inner[b]));
            }
        }
    }
}

/// The first `k` elements after placing depend on the first `k` before it
/// alone.
pub proof fn lemma_placed_prefix<T>(s: Seq<T>, x: T, before: spec_fn(T, T) -> bool, k: int)
    requires
        strict_order(before),
        in_order(s, before),
        0 <= k <= s.len(),
    ensures
        placed(s, x, before).take(k) == placed(s.take(k), x, before).take(k),
{
    let head = s.take(k);
    lemma_place_index(s, x, before);
    lemma_place_index(head, x, before);
    let p = place_index(s, x, before);
    if p <= k {
        assert forall|i: int| p <= i < head.len() implies before(x, #[trigger] head[i]) by {
            assert(before(x, s[i]));
        }
        lemma_place_index_is(head, x, before, p);
    } else {
        if k > 0 {
            if before(x, s[k - 1]) {
                if p - 1 > k - 1 {
                    assert(!before(s[p - 1], s[k - 1]));
                }
                assert(!before(x, s[p - 1]));
                assert(before(x, s[k - 1]));
                assert(!before(s[k - 1], x));
            }
            assert(!before(x, head[k - 1]));
        }
        lemma_place_index_is(head, x, before, k);
    }
    assert(placed(s, x, before).take(k) =~= placed(head, x, before).take(k));
}

/// Any two different elements of the sequence are comparable.
pub open spec fn comparable<T>(s: Seq<T>, before: spec_fn(T, T) -> bool) -> bool {
    forall|x: T, y: T| #[trigger]
        s.contains(x) && #[trigger] s.contains(y) && x != y ==> before(x, y) || before(y, x)
}

/// Two sequences of the same elements contain the same elements.
pub proof fn lemma_same_members<T>(s: Seq<T>, t: Seq<T>)
    requires
        s.to_multiset() == t.to_multiset(),
    ensures
        s.len() == t.len(),
        forall|x: T| s.contains(x) == t.contains(x),
{
    broadcast use vstd::seq_lib::group_to_multiset_ensures;

    s.to_multiset_ensures();
    t.to_multiset_ensures();
    assert forall|x: T| s.contains(x) == t.contains(x) by {
        assert(s.contains(x) <==> s.to_multiset().count(x) > 0);
        assert(t.contains(x) <==> t.to_multiset().count(x) > 0);
    }
}

/// There is only one way to put comparable elements in order.
pub proof fn orderings_agree<T>(s: Seq<T>, t: Seq<T>, before: spec_fn(T, T) -> bool)
    requires
        strict_order(before),
        in_order(s, before),
        in_order(t, before),
        comparable(s, before),
        s.to_multiset() == t.to_multiset(),
    ensures
        s == t,
    decreases s.len(),
{
    broadcast use vstd::seq_lib::group_to_multiset_ensures;

    lemma_same_members(s, t);
    if s.len() > 0 {
        let x = s.last();
        let y = t.last();
        assert(s.contains(x));
        assert(t.contains(y));
        let j = choose|j: int| 0 <= j < t.len() && t[j] == x;
        let k = choose|k: int| 0 <= k < s.len() && s[k] == y;
        if x != y {
            assert(!before(t[t.len() - 1], t[j]));
            assert(!before(s[s.len() - 1], s[k]));
            assert(false);
        }
        let (a, b) = (s.drop_last(), t.drop_last());
        assert(s =~= a.push(x));
        assert(t =~= b.push(y));
        assert(s.to_multiset() == a.to_multiset().insert(x));
        assert(t.to_multiset() == b.to_multiset().insert(x));
        assert(a.to_multiset() =~= s.to_multiset().remove(x));
        assert(b.to_multiset() =~= t.to_multiset().remove(x));
        assert forall|p: T, q: T| #[trigger]
            a.contains(p) && #[trigger] a.contains(q) && p != q implies before(p, q) || before(
            q,
            p,
        ) by {
            let m = choose|m: int| 0 <= m < a.len() && a[m] == p;
            let n = choose|n: int| 0 <= n < a.len() && a[n] == q;
            assert(s[m] == p && s[n] == q);
            assert(s.contains(p) && s.contains(q));
        }
        orderings_agree(a, b, before);
        assert(s =~= t);
    } else {
        assert(s =~= t);
    }
}

/// Arranging comparable elements gives the same sequence whatever order they
/// came in.
pub proof fn arrangements_agree<T>(s: Seq<T>, t: Seq<T>, before: spec_fn(T, T) -> bool)
    requires
        strict_order(before),
        comparable(s, before),
        s.to_multiset() == t.to_multiset(),
    ensures
        arranged(s, before) == arranged(t, before),
{
    arranged_is_an_ordering(s, before);
    arranged_is_an_ordering(t, before);
    let (a, b) = (arranged(s, before), arranged(t, before));
    lemma_same_members(a, s);
    orderings_agree(a, b, before);
}

/// Mapping keeps the place of an element where it keeps the order.
proof fn lemma_place_mapped<A, B>(
    s: Seq<A>,
    x: A,
    f: spec_fn(A) -> B,
    fits: spec_fn(A) -> bool,
    before: spec_fn(A, A) -> bool,
    mapped: spec_fn(B, B) -> bool,
)
    requires
        fits(x),
        forall|i: int| 0 <= i < s.len() ==> fits(#[trigger] s[i]),
        forall|a: A, b: A| fits(a) && fits(b) ==> #[trigger] before(a, b) == mapped(f(a), f(b)),
    ensures
        place_index(s.map_values(f), f(x), mapped) == place_index(s, x, before),
    decreases s.len(),
{
    if s.len() > 0 {
        let rest = s.drop_last();
        assert(fits(s[s.len() - 1]));
        assert(before(x, s.last()) == mapped(f(x), f(s.last())));
        assert(s.map_values(f).last() == f(s.last()));
        assert(s.map_values(f).drop_last() =~= rest.map_values(f));
        assert forall|i: int| 0 <= i < rest.len() implies fits(#[trigger] rest[i]) by {
            assert(fits(s[i]));
        }
        lemma_place_mapped(rest, x, f, fits, before, mapped);
    }
}

/// Mapping the elements in order puts what they are mapped to in order, where the
/// mapping keeps the order.
pub proof fn lemma_arranged_mapped<A, B>(
    s: Seq<A>,
    f: spec_fn(A) -> B,
    fits: spec_fn(A) -> bool,
    before: spec_fn(A, A) -> bool,
    mapped: spec_fn(B, B) -> bool,
)
    requires
        forall|i: int| 0 <= i < s.len() ==> fits(#[trigger] s[i]),
        forall|a: A, b: A| fits(a) && fits(b) ==> #[trigger] before(a, b) == mapped(f(a), f(b)),
    ensures
        arranged(s.map_values(f), mapped) == arranged(s, before).map_values(f),
    decreases s.len(),
{
    if s.len() > 0 {
        let rest = s.drop_last();
        let x = s.last();
        assert forall|i: int| 0 <= i < rest.len() implies fits(#[trigger] rest[i]) by {
            assert(fits(s[i]));
        }
        assert(fits(s[s.len() - 1]));
        lemma_arranged_mapped(rest, f, fits, before, mapped);
        assert(s.map_values(f).drop_last() =~= rest.map_values(f));
        assert(s.map_values(f).last() == f(x));
        let inner = arranged(rest, before);
        lemma_arranged_all(rest, before, fits);
        lemma_place_mapped(inner, x, f, fits, before, mapped);
        lemma_place_index(inner, x, before);
        let k = place_index(inner, x, before);
        assert(inner.insert(k, x).map_values(f) =~= inner.map_values(f).insert(k, f(x)));
    } else {
        assert(arranged(s.map_values(f), mapped) =~= arranged(s, before).map_values(f));
    }
}

} // verus!
