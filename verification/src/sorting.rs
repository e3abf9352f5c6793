//! Stable insertion sort as a specification, with the facts that make its
//! result the sorted arrangement of its input.

use vstd::prelude::*;

verus! {

/// `before` never holds both ways, and where it fails from `a` to `b` and
/// from `b` to `c` it fails from `a` to `c`: the order of a ranking in
/// which several items may share a rank.
pub open spec fn is_ranking<T>(before: spec_fn(T, T) -> bool) -> bool {
    &&& forall|a: T, b: T| #[trigger] before(a, b) ==> !before(b, a)
    &&& forall|a: T, b: T, c: T|
        !#[trigger] before(a, b) && !#[trigger] before(b, c) ==> !before(a, c)
}

/// No item of the list stands after an item that goes before it.
pub open spec fn is_ascending<T>(s: Seq<T>, before: spec_fn(T, T) -> bool) -> bool {
    forall|p: int, q: int| 0 <= p < q < s.len() ==> !before(#[trigger] s[q], #[trigger] s[p])
}

/// `s` with `x` put behind the last item that `x` does not go before.
pub open spec fn inserted<T>(s: Seq<T>, x: T, before: spec_fn(T, T) -> bool) -> Seq<T>
    decreases s.len(),
{
    if s.len() == 0 {
        seq![x]
    } else if before(x, s.last()) {
        inserted(s.drop_last(), x, before).push(s.last())
    } else {
        s.push(x)
    }
}

/// The items of `s` sorted by `before`; items of equal rank keep the order
/// they have in `s`.
pub open spec fn sorted_by<T>(s: Seq<T>, before: spec_fn(T, T) -> bool) -> Seq<T>
    decreases s.len(),
{
    if s.len() == 0 {
        Seq::empty()
    } else {
        inserted(sorted_by(s.drop_last(), before), s.last(), before)
    }
}

/// Where `x` goes before every item from position `p` on and not before
/// the item in front of `p`, inserting `x` puts it at position `p`.
pub proof fn inserted_at<T>(s: Seq<T>, x: T, before: spec_fn(T, T) -> bool, p: int)
    requires
        0 <= p <= s.len(),
        p > 0 ==> !before(x, s[p - 1]),
        forall|q: int| p <= q < s.len() ==> before(x, #[trigger] s[q]),
    ensures
        inserted(s, x, before) == s.insert(p, x),
    decreases s.len(),
{
    if s.len() == 0 {
        assert(s.insert(p, x) =~= seq![x]);
    } else if p == s.len() {
        assert(s.insert(p, x) =~= s.push(x));
    } else {
        assert(before(x, s[s.len() - 1]));
        inserted_at(s.drop_last(), x, before, p);
        assert(s.drop_last().insert(p, x).push(s.last()) =~= s.insert(p, x));
    }
}

/// Inserting adds one item and keeps the others.
pub proof fn inserted_holds<T>(s: Seq<T>, x: T, before: spec_fn(T, T) -> bool)
    ensures
        inserted(s, x, before).len() == s.len() + 1,
        inserted(s, x, before).to_multiset() == s.to_multiset().insert(x),
    decreases s.len(),
{
    broadcast use vstd::seq_lib::group_to_multiset_ensures;

    if s.len() == 0 {
        assert(seq![x] =~= Seq::<T>::empty().push(x));
        assert(s =~= Seq::<T>::empty());
    } else if before(x, s.last()) {
        inserted_holds(s.drop_last(), x, before);
        assert(s.drop_last().push(s.last()) =~= s);
        assert(s.drop_last().to_multiset().insert(x).insert(s.last()) =~= s.drop_last().to_multiset().insert(
            s.last(),
        ).insert(x));
    }
}

/// Inserting into an ascending list gives an ascending list.
pub proof fn inserted_is_ascending<T>(s: Seq<T>, x: T, before: spec_fn(T, T) -> bool)
    requires
        is_ranking(before),
        is_ascending(s, before),
    ensures
        is_ascending(inserted(s, x, before), before),
    decreases s.len(),
{
    let out = inserted(s, x, before);
    if s.len() == 0 {
    } else if before(x, s.last()) {
        let rest = s.drop_last();
        assert forall|p: int, q: int| 0 <= p < q < rest.len() implies !before(
            #[trigger] rest[q],
            #[trigger] rest[p],
        ) by {
            assert(rest[q] == s[q] && rest[p] == s[p]);
        }
        inserted_is_ascending(rest, x, before);
        inserted_holds(rest, x, before);
        let front = inserted(rest, x, before);
        assert forall|p: int, q: int| 0 <= p < q < out.len() implies !before(
            #[trigger] out[q],
            #[trigger] out[p],
        ) by {
            if q < front.len() {
                assert(out[q] == front[q] && out[p] == front[p]);
            } else {
                assert(out[q] == s.last());
                assert(out[p] == front[p]);
                item_of_inserted(rest, x, before, p);
                if front[p] == x {
                } else {
                    let j = choose|j: int| 0 <= j < rest.len() && rest[j] == front[p];
                    assert(s[j] == rest[j]);
                    assert(!before(s[s.len() - 1], s[j]));
                }
            }
        }
    } else {
        assert forall|p: int, q: int| 0 <= p < q < out.len() implies !before(
            #[trigger] out[q],
            #[trigger] out[p],
        ) by {
            if q < s.len() {
                assert(out[q] == s[q] && out[p] == s[p]);
            } else {
                assert(out[q] == x);
                assert(out[p] == s[p]);
                if p < s.len() - 1 {
                    assert(!before(s[s.len() - 1], s[p]));
                }
            }
        }
    }
}

/// Every item of the list after inserting is the inserted item or an item
/// of the list before.
pub proof fn item_of_inserted<T>(s: Seq<T>, x: T, before: spec_fn(T, T) -> bool, p: int)
    requires
        0 <= p < inserted(s, x, before).len(),
    ensures
        inserted(s, x, before)[p] == x || exists|j: int|
            0 <= j < s.len() && s[j] == inserted(s, x, before)[p],
    decreases s.len(),
{
    if s.len() == 0 {
    } else if before(x, s.last()) {
        inserted_holds(s.drop_last(), x, before);
        if p < s.len() {
            item_of_inserted(s.drop_last(), x, before, p);
            let front = inserted(s.drop_last(), x, before);
            if front[p] != x {
                let j = choose|j: int| 0 <= j < s.drop_last().len() && s.drop_last()[j] == front[p];
                assert(s[j] == front[p]);
            }
        } else {
            assert(s[s.len() - 1] == inserted(s, x, before)[p]);
        }
    } else {
        if p < s.len() {
            assert(s[p] == inserted(s, x, before)[p]);
        }
    }
}

/// Sorting rearranges: the result holds the items of the input, each as
/// often as the input does.
pub proof fn sorted_is_rearranged<T>(s: Seq<T>, before: spec_fn(T, T) -> bool)
    ensures
        sorted_by(s, before).len() == s.len(),
        sorted_by(s, before).to_multiset() == s.to_multiset(),
    decreases s.len(),
{
    broadcast use vstd::seq_lib::group_to_multiset_ensures;

    if s.len() == 0 {
        assert(s =~= Seq::<T>::empty());
    } else {
        sorted_is_rearranged(s.drop_last(), before);
        inserted_holds(sorted_by(s.drop_last(), before), s.last(), before);
        assert(s.drop_last().push(s.last()) =~= s);
    }
}

/// Sorting by a ranking gives an ascending list.
pub proof fn sorted_is_ascending<T>(s: Seq<T>, before: spec_fn(T, T) -> bool)
    requires
        is_ranking(before),
    ensures
        is_ascending(sorted_by(s, before), before),
    decreases s.len(),
{
    if s.len() > 0 {
        sorted_is_ascending(s.drop_last(), before);
        inserted_is_ascending(sorted_by(s.drop_last(), before), s.last(), before);
    }
}

} // verus!
