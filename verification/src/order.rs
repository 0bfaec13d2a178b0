//! Putting things in order without moving things that tie.
use vstd::prelude::*;

use crate::seqs;

verus! {

/// Things that one can put in order.
pub trait Ranked: Sized {
    /// Whether `self` belongs strictly before `other`.
    spec fn precedes(self, other: Self) -> bool;

    /// Of two things, not both belong before the other.
    proof fn precedes_is_asymmetric(a: Self, b: Self)
        ensures
            a.precedes(b) ==> !b.precedes(a),
    ;

    /// What does not belong before `b`, when `b` does not belong before `c`, does not belong
    /// before `c`.
    proof fn precedes_is_negatively_transitive(a: Self, b: Self, c: Self)
        ensures
            !a.precedes(b) && !b.precedes(c) ==> !a.precedes(c),
    ;
}

/// Values whose models are ranked, with a way to tell which of two belongs first.
pub trait Sortable: DeepView + Sized where <Self as DeepView>::V: Ranked {
    /// Whether `self` belongs strictly before `other`.
    fn comes_before(&self, other: &Self) -> (before: bool)
        ensures
            before == self.deep_view().precedes(other.deep_view()),
    ;
}

/// Whether neither of two things belongs before the other.
pub open spec fn tied<T: Ranked>(a: T, b: T) -> bool {
    !a.precedes(b) && !b.precedes(a)
}

/// Whether nothing in `s` stands behind something that it belongs before.
pub open spec fn in_order<T: Ranked>(s: Seq<T>) -> bool {
    forall|i: int, j: int| 0 <= i < j < s.len() ==> !(#[trigger] s[j]).precedes(#[trigger] s[i])
}

/// The things in `s` that tie with `x`, in the order in which they stand.
pub open spec fn ties_with<T: Ranked>(s: Seq<T>, x: T) -> Seq<T> {
    s.filter(|y: T| tied(x, y))
}

/// Whether `sorted` holds what `items` holds, in order, with things that tie left in the order
/// in which they stand in `items`.
pub open spec fn stable_order_of<T: Ranked>(sorted: Seq<T>, items: Seq<T>) -> bool {
    &&& in_order(sorted)
    &&& sorted.to_multiset() == items.to_multiset()
    &&& forall|x: T| #[trigger] ties_with(sorted, x) == ties_with(items, x)
}

/// The things of `items` in order, with things that tie left in the order in which they stand.
pub open spec fn ordered<T: Ranked>(items: Seq<T>) -> Seq<T> {
    choose|sorted: Seq<T>| stable_order_of(sorted, items)
}

proof fn lemma_no_ties<T: Ranked>(s: Seq<T>, x: T)
    requires
        forall|i: int| 0 <= i < s.len() ==> !tied(x, #[trigger] s[i]),
    ensures
        ties_with(s, x) == Seq::<T>::empty(),
    decreases s.len(),
{
    reveal(Seq::filter);
    if s.len() > 0 {
        lemma_no_ties(s.drop_last(), x);
    }
}

proof fn lemma_ties_of_parts<T: Ranked>(a: Seq<T>, b: Seq<T>, x: T)
    ensures
        ties_with(a + b, x) == ties_with(a, x) + ties_with(b, x),
{
    Seq::filter_distributes_over_add(a, b, |y: T| tied(x, y));
}

proof fn lemma_ties_of_one<T: Ranked>(v: T, x: T)
    ensures
        ties_with(seq![v], x) == if tied(x, v) {
            seq![v]
        } else {
            Seq::empty()
        },
{
    reveal(Seq::filter);
    assert(seq![v].drop_last() == Seq::<T>::empty());
    assert(seq![v].drop_last().filter(|y: T| tied(x, y)) =~= Seq::<T>::empty());
}

/// Putting `v` into `sorted` right before the things that it belongs before keeps the order,
/// and puts it behind the things it ties with.
proof fn lemma_insert_keeps_order<T: Ranked>(sorted: Seq<T>, items: Seq<T>, v: T, p: int)
    requires
        stable_order_of(sorted, items),
        0 <= p <= sorted.len(),
        forall|i: int| p <= i < sorted.len() ==> v.precedes(#[trigger] sorted[i]),
        p > 0 ==> !v.precedes(sorted[p - 1]),
    ensures
        stable_order_of(sorted.insert(p, v), items.push(v)),
{
    let result = sorted.insert(p, v);
    let head = sorted.take(p);
    let tail = sorted.skip(p);
    assert(sorted =~= head + tail);
    assert(result =~= head + seq![v] + tail);
    assert(items.push(v) =~= items + seq![v]);
    assert forall|i: int, j: int| 0 <= i < j < result.len() implies !(
    #[trigger] result[j]).precedes(#[trigger] result[i]) by {
        if j < p {
            assert(result[j] == sorted[j] && result[i] == sorted[i]);
        } else if j == p {
            assert(result[i] == sorted[i]);
            if i < p - 1 {
                T::precedes_is_negatively_transitive(v, sorted[p - 1], sorted[i]);
            }
        } else {
            assert(result[j] == sorted[j - 1]);
            if i == p {
                T::precedes_is_asymmetric(v, sorted[j - 1]);
            } else if i < p {
                assert(result[i] == sorted[i]);
            } else {
                assert(result[i] == sorted[i - 1]);
            }
        }
    }
    assert(result.to_multiset() == items.push(v).to_multiset()) by {
        vstd::seq_lib::to_multiset_insert(sorted, p, v);
        vstd::seq_lib::to_multiset_build(items, v);
    }
    assert forall|x: T| #[trigger] ties_with(result, x) == ties_with(items.push(v), x) by {
        lemma_ties_of_parts(head + seq![v], tail, x);
        lemma_ties_of_parts(head, seq![v], x);
        lemma_ties_of_parts(head, tail, x);
        lemma_ties_of_parts(items, seq![v], x);
        lemma_ties_of_one(v, x);
        if tied(x, v) {
            assert forall|i: int| 0 <= i < tail.len() implies !tied(x, #[trigger] tail[i]) by {
                assert(v.precedes(sorted[p + i]));
                if tied(x, tail[i]) {
                    T::precedes_is_negatively_transitive(v, x, tail[i]);
                }
            }
            lemma_no_ties(tail, x);
            assert(ties_with(result, x) =~= ties_with(head, x) + seq![v]);
            assert(ties_with(sorted, x) =~= ties_with(head, x));
        } else {
            assert(ties_with(result, x) =~= ties_with(head, x) + ties_with(tail, x));
            assert(ties_with(items.push(v), x) =~= ties_with(items, x));
        }
    }
}

/// The place before which nothing in `sorted` has to make way for `v`.
proof fn lemma_place_for<T: Ranked>(sorted: Seq<T>, v: T) -> (p: int)
    ensures
        0 <= p <= sorted.len(),
        forall|i: int| p <= i < sorted.len() ==> v.precedes(#[trigger] sorted[i]),
        p > 0 ==> !v.precedes(sorted[p - 1]),
    decreases sorted.len(),
{
    if sorted.len() == 0 || !v.precedes(sorted.last()) {
        sorted.len() as int
    } else {
        let shorter = sorted.drop_last();
        let p = lemma_place_for(shorter, v);
        assert forall|i: int| p <= i < sorted.len() implies v.precedes(#[trigger] sorted[i]) by {
            if i < shorter.len() {
                assert(shorter[i] == sorted[i]);
            }
        }
        p
    }
}

proof fn lemma_stable_order_exists<T: Ranked>(items: Seq<T>) -> (sorted: Seq<T>)
    ensures
        stable_order_of(sorted, items),
    decreases items.len(),
{
    if items.len() == 0 {
        items
    } else {
        let before = lemma_stable_order_exists(items.drop_last());
        let p = lemma_place_for(before, items.last());
        lemma_insert_keeps_order(before, items.drop_last(), items.last(), p);
        assert(items.drop_last().push(items.last()) == items);
        before.insert(p, items.last())
    }
}

/// Everything can be put in order.
pub proof fn ordered_is_stable_order<T: Ranked>(items: Seq<T>)
    ensures
        stable_order_of(ordered(items), items),
{
    let sorted = lemma_stable_order_exists(items);
    assert(stable_order_of(sorted, items));
}

/// The items in order, with items that tie left in the order in which they came.
pub fn put_in_order<T: Sortable>(items: Vec<T>) -> (sorted: Vec<T>) where
    <T as DeepView>::V: Ranked,

    ensures
        stable_order_of(sorted.deep_view(), items.deep_view()),
        sorted.deep_view() == ordered(items.deep_view()),
{
    let mut sorted: Vec<T> = Vec::new();
    let ghost all = items@;
    let ghost models = items.deep_view();
    assert(sorted.deep_view() == models.take(0));
    for item in iter: items
        invariant
            iter.seq() == all,
            models.len() == all.len(),
            forall|i: int| 0 <= i < all.len() ==> models[i] == (#[trigger] all[i]).deep_view(),
            stable_order_of(sorted.deep_view(), models.take(iter.index())),
    {
        let mut p: usize = sorted.len();
        let ghost done = iter.index();
        while p > 0 && item.comes_before(&sorted[p - 1])
            invariant
                p <= sorted@.len(),
                forall|i: int|
                    p <= i < sorted@.len() ==> item.deep_view().precedes(
                        #[trigger] sorted.deep_view()[i],
                    ),
            decreases p,
        {
            assert(sorted.deep_view()[p - 1] == sorted@[p - 1].deep_view());
            p = p - 1;
        }
        proof {
            if p > 0 {
                assert(sorted.deep_view()[p - 1] == sorted@[p - 1].deep_view());
            }
            lemma_insert_keeps_order(
                sorted.deep_view(),
                models.take(done),
                item.deep_view(),
                p as int,
            );
            assert(models.take(done).push(item.deep_view()) == models.take(done + 1));
        }
        let ghost before = sorted.deep_view();
        let ghost model = item.deep_view();
        sorted.insert(p, item);
        assert(sorted.deep_view() == before.insert(p as int, model));
    }
    assert(models.take(all.len() as int) == models);
    proof {
        ordered_is_stable_order(models);
        stable_order_is_unique(sorted.deep_view(), ordered(models), models);
    }
    sorted
}

/// There is only one such order: `stable_order_of` fixes the result.
pub proof fn stable_order_is_unique<T: Ranked>(a: Seq<T>, b: Seq<T>, items: Seq<T>)
    requires
        stable_order_of(a, items),
        stable_order_of(b, items),
    ensures
        a == b,
{
    assert forall|x: T| #[trigger] ties_with(a, x) == ties_with(b, x) by {
        assert(ties_with(a, x) == ties_with(items, x));
        assert(ties_with(b, x) == ties_with(items, x));
    }
    vstd::seq_lib::to_multiset_len(a);
    vstd::seq_lib::to_multiset_len(b);
    lemma_same_ties_same_order(a, b);
}

proof fn lemma_same_ties_same_order<T: Ranked>(a: Seq<T>, b: Seq<T>)
    requires
        in_order(a),
        in_order(b),
        a.len() == b.len(),
        forall|x: T| #[trigger] ties_with(a, x) == ties_with(b, x),
    ensures
        a == b,
    decreases a.len(),
{
    if a.len() == 0 {
        assert(a =~= b);
    } else {
        let x = a.last();
        let y = b.last();
        lemma_last_tie(a);
        lemma_last_tie(b);
        T::precedes_is_asymmetric(x, x);
        T::precedes_is_asymmetric(y, y);
        // The last of one ties with something in the other, and neither last precedes anything.
        assert(ties_with(b, x).len() > 0);
        assert(ties_with(a, y).len() > 0);
        let i = lemma_tie_witness(b, x);
        let j = lemma_tie_witness(a, y);
        T::precedes_is_negatively_transitive(y, b[i], x);
        T::precedes_is_negatively_transitive(x, a[j], y);
        if i < b.len() - 1 {
            assert(!y.precedes(b[i]));
        }
        if j < a.len() - 1 {
            assert(!x.precedes(a[j]));
        }
        assert(tied(x, y));
        assert(ties_with(a, x).last() == x);
        lemma_last_tie_with(b, x);
        assert(x == y);
        let a1 = a.drop_last();
        let b1 = b.drop_last();
        assert(a =~= a1 + seq![x]);
        assert(b =~= b1 + seq![x]);
        assert forall|z: T| #[trigger] ties_with(a1, z) == ties_with(b1, z) by {
            lemma_ties_of_parts(a1, seq![x], z);
            lemma_ties_of_parts(b1, seq![x], z);
            assert(ties_with(a, z) == ties_with(b, z));
            let t = ties_with(seq![x], z);
            let p = ties_with(a1, z);
            let q = ties_with(b1, z);
            assert(p.len() == q.len());
            assert forall|k: int| 0 <= k < p.len() implies p[k] == q[k] by {
                assert((p + t)[k] == p[k]);
                assert((q + t)[k] == q[k]);
            }
            assert(p =~= q);
        }
        lemma_same_ties_same_order(a1, b1);
    }
}

/// The last thing of a sequence is the last of those that tie with it.
proof fn lemma_last_tie<T: Ranked>(s: Seq<T>)
    requires
        s.len() > 0,
    ensures
        ties_with(s, s.last()).len() > 0,
        ties_with(s, s.last()).last() == s.last(),
{
    let x = s.last();
    T::precedes_is_asymmetric(x, x);
    assert(s =~= s.drop_last() + seq![x]);
    lemma_ties_of_parts(s.drop_last(), seq![x], x);
    lemma_ties_of_one(x, x);
}

proof fn lemma_last_tie_with<T: Ranked>(s: Seq<T>, x: T)
    requires
        s.len() > 0,
        tied(x, s.last()),
    ensures
        ties_with(s, x).len() > 0,
        ties_with(s, x).last() == s.last(),
{
    let y = s.last();
    assert(s =~= s.drop_last() + seq![y]);
    lemma_ties_of_parts(s.drop_last(), seq![y], x);
    lemma_ties_of_one(y, x);
}

proof fn lemma_tie_witness<T: Ranked>(s: Seq<T>, x: T) -> (i: int)
    requires
        ties_with(s, x).len() > 0,
    ensures
        0 <= i < s.len(),
        tied(x, s[i]),
{
    if forall|i: int| 0 <= i < s.len() ==> !tied(x, #[trigger] s[i]) {
        lemma_no_ties(s, x);
        assert(false);
    }
    choose|i: int| 0 <= i < s.len() && tied(x, #[trigger] s[i])
}

/// Putting things in order neither adds nor loses a thing.
pub proof fn order_keeps_members<T: Ranked>(items: Seq<T>)
    ensures
        ordered(items).len() == items.len(),
        forall|x: T| #[trigger] ordered(items).contains(x) <==> items.contains(x),
{
    ordered_is_stable_order(items);
    let sorted = ordered(items);
    vstd::seq_lib::to_multiset_len(sorted);
    vstd::seq_lib::to_multiset_len(items);
    assert forall|x: T| #[trigger] sorted.contains(x) <==> items.contains(x) by {
        vstd::seq_lib::to_multiset_contains(sorted, x);
        vstd::seq_lib::to_multiset_contains(items, x);
    }
}

/// Leaving things out keeps the order of the others.
pub proof fn filter_keeps_order<T: Ranked>(s: Seq<T>, pred: spec_fn(T) -> bool)
    requires
        in_order(s),
    ensures
        in_order(s.filter(pred)),
    decreases s.len(),
{
    reveal(Seq::filter);
    if s.len() > 0 {
        let shorter = s.drop_last();
        filter_keeps_order(shorter, pred);
        let kept = shorter.filter(pred);
        assert forall|i: int| 0 <= i < kept.len() implies !s.last().precedes(
            #[trigger] kept[i],
        ) by {
            let k = seqs::filtered_was_there(shorter, pred, i);
            assert(s[k] == kept[i]);
        }
    }
}

/// Things that are in order already are left as they are.
pub proof fn order_of_ordered<T: Ranked>(items: Seq<T>)
    requires
        in_order(items),
    ensures
        ordered(items) == items,
{
    ordered_is_stable_order(items);
    stable_order_is_unique(ordered(items), items, items);
}

} // verus!
