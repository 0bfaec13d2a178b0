//! Searching and filtering sequences.
use vstd::prelude::*;

verus! {

/// Everything that a filter lets through stood in the sequence, and passes the test.
pub proof fn filtered_was_there<T>(s: Seq<T>, pred: spec_fn(T) -> bool, i: int) -> (k: int)
    requires
        0 <= i < s.filter(pred).len(),
    ensures
        0 <= k < s.len(),
        s[k] == s.filter(pred)[i],
        pred(s[k]),
    decreases s.len(),
{
    reveal(Seq::filter);
    let shorter = s.drop_last();
    if i < shorter.filter(pred).len() {
        let k = filtered_was_there(shorter, pred, i);
        assert(shorter[k] == s[k]);
        k
    } else {
        s.len() - 1
    }
}

/// Everything that passes the test gets through the filter.
pub proof fn passing_is_kept<T>(s: Seq<T>, pred: spec_fn(T) -> bool, k: int) -> (i: int)
    requires
        0 <= k < s.len(),
        pred(s[k]),
    ensures
        0 <= i < s.filter(pred).len(),
        s.filter(pred)[i] == s[k],
    decreases s.len(),
{
    reveal(Seq::filter);
    if k < s.len() - 1 {
        passing_is_kept(s.drop_last(), pred, k)
    } else {
        s.filter(pred).len() - 1
    }
}

/// A filter shortens a sequence exactly when something does not pass the test.
pub proof fn filter_shortens<T>(s: Seq<T>, pred: spec_fn(T) -> bool)
    ensures
        s.filter(pred).len() <= s.len(),
        s.filter(pred).len() < s.len() <==> exists|i: int|
            0 <= i < s.len() && !pred(#[trigger] s[i]),
    decreases s.len(),
{
    reveal(Seq::filter);
    if s.len() > 0 {
        let shorter = s.drop_last();
        filter_shortens(shorter, pred);
        if exists|i: int| 0 <= i < shorter.len() && !pred(#[trigger] shorter[i]) {
            let i = choose|i: int| 0 <= i < shorter.len() && !pred(#[trigger] shorter[i]);
            assert(!pred(s[i]));
        }
        if exists|i: int| 0 <= i < s.len() && !pred(#[trigger] s[i]) {
            let i = choose|i: int| 0 <= i < s.len() && !pred(#[trigger] s[i]);
            if i < shorter.len() {
                assert(!pred(shorter[i]));
            }
        }
        if !pred(s.last()) {
            assert(!pred(s[s.len() - 1]));
        }
    }
}

/// A filter that everything passes changes nothing.
pub proof fn filter_of_passing<T>(s: Seq<T>, pred: spec_fn(T) -> bool)
    requires
        forall|i: int| 0 <= i < s.len() ==> pred(#[trigger] s[i]),
    ensures
        s.filter(pred) == s,
    decreases s.len(),
{
    reveal(Seq::filter);
    if s.len() > 0 {
        let shorter = s.drop_last();
        assert forall|i: int| 0 <= i < shorter.len() implies pred(#[trigger] shorter[i]) by {
            assert(shorter[i] == s[i]);
        }
        filter_of_passing(shorter, pred);
        assert(pred(s[s.len() - 1]));
        assert(shorter.push(s.last()) == s);
    }
}

/// A filter that nothing passes leaves nothing.
pub proof fn filter_of_failing<T>(s: Seq<T>, pred: spec_fn(T) -> bool)
    requires
        forall|i: int| 0 <= i < s.len() ==> !pred(#[trigger] s[i]),
    ensures
        s.filter(pred).len() == 0,
    decreases s.len(),
{
    reveal(Seq::filter);
    if s.len() > 0 {
        let shorter = s.drop_last();
        assert forall|i: int| 0 <= i < shorter.len() implies !pred(#[trigger] shorter[i]) by {
            assert(shorter[i] == s[i]);
        }
        filter_of_failing(shorter, pred);
        assert(!pred(s[s.len() - 1]));
    }
}

/// A filter and its opposite share the sequence out between them.
pub proof fn filters_share_out<T>(s: Seq<T>, pred: spec_fn(T) -> bool, opposite: spec_fn(T) -> bool)
    requires
        forall|x: T| pred(x) <==> !#[trigger] opposite(x),
    ensures
        s.filter(pred).len() + s.filter(opposite).len() == s.len(),
    decreases s.len(),
{
    reveal(Seq::filter);
    if s.len() > 0 {
        filters_share_out(s.drop_last(), pred, opposite);
        assert(pred(s.last()) <==> !opposite(s.last()));
    }
}

/// Whether `i` is the first place of `s` that passes the test.
pub open spec fn is_first<T>(s: Seq<T>, pred: spec_fn(T) -> bool, i: int) -> bool {
    &&& 0 <= i < s.len()
    &&& pred(s[i])
    &&& forall|j: int| 0 <= j < i ==> !pred(#[trigger] s[j])
}

/// The first place of `s` that passes the test, if there is one.
pub open spec fn first_where<T>(s: Seq<T>, pred: spec_fn(T) -> bool) -> Option<int> {
    if exists|i: int| is_first(s, pred, i) {
        Some(choose|i: int| is_first(s, pred, i))
    } else {
        None
    }
}

/// What is found when every place before `i` fails the test: `i`, if it passes.
pub proof fn first_is_found<T>(s: Seq<T>, pred: spec_fn(T) -> bool, i: int)
    requires
        0 <= i <= s.len(),
        forall|j: int| 0 <= j < i ==> !pred(#[trigger] s[j]),
    ensures
        i < s.len() && pred(s[i]) ==> first_where(s, pred) == Some(i),
        i == s.len() ==> first_where(s, pred) is None,
{
    if i < s.len() && pred(s[i]) {
        assert(is_first(s, pred, i));
        let k = choose|k: int| is_first(s, pred, k);
        assert(is_first(s, pred, k));
        assert(!(k < i) && !(i < k));
    }
}

/// Where some item passes, there is a first that does.
pub proof fn first_is_there<T>(s: Seq<T>, pred: spec_fn(T) -> bool, k: int)
    requires
        0 <= k < s.len(),
        pred(s[k]),
    ensures
        first_where(s, pred) is Some,
    decreases k,
{
    if exists|j: int| 0 <= j < k && pred(#[trigger] s[j]) {
        let j = choose|j: int| 0 <= j < k && pred(#[trigger] s[j]);
        first_is_there(s, pred, j);
    } else {
        first_is_found(s, pred, k);
    }
}

} // verus!
