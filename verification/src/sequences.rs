//! Facts about sequences that the collections of the library share.

use vstd::prelude::*;

verus! {

/// The position of the first element that satisfies `pred`, or the length if none does.
pub open spec fn first_index<A>(items: Seq<A>, pred: spec_fn(A) -> bool) -> int
    decreases items.len(),
{
    if items.len() == 0 || pred(items.first()) {
        0
    } else {
        1 + first_index(items.drop_first(), pred)
    }
}

/// What [`first_index`] is: nothing before it satisfies `pred`, and it does if it is within.
pub proof fn lemma_first_index<A>(items: Seq<A>, pred: spec_fn(A) -> bool)
    ensures
        0 <= first_index(items, pred) <= items.len(),
        forall|k: int| 0 <= k < first_index(items, pred) ==> !pred(#[trigger] items[k]),
        first_index(items, pred) < items.len() ==> pred(items[first_index(items, pred)]),
    decreases items.len(),
{
    if items.len() > 0 && !pred(items.first()) {
        let rest = items.drop_first();
        lemma_first_index(rest, pred);
        assert forall|k: int| 0 <= k < first_index(items, pred) implies !pred(
            #[trigger] items[k],
        ) by {
            if k > 0 {
                assert(items[k] == rest[k - 1]);
            }
        }
    }
}

/// A position that nothing before it satisfies, and that satisfies `pred` or is the end, is the
/// first one.
pub proof fn lemma_is_first_index<A>(items: Seq<A>, pred: spec_fn(A) -> bool, at: int)
    requires
        0 <= at <= items.len(),
        forall|k: int| 0 <= k < at ==> !pred(#[trigger] items[k]),
        at < items.len() ==> pred(items[at]),
    ensures
        first_index(items, pred) == at,
{
    lemma_first_index(items, pred);
    let first = first_index(items, pred);
    if first < at {
        assert(pred(items[first]));
    } else if at < first {
        assert(pred(items[at]));
    }
}

/// The position of the last element that satisfies `pred`, or -1 if none does.
pub open spec fn last_index<A>(items: Seq<A>, pred: spec_fn(A) -> bool) -> int
    decreases items.len(),
{
    if items.len() == 0 {
        -1
    } else if pred(items.last()) {
        items.len() - 1
    } else {
        last_index(items.drop_last(), pred)
    }
}

/// What [`last_index`] is: nothing after it satisfies `pred`, and it does if it is within.
pub proof fn lemma_last_index<A>(items: Seq<A>, pred: spec_fn(A) -> bool)
    ensures
        -1 <= last_index(items, pred) < items.len(),
        forall|k: int| last_index(items, pred) < k < items.len() ==> !pred(#[trigger] items[k]),
        last_index(items, pred) >= 0 ==> pred(items[last_index(items, pred)]),
    decreases items.len(),
{
    if items.len() > 0 && !pred(items.last()) {
        let rest = items.drop_last();
        lemma_last_index(rest, pred);
        assert forall|k: int| last_index(items, pred) < k < items.len() implies !pred(
            #[trigger] items[k],
        ) by {
            if k < rest.len() {
                assert(items[k] == rest[k]);
            }
        }
    }
}

/// A position that nothing after it satisfies, and that satisfies `pred` or is -1, is the last
/// one.
pub proof fn lemma_is_last_index<A>(items: Seq<A>, pred: spec_fn(A) -> bool, at: int)
    requires
        -1 <= at < items.len(),
        forall|k: int| at < k < items.len() ==> !pred(#[trigger] items[k]),
        at >= 0 ==> pred(items[at]),
    ensures
        last_index(items, pred) == at,
{
    lemma_last_index(items, pred);
    let last = last_index(items, pred);
    if last > at {
        assert(pred(items[last]));
    } else if at > last {
        assert(pred(items[at]));
    }
}

/// Filtering one element more.
pub proof fn lemma_filter_take<A>(items: Seq<A>, pred: spec_fn(A) -> bool, at: int)
    requires
        0 <= at < items.len(),
    ensures
        items.take(at + 1).filter(pred) == if pred(items[at]) {
            items.take(at).filter(pred).push(items[at])
        } else {
            items.take(at).filter(pred)
        },
{
    reveal(Seq::filter);
    assert(items.take(at + 1).drop_last() =~= items.take(at));
}

/// Filtering after a push.
pub proof fn lemma_filter_push<A>(items: Seq<A>, pred: spec_fn(A) -> bool, last: A)
    ensures
        items.push(last).filter(pred) == if pred(last) {
            items.filter(pred).push(last)
        } else {
            items.filter(pred)
        },
{
    reveal(Seq::filter);
    assert(items.push(last).drop_last() =~= items);
}

/// Filtering keeps elements that satisfy `pred`, all of them, and nothing else.
pub proof fn lemma_filter_members<A>(items: Seq<A>, pred: spec_fn(A) -> bool)
    ensures
        forall|x: A| #[trigger]
            items.filter(pred).contains(x) <==> (items.contains(x) && pred(x)),
        items.filter(pred).len() <= items.len(),
    decreases items.len(),
{
    reveal(Seq::filter);
    if items.len() > 0 {
        let head = items.drop_last();
        let last = items.last();
        lemma_filter_members(head, pred);
        assert(items =~= head.push(last));
        let kept = head.filter(pred);
        assert forall|x: A| #[trigger]
            items.filter(pred).contains(x) <==> (items.contains(x) && pred(x)) by {
            if items.contains(x) && pred(x) {
                let i = choose|i: int| 0 <= i < items.len() && items[i] == x;
                if i < head.len() {
                    assert(head[i] == x);
                    assert(kept.contains(x));
                    let j = choose|j: int| 0 <= j < kept.len() && kept[j] == x;
                    assert(items.filter(pred)[j] == x);
                } else {
                    assert(items.filter(pred)[kept.len() as int] == x);
                }
            }
            if items.filter(pred).contains(x) {
                let j = choose|j: int|
                    0 <= j < items.filter(pred).len() && items.filter(pred)[j] == x;
                if j < kept.len() {
                    assert(kept[j] == x);
                    assert(kept.contains(x));
                    let i = choose|i: int| 0 <= i < head.len() && head[i] == x;
                    assert(items[i] == x);
                } else {
                    assert(items[items.len() - 1] == x);
                }
            }
        }
    }
}

/// What holds of any two elements in their order holds of those that filtering keeps.
pub proof fn lemma_filter_pairs<A>(
    items: Seq<A>,
    pred: spec_fn(A) -> bool,
    rel: spec_fn(A, A) -> bool,
)
    requires
        forall|i: int, j: int|
            #![trigger items[i], items[j]]
            0 <= i < j < items.len() ==> rel(items[i], items[j]),
    ensures
        forall|i: int, j: int|
            #![trigger items.filter(pred)[i], items.filter(pred)[j]]
            0 <= i < j < items.filter(pred).len() ==> rel(
                items.filter(pred)[i],
                items.filter(pred)[j],
            ),
    decreases items.len(),
{
    reveal(Seq::filter);
    if items.len() > 0 {
        let head = items.drop_last();
        let last = items.last();
        assert forall|i: int, j: int|
            #![trigger head[i], head[j]]
            0 <= i < j < head.len() implies rel(head[i], head[j]) by {
            assert(head[i] == items[i] && head[j] == items[j]);
        }
        lemma_filter_pairs(head, pred, rel);
        lemma_filter_members(head, pred);
        let kept = head.filter(pred);
        let all = items.filter(pred);
        assert forall|i: int, j: int|
            #![trigger all[i], all[j]]
            0 <= i < j < all.len() implies rel(all[i], all[j]) by {
            if j < kept.len() {
                assert(all[i] == kept[i] && all[j] == kept[j]);
            } else {
                assert(all[i] == kept[i]);
                assert(kept.contains(kept[i]));
                let a = choose|a: int| 0 <= a < head.len() && head[a] == kept[i];
                assert(items[a] == kept[i]);
                assert(items[items.len() - 1] == all[j]);
            }
        }
    }
}

/// Where everything satisfies `pred`, filtering changes nothing.
pub proof fn lemma_filter_all<A>(items: Seq<A>, pred: spec_fn(A) -> bool)
    requires
        forall|i: int| 0 <= i < items.len() ==> pred(#[trigger] items[i]),
    ensures
        items.filter(pred) == items,
    decreases items.len(),
{
    reveal(Seq::filter);
    if items.len() > 0 {
        lemma_filter_all(items.drop_last(), pred);
        assert(items.drop_last().push(items.last()) =~= items);
    }
}

} // verus!
