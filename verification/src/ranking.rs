//! Ranking: putting positions in order of a strict total order.

use crate::sequences;
use vstd::prelude::*;

verus! {

/// Something with numbered elements of which any two different ones are in order one way.
pub trait Ranked {
    spec fn count(&self) -> nat;

    /// The element at `i` comes before the one at `j`.
    spec fn precedes(&self, i: int, j: int) -> bool;

    /// The order is strict and total.
    proof fn order_is_strict(&self)
        ensures
            is_strict_order(self.count(), |i: int, j: int| self.precedes(i, j)),
    ;

    fn comes_before(&self, i: usize, j: usize) -> (answer: bool)
        requires
            i < self.count(),
            j < self.count(),
        ensures
            answer == self.precedes(i as int, j as int),
    ;
}

/// Irreflexive, transitive and total on the numbers below `count`.
pub open spec fn is_strict_order(count: nat, precedes: spec_fn(int, int) -> bool) -> bool {
    &&& forall|i: int| 0 <= i < count ==> !#[trigger] precedes(i, i)
    &&& forall|i: int, j: int, k: int|
        0 <= i < count && 0 <= j < count && 0 <= k < count && #[trigger] precedes(i, j)
            && #[trigger] precedes(j, k) ==> precedes(i, k)
    &&& forall|i: int, j: int|
        0 <= i < count && 0 <= j < count && i != j ==> (#[trigger] precedes(i, j) || precedes(j, i))
}

/// In ascending order.
pub open spec fn is_ordered(order: Seq<int>, precedes: spec_fn(int, int) -> bool) -> bool {
    forall|a: int, b: int|
        #![trigger order[a], order[b]]
        0 <= a < b < order.len() ==> precedes(order[a], order[b])
}

/// All the numbers below `count`, in ascending order.
pub open spec fn is_ranking(
    count: nat,
    precedes: spec_fn(int, int) -> bool,
    order: Seq<int>,
) -> bool {
    &&& order.to_set() == Set::new(|i: int| 0 <= i < count)
    &&& is_ordered(order, precedes)
}

/// The numbers below `count` in ascending order.
pub open spec fn ranking(count: nat, precedes: spec_fn(int, int) -> bool) -> Seq<int> {
    choose|order: Seq<int>| is_ranking(count, precedes, order)
}

proof fn lemma_same_first(
    count: nat,
    precedes: spec_fn(int, int) -> bool,
    a: Seq<int>,
    b: Seq<int>,
)
    requires
        is_strict_order(count, precedes),
        is_ordered(a, precedes),
        is_ordered(b, precedes),
        forall|i: int| #[trigger] a.contains(i) <==> b.contains(i),
        forall|i: int| #[trigger] a.contains(i) ==> 0 <= i < count,
    ensures
        a == b,
    decreases a.len(),
{
    if a.len() == 0 {
        if b.len() > 0 {
            assert(b.contains(b[0]));
            assert(a.contains(b[0]));
        }
        assert(a =~= b);
    } else {
        assert(a.contains(a[0]));
        assert(b.contains(a[0]));
        assert(b.contains(b[0]));
        assert(a.contains(b[0]));
        let x = a[0];
        let y = b[0];
        if x != y {
            let k = choose|k: int| 0 <= k < b.len() && b[k] == x;
            assert(precedes(b[0], b[k]));
            let m = choose|m: int| 0 <= m < a.len() && a[m] == y;
            assert(precedes(a[0], a[m]));
            assert(precedes(x, x));
        }
        let a2 = a.drop_first();
        let b2 = b.drop_first();
        assert forall|i: int, j: int|
            #![trigger a2[i], a2[j]]
            0 <= i < j < a2.len() implies precedes(a2[i], a2[j]) by {
            assert(a2[i] == a[i + 1] && a2[j] == a[j + 1]);
        }
        assert forall|i: int, j: int|
            #![trigger b2[i], b2[j]]
            0 <= i < j < b2.len() implies precedes(b2[i], b2[j]) by {
            assert(b2[i] == b[i + 1] && b2[j] == b[j + 1]);
        }
        assert forall|i: int| #[trigger] b.contains(i) implies 0 <= i < count by {
            assert(a.contains(i));
        }
        assert forall|i: int| #[trigger] a2.contains(i) <==> b2.contains(i) by {
            lemma_rest_contains(count, precedes, a, i);
            lemma_rest_contains(count, precedes, b, i);
        }
        assert forall|i: int| #[trigger] a2.contains(i) implies 0 <= i < count by {
            lemma_rest_contains(count, precedes, a, i);
        }
        lemma_same_first(count, precedes, a2, b2);
        assert(a =~= seq![x] + a2);
        assert(b =~= seq![x] + b2);
    }
}

proof fn lemma_rest_contains(
    count: nat,
    precedes: spec_fn(int, int) -> bool,
    order: Seq<int>,
    item: int,
)
    requires
        is_strict_order(count, precedes),
        is_ordered(order, precedes),
        order.len() > 0,
        forall|i: int| #[trigger] order.contains(i) ==> 0 <= i < count,
    ensures
        order.drop_first().contains(item) <==> order.contains(item) && item != order[0],
{
    let rest = order.drop_first();
    if rest.contains(item) {
        let k = choose|k: int| 0 <= k < rest.len() && rest[k] == item;
        assert(order[k + 1] == item);
        assert(precedes(order[0], order[k + 1]));
        assert(order.contains(item));
    }
    if order.contains(item) && item != order[0] {
        let k = choose|k: int| 0 <= k < order.len() && order[k] == item;
        assert(rest[k - 1] == item);
    }
}

/// There is one ranking only.
pub proof fn ranking_is_unique(count: nat, precedes: spec_fn(int, int) -> bool, order: Seq<int>)
    requires
        is_strict_order(count, precedes),
        is_ranking(count, precedes, order),
    ensures
        order == ranking(count, precedes),
{
    let other = ranking(count, precedes);
    assert(is_ranking(count, precedes, other));
    let range = Set::new(|i: int| 0 <= i < count);
    assert forall|i: int| #[trigger] order.contains(i) <==> other.contains(i) by {
        assert(order.to_set().contains(i) <==> other.to_set().contains(i));
    }
    assert forall|i: int| #[trigger] order.contains(i) implies 0 <= i < count by {
        assert(order.to_set().contains(i));
        assert(range.contains(i));
    }
    lemma_same_first(count, precedes, order, other);
}

/// The numbers below `count` can be put in order.
pub proof fn lemma_ranking_exists(count: nat, precedes: spec_fn(int, int) -> bool) -> (order: Seq<
    int,
>)
    requires
        is_strict_order(count, precedes),
    ensures
        is_ranking(count, precedes, order),
        order.len() == count,
    decreases count,
{
    if count == 0 {
        let order = Seq::<int>::empty();
        assert(order.to_set() =~= Set::new(|i: int| 0 <= i < count));
        order
    } else {
        let last = count - 1;
        let rest = lemma_ranking_exists(last as nat, precedes);
        let after = |e: int| precedes(last, e);
        sequences::lemma_first_index(rest, after);
        let at = sequences::first_index(rest, after);
        let order = rest.insert(at, last);
        assert forall|i: int| #[trigger] rest.contains(i) <==> 0 <= i < last by {
            assert(rest.to_set().contains(i) <==> 0 <= i < last);
        }
        assert forall|i: int| #[trigger] order.contains(i) <==> 0 <= i < count by {
            if 0 <= i < last {
                assert(rest.contains(i));
                let k = choose|k: int| 0 <= k < rest.len() && rest[k] == i;
                if k < at {
                    assert(order[k] == i);
                } else {
                    assert(order[k + 1] == i);
                }
            }
            if i == last {
                assert(order[at] == i);
            }
            if order.contains(i) {
                let k = choose|k: int| 0 <= k < order.len() && order[k] == i;
                if k < at {
                    assert(rest.contains(rest[k]));
                } else if k > at {
                    assert(rest.contains(rest[k - 1]));
                }
            }
        }
        assert(order.to_set() =~= Set::new(|i: int| 0 <= i < count));
        assert forall|a: int, b: int|
            #![trigger order[a], order[b]]
            0 <= a < b < order.len() implies precedes(order[a], order[b]) by {
            if a < at && b < at {
                assert(precedes(rest[a], rest[b]));
            } else if a < at && b == at {
                assert(rest.contains(rest[a]));
                assert(!after(rest[a]));
                assert(precedes(rest[a], last) || precedes(last, rest[a]));
            } else if a < at {
                assert(precedes(rest[a], rest[b - 1]));
            } else if a == at {
                assert(rest.contains(rest[b - 1]));
                if b - 1 > at {
                    assert(rest.contains(rest[at]));
                    assert(after(rest[at]));
                    assert(precedes(rest[at], rest[b - 1]));
                }
                assert(precedes(last, rest[b - 1]));
            } else {
                assert(precedes(rest[a - 1], rest[b - 1]));
            }
        }
        order
    }
}

/// What [`ranking`] is.
pub proof fn lemma_ranking(count: nat, precedes: spec_fn(int, int) -> bool)
    requires
        is_strict_order(count, precedes),
    ensures
        is_ranking(count, precedes, ranking(count, precedes)),
        ranking(count, precedes).len() == count,
{
    let order = lemma_ranking_exists(count, precedes);
    ranking_is_unique(count, precedes, order);
}

spec fn ints(items: Seq<usize>) -> Seq<int> {
    items.map_values(|i: usize| i as int)
}

/// The numbers from `from` up to `to`, in ascending order.
spec fn is_sorted_range(
    precedes: spec_fn(int, int) -> bool,
    items: Seq<usize>,
    from: int,
    to: int,
) -> bool {
    &&& is_ordered(ints(items), precedes)
    &&& items.len() == to - from
    &&& forall|k: int| 0 <= k < items.len() ==> from <= #[trigger] items[k] < to
    &&& forall|i: int| from <= i < to ==> ints(items).contains(i)
}

fn merge<R: Ranked>(ranked: &R, left: &Vec<usize>, right: &Vec<usize>, Ghost(from): Ghost<int>, Ghost(
    middle,
): Ghost<int>, Ghost(to): Ghost<int>) -> (merged: Vec<usize>)
    requires
        0 <= from <= middle <= to <= ranked.count(),
        is_sorted_range(|i: int, j: int| ranked.precedes(i, j), left@, from, middle),
        is_sorted_range(|i: int, j: int| ranked.precedes(i, j), right@, middle, to),
    ensures
        is_sorted_range(|i: int, j: int| ranked.precedes(i, j), merged@, from, to),
{
    let ghost precedes = |i: int, j: int| ranked.precedes(i, j);
    proof {
        ranked.order_is_strict();
    }
    let mut merged: Vec<usize> = Vec::new();
    let mut a: usize = 0;
    let mut b: usize = 0;
    while a < left.len() || b < right.len()
        invariant
            0 <= from <= middle <= to <= ranked.count(),
            precedes == (|i: int, j: int| ranked.precedes(i, j)),
            is_strict_order(ranked.count(), precedes),
            is_sorted_range(precedes, left@, from, middle),
            is_sorted_range(precedes, right@, middle, to),
            a <= left@.len(),
            b <= right@.len(),
            merged@.len() == a + b,
            is_ordered(ints(merged@), precedes),
            forall|k: int| 0 <= k < merged@.len() ==> from <= #[trigger] merged@[k] < to,
            forall|k: int| 0 <= k < a ==> ints(merged@).contains(#[trigger] left@[k] as int),
            forall|k: int| 0 <= k < b ==> ints(merged@).contains(#[trigger] right@[k] as int),
            forall|k: int, m: int|
                0 <= k < merged@.len() && a <= m < left@.len() ==> precedes(
                    #[trigger] merged@[k] as int,
                    #[trigger] left@[m] as int,
                ),
            forall|k: int, m: int|
                0 <= k < merged@.len() && b <= m < right@.len() ==> precedes(
                    #[trigger] merged@[k] as int,
                    #[trigger] right@[m] as int,
                ),
        decreases left@.len() - a + right@.len() - b,
    {
        let ghost before = merged@;
        let take_left = if a >= left.len() {
            false
        } else if b >= right.len() {
            true
        } else {
            ranked.comes_before(left[a], right[b])
        };
        proof {
            assert forall|m: int| a < m < left@.len() implies precedes(
                left@[a as int] as int,
                #[trigger] left@[m] as int,
            ) by {
                assert(precedes(ints(left@)[a as int], ints(left@)[m]));
            }
            assert forall|m: int| b < m < right@.len() implies precedes(
                right@[b as int] as int,
                #[trigger] right@[m] as int,
            ) by {
                assert(precedes(ints(right@)[b as int], ints(right@)[m]));
            }
            if a < left@.len() && b < right@.len() {
                let x = left@[a as int] as int;
                let y = right@[b as int] as int;
                assert(x != y);
                assert(precedes(x, y) || precedes(y, x));
                if take_left {
                    assert forall|m: int| b <= m < right@.len() implies precedes(
                        x,
                        #[trigger] right@[m] as int,
                    ) by {
                        if m > b {
                            assert(precedes(y, right@[m] as int));
                        }
                    }
                } else {
                    assert forall|m: int| a <= m < left@.len() implies precedes(
                        y,
                        #[trigger] left@[m] as int,
                    ) by {
                        if m > a {
                            assert(precedes(x, left@[m] as int));
                        }
                    }
                }
            }
        }
        if take_left {
            merged.push(left[a]);
            a += 1;
        } else {
            merged.push(right[b]);
            b += 1;
        }
        proof {
            assert(ints(merged@) =~= ints(before).push(merged@.last() as int));
            assert forall|x: int| ints(before).contains(x) implies ints(merged@).contains(x) by {
                let k = choose|k: int| 0 <= k < ints(before).len() && ints(before)[k] == x;
                assert(ints(merged@)[k] == x);
            }
            assert(ints(merged@)[merged@.len() - 1] == merged@.last() as int);
            assert forall|k: int| 0 <= k < a implies ints(merged@).contains(
                #[trigger] left@[k] as int,
            ) by {
                if take_left && k == a - 1 {
                } else {
                    assert(ints(before).contains(left@[k] as int));
                }
            }
            assert forall|k: int| 0 <= k < b implies ints(merged@).contains(
                #[trigger] right@[k] as int,
            ) by {
                if !take_left && k == b - 1 {
                } else {
                    assert(ints(before).contains(right@[k] as int));
                }
            }
        }
    }
    proof {
        assert forall|i: int| from <= i < to implies ints(merged@).contains(i) by {
            if i < middle {
                assert(ints(left@).contains(i));
                let k = choose|k: int| 0 <= k < ints(left@).len() && ints(left@)[k] == i;
                assert(left@[k] as int == i);
            } else {
                assert(ints(right@).contains(i));
                let k = choose|k: int| 0 <= k < ints(right@).len() && ints(right@)[k] == i;
                assert(right@[k] as int == i);
            }
        }
    }
    merged
}

fn rank_range<R: Ranked>(ranked: &R, from: usize, to: usize) -> (order: Vec<usize>)
    requires
        from <= to <= ranked.count(),
    ensures
        is_sorted_range(|i: int, j: int| ranked.precedes(i, j), order@, from as int, to as int),
    decreases to - from,
{
    let mut order: Vec<usize> = Vec::new();
    if to - from == 0 {
        return order;
    }
    if to - from == 1 {
        order.push(from);
        proof {
            assert(ints(order@)[0] == from as int);
        }
        return order;
    }
    let middle: usize = from + (to - from) / 2;
    let left = rank_range(ranked, from, middle);
    let right = rank_range(ranked, middle, to);
    merge(ranked, &left, &right, Ghost(from as int), Ghost(middle as int), Ghost(to as int))
}

/// The positions below `count`, in order.
pub open spec fn positions(order: Seq<usize>) -> Seq<int> {
    order.map_values(|i: usize| i as int)
}

/// Ranks all elements.
pub fn rank<R: Ranked>(ranked: &R, count: usize) -> (order: Vec<usize>)
    requires
        count == ranked.count(),
    ensures
        positions(order@) == ranking(ranked.count(), |i: int, j: int| ranked.precedes(i, j)),
        is_ranking(
            ranked.count(),
            |i: int, j: int| ranked.precedes(i, j),
            positions(order@),
        ),
        order@.len() == count,
        forall|k: int| 0 <= k < order@.len() ==> #[trigger] order@[k] < count,
{
    let order = rank_range(ranked, 0, count);
    proof {
        ranked.order_is_strict();
        let found = positions(order@);
        assert(found =~= ints(order@));
        let range = Set::new(|i: int| 0 <= i < count);
        assert forall|i: int| #[trigger] found.to_set().contains(i) <==> range.contains(i) by {
            if found.contains(i) {
                let k = choose|k: int| 0 <= k < found.len() && found[k] == i;
                assert(order@[k] as int == i);
            }
        }
        assert(found.to_set() =~= range);
        ranking_is_unique(
            ranked.count(),
            |i: int, j: int| ranked.precedes(i, j),
            positions(order@),
        );
    }
    order
}

} // verus!
