//! How the application knows its own copies again.

use crate::domain::self_copy::{ClipboardEventOrigin, GuardView, MarkState, MarkView};
use crate::sequences;
use vstd::prelude::*;

verus! {

/// The mark is of this text, less than two seconds old, and does not name another owner.
pub open spec fn is_matching(mark: MarkView, now: u128, hash: Seq<char>, owner: Option<u32>) -> bool {
    &&& now - mark.created_at < 2_000_000_000
    &&& mark.hash == hash
    &&& owner is None || mark.expected_owner is None || mark.expected_owner == owner
}

/// A copy is the application's own exactly if a mark matches it.
pub proof fn own_copies_are_those_marked(
    guard: GuardView,
    now: u128,
    hash: Seq<char>,
    owner: Option<u32>,
)
    ensures
        guard.checked(now, hash, owner).1 <==> exists|i: int|
            0 <= i < guard.marks.len() && is_matching(#[trigger] guard.marks[i], now, hash, owner),
{
    let kept = guard.alive_marks(now);
    let pred = |mark: MarkView| mark.suppresses(now, hash, owner);
    sequences::lemma_filter_members(guard.marks, |mark: MarkView| mark.alive(now));
    sequences::lemma_first_index(kept, pred);
    let at = sequences::first_index(kept, pred);
    if at < kept.len() {
        assert(kept.contains(kept[at]));
        let i = choose|i: int| 0 <= i < guard.marks.len() && guard.marks[i] == kept[at];
        assert(is_matching(guard.marks[i], now, hash, owner));
    }
    if exists|i: int|
        0 <= i < guard.marks.len() && is_matching(#[trigger] guard.marks[i], now, hash, owner) {
        let i = choose|i: int|
            0 <= i < guard.marks.len() && is_matching(#[trigger] guard.marks[i], now, hash, owner);
        assert(guard.marks.contains(guard.marks[i]));
        assert(kept.contains(guard.marks[i]));
        let k = choose|k: int| 0 <= k < kept.len() && kept[k] == guard.marks[i];
        assert(pred(kept[k]));
    }
}

/// A check forgets the marks that are ten seconds old and no other, but for the one that it uses
/// up.
pub proof fn checking_uses_up_one_mark(
    guard: GuardView,
    now: u128,
    hash: Seq<char>,
    owner: Option<u32>,
    mark: MarkView,
)
    ensures
        ({
            let (next, own) = guard.checked(now, hash, owner);
            let young = guard.marks.contains(mark) && now - mark.created_at < 10_000_000_000;
            &&& next.last_id == guard.last_id
            &&& next.marks.contains(mark) ==> young
            &&& !own && young ==> next.marks.contains(mark)
            &&& own && young && !is_matching(mark, now, hash, owner) ==> next.marks.contains(mark)
            &&& own ==> next.marks.len() + 1 == guard.alive_marks(now).len()
            &&& !own ==> next.marks.len() == guard.alive_marks(now).len()
        }),
{
    let kept = guard.alive_marks(now);
    let pred = |mark: MarkView| mark.suppresses(now, hash, owner);
    sequences::lemma_filter_members(guard.marks, |mark: MarkView| mark.alive(now));
    sequences::lemma_first_index(kept, pred);
    let (next, own) = guard.checked(now, hash, owner);
    let at = sequences::first_index(kept, pred);
    if own {
        if next.marks.contains(mark) {
            let k = choose|k: int| 0 <= k < next.marks.len() && next.marks[k] == mark;
            let from = if k < at {
                k
            } else {
                k + 1
            };
            assert(kept[from] == mark);
            assert(kept.contains(mark));
        }
        if kept.contains(mark) && !is_matching(mark, now, hash, owner) {
            let k = choose|k: int| 0 <= k < kept.len() && kept[k] == mark;
            let to = if k < at {
                k
            } else {
                k - 1
            };
            assert(pred(kept[at]));
            assert(k != at);
            assert(next.marks[to] == mark);
        }
    }
}

/// A write that is announced is marked, as pending, with its text, its origin, its owner and the
/// time, under the next number; the marks that are ten seconds old go and no other.
pub proof fn announced_writes_are_marked(
    guard: GuardView,
    now: u128,
    hash: Seq<char>,
    origin: ClipboardEventOrigin,
    owner: Option<u32>,
    mark: MarkView,
)
    ensures
        ({
            let next = guard.marked(now, hash, origin, owner);
            let new_mark = next.marks.last();
            &&& next.marks.len() > 0
            &&& new_mark.hash == hash
            &&& new_mark.created_at == now
            &&& new_mark.state == MarkState::Pending
            &&& new_mark.origin == origin
            &&& new_mark.expected_owner == owner
            &&& new_mark.id == next.last_id
            &&& guard.last_id < u64::MAX ==> next.last_id == guard.last_id + 1
            &&& guard.last_id == u64::MAX ==> next.last_id == 0
            &&& next.marks.drop_last().contains(mark) <==> guard.marks.contains(mark) && now
                - mark.created_at < 10_000_000_000
        }),
{
    sequences::lemma_filter_members(guard.marks, |mark: MarkView| mark.alive(now));
    let next = guard.marked(now, hash, origin, owner);
    assert(next.marks.drop_last() =~= guard.alive_marks(now));
}

/// A write that took place turns the first mark of its number from pending to committed, and
/// changes nothing else.
pub proof fn committing_changes_one_state(guard: GuardView, id: u64, at: int)
    requires
        0 <= at < guard.marks.len(),
        guard.marks[at].id == id,
        forall|k: int| 0 <= k < at ==> (#[trigger] guard.marks[k]).id != id,
    ensures
        ({
            let next = guard.committed(id);
            &&& next.last_id == guard.last_id
            &&& next.marks.len() == guard.marks.len()
            &&& next.marks[at].state == MarkState::Committed
            &&& (MarkView { state: guard.marks[at].state, ..next.marks[at] }) == guard.marks[at]
            &&& forall|k: int|
                0 <= k < guard.marks.len() && k != at ==> #[trigger] next.marks[k] == guard.marks[k]
        }),
{
    sequences::lemma_is_first_index(guard.marks, |mark: MarkView| mark.id == id, at);
}

/// A write that did not take place loses its mark, and no other does.
pub proof fn cancelling_takes_one_number(guard: GuardView, id: u64, mark: MarkView)
    ensures
        guard.cancelled(id).marks.contains(mark) <==> guard.marks.contains(mark) && mark.id != id,
        guard.cancelled(id).last_id == guard.last_id,
{
    sequences::lemma_filter_members(guard.marks, |mark: MarkView| mark.id != id);
}

} // verus!
