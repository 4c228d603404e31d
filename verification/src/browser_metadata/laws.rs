//! What holds of the reports and receipts that wait.

use crate::browser_metadata::buffer::{BufferView, BufferedView, PendingView};
use crate::clock::Moment;
use crate::sequences;
use vstd::prelude::*;

verus! {

/// A reserved report stays until it is dealt with: neither taking out a report nor cleaning up
/// removes it.
pub proof fn reserved_reports_stay(
    buffer: BufferView,
    i: int,
    hash: Seq<char>,
    length: usize,
    now: Moment,
    now_ms: i64,
)
    requires
        0 <= i < buffer.events.len(),
        buffer.events[i].reserved,
    ensures
        buffer.taken(hash, length, now).0.events.contains(buffer.events[i]),
        buffer.cleaned(now_ms).events.contains(buffer.events[i]),
{
    let event = buffer.events[i];
    let stays_at = |event: BufferedView| event.stays_at(now);
    let stays = |event: BufferedView| event.stays(now_ms);
    let reports = |event: BufferedView| event.reports(hash, length, now);
    sequences::lemma_filter_members(buffer.events, stays_at);
    sequences::lemma_filter_members(buffer.events, stays);
    let kept = buffer.events.filter(stays_at);
    assert(kept.contains(event));
    let k = choose|k: int| 0 <= k < kept.len() && kept[k] == event;
    sequences::lemma_last_index(kept, reports);
    let at = sequences::last_index(kept, reports);
    if at >= 0 {
        assert(reports(kept[at]));
        assert(k != at);
        if k < at {
            assert(kept.remove(at)[k] == event);
        } else {
            assert(kept.remove(at)[k - 1] == event);
        }
    }
}

/// A reserved receipt is not cleaned up.
pub proof fn reserved_receipts_stay(buffer: BufferView, i: int, now_ms: i64)
    requires
        0 <= i < buffer.receipts.len(),
        buffer.receipts[i].reserved,
    ensures
        buffer.cleaned(now_ms).receipts.contains(buffer.receipts[i]),
{
    let stays = |receipt: PendingView| receipt.stays(now_ms);
    sequences::lemma_filter_members(buffer.receipts, stays);
}

/// After cleaning up, what is not reserved lies at most [`STALE_AFTER_MS`] from the present.
pub proof fn nothing_stale_stays(buffer: BufferView, now_ms: i64)
    ensures
        forall|i: int|
            0 <= i < buffer.cleaned(now_ms).events.len() ==> (
            #[trigger] buffer.cleaned(now_ms).events[i]).stays(now_ms),
        forall|i: int|
            0 <= i < buffer.cleaned(now_ms).receipts.len() ==> (
            #[trigger] buffer.cleaned(now_ms).receipts[i]).stays(now_ms),
{
    sequences::lemma_filter_members(
        buffer.events,
        |event: BufferedView| event.stays(now_ms),
    );
    sequences::lemma_filter_members(
        buffer.receipts,
        |receipt: PendingView| receipt.stays(now_ms),
    );
}

/// The report that is taken out was free, reports the content that was asked for, and is no
/// longer there.
pub proof fn taken_report_is_used_up(
    buffer: BufferView,
    hash: Seq<char>,
    length: usize,
    now: Moment,
)
    ensures
        buffer.taken(hash, length, now).1 matches Some(event) ==> {
            &&& exists|i: int|
                0 <= i < buffer.events.len() && (#[trigger] buffer.events[i]).event == event
                    && buffer.events[i].reports(hash, length, now)
            &&& buffer.taken(hash, length, now).0.events.len() < buffer.events.len()
        },
{
    let stays = |event: BufferedView| event.stays_at(now);
    let reports = |event: BufferedView| event.reports(hash, length, now);
    let kept = buffer.events.filter(stays);
    sequences::lemma_filter_members(buffer.events, stays);
    sequences::lemma_last_index(kept, reports);
    let at = sequences::last_index(kept, reports);
    if at >= 0 {
        assert(reports(kept[at]));
        assert(kept.contains(kept[at]));
        let i = choose|i: int| 0 <= i < buffer.events.len() && buffer.events[i] == kept[at];
        assert(buffer.events[i].event == kept[at].event);
    }
}

/// There is at most one closest pair.
pub proof fn closest_pair_is_unique(
    buffer: BufferView,
    r: int,
    e: int,
    other_r: int,
    other_e: int,
    allowed_ms: i64,
)
    requires
        buffer.is_best_pair(r, e, allowed_ms),
        buffer.is_best_pair(other_r, other_e, allowed_ms),
    ensures
        r == other_r && e == other_e,
{
    assert(buffer.is_pair(r, e, allowed_ms));
    assert(buffer.is_pair(other_r, other_e, allowed_ms));
}

/// What is reserved belongs to no pair, so neither half of a reserved pair is offered again.
pub proof fn reserved_pair_is_not_offered(
    buffer: BufferView,
    r: int,
    e: int,
    other_r: int,
    other_e: int,
    allowed_ms: i64,
)
    requires
        buffer.is_pair(r, e, allowed_ms),
    ensures
        !buffer.pair_reserved(r, e).is_pair(r, other_e, allowed_ms),
        !buffer.pair_reserved(r, e).is_pair(other_r, e, allowed_ms),
{
}

/// A released report can be taken by the next receipt: the pair is as it was.
pub proof fn released_pair_is_offered_again(buffer: BufferView, r: int, e: int, allowed_ms: i64)
    requires
        buffer.is_pair(r, e, allowed_ms),
    ensures
        buffer.pair_reserved(r, e).event_reserved(e, false).receipt_reserved(r, false) == buffer,
{
    let released = buffer.pair_reserved(r, e).event_reserved(e, false).receipt_reserved(r, false);
    assert(released.events =~= buffer.events);
    assert(released.receipts =~= buffer.receipts);
}

} // verus!
