//! What the browser reports, how long reports wait, and which copies they are matched with.

use crate::browser_metadata;
use crate::browser_metadata::buffer;
use crate::browser_metadata::buffer::{BufferView, BufferedView, PendingView};
use crate::browser_metadata::protocol;
use crate::browser_metadata::protocol::{LineKind, LineReply};
use crate::browser_metadata::reconcile;
use crate::browser_metadata::reconcile::PairOutcome;
use crate::browser_metadata::{
    BrowserActivity, BrowserCopyEvent, EventError, EventView, ReceiptView,
};
use crate::clock;
use crate::clock::Moment;
use crate::domain::normalize;
use crate::json::MemberView;
use crate::persistence::RepositoryView;
use crate::sequences;
use crate::text;
use vstd::prelude::*;

verus! {

/// A report is accepted exactly if it is of a copy, in the first version, with a hash of 64
/// hexadecimal digits, at most a million bytes, a domain and a time; each refusal names what is
/// wrong.
pub proof fn reports_are_checked(event: EventView)
    ensures
        ({
            let is_copy = event.version == 1 && event.event == "copy"@;
            let has_hash = event.content_hash.len() == 64 && forall|i: int|
                0 <= i < 64 ==> {
                    let c = #[trigger] event.content_hash[i];
                    ('0' <= c && c <= '9') || ('a' <= c && c <= 'f') || ('A' <= c && c <= 'F')
                };
            let has_domain = normalize::normalized_domain(event.domain) is Some;
            let has_time = clock::rfc3339_moment(event.timestamp) is Some;
            &&& event.problem() is None <==> is_copy && has_hash && event.content_length
                <= 1_000_000 && has_domain && has_time
            &&& event.problem() == Some(EventError::Unsupported) <==> !is_copy
            &&& event.problem() == Some(EventError::BadHash) <==> is_copy && !has_hash
            &&& event.problem() == Some(EventError::TooLong) <==> is_copy && has_hash
                && event.content_length > 1_000_000
            &&& event.problem() == Some(EventError::BadDomain) <==> is_copy && has_hash
                && event.content_length <= 1_000_000 && !has_domain
            &&& event.problem() == Some(EventError::BadTimestamp) <==> is_copy && has_hash
                && event.content_length <= 1_000_000 && has_domain && !has_time
        }),
{
    if browser_metadata::is_hash(event.content_hash) {
        assert forall|i: int| 0 <= i < 64 implies {
            let c = #[trigger] event.content_hash[i];
            ('0' <= c && c <= '9') || ('a' <= c && c <= 'f') || ('A' <= c && c <= 'F')
        } by {
            assert(text::is_ascii_hexdigit(event.content_hash[i]));
        }
    }
}

/// An accepted report has its domain in normal form, its title without white space at the ends and
/// up to 500 characters, and an identifier; the rest is as it came.
pub proof fn accepted_reports_are_in_normal_form(event: EventView, fresh_id: u128)
    requires
        event.problem() is None,
    ensures
        ({
            let normal = event.normal_form(fresh_id);
            let title = text::trimmed(event.page_title);
            &&& normalize::normalized_domain(event.domain) == Some(normal.domain)
            &&& title.len() <= 500 ==> normal.page_title == title
            &&& title.len() > 500 ==> normal.page_title == title.subrange(0, 500)
            &&& event.event_id != 0 ==> normal.event_id == event.event_id
            &&& event.event_id == 0 ==> normal.event_id == fresh_id
            &&& normal.version == event.version
            &&& normal.event == event.event
            &&& normal.content_hash == event.content_hash
            &&& normal.content_length == event.content_length
            &&& normal.timestamp == event.timestamp
            &&& normal.moment() == clock::rfc3339_moment(event.timestamp)
        }),
{
    let title = text::trimmed(event.page_title);
    if title.len() > 500 {
        assert(title.take(500) =~= title.subrange(0, 500));
    }
}

/// The extension counts as active exactly if a greeting or a report came at most 45 seconds from
/// now; of the two the later one is told.
pub proof fn the_extension_is_active_for_a_while(activity: BrowserActivity, now: i64)
    ensures
        ({
            let greeted = activity.extension_handshake_at;
            let reported = activity.copy_metadata_at;
            &&& browser_metadata::active_at(activity, now) <==> (greeted > 0 && -45_000 <= now
                - greeted <= 45_000) || (reported > 0 && -45_000 <= now - reported <= 45_000)
            &&& greeted <= 0 && reported <= 0 ==> browser_metadata::last_message(activity) is None
            &&& greeted > 0 || reported > 0 ==> browser_metadata::last_message(activity) is Some && {
                let last = browser_metadata::last_message(activity)->0;
                &&& last == greeted || last == reported
                &&& last >= greeted
                &&& last >= reported
            }
        }),
{
}

/// A report waits on while it is being dealt with, or while it lies at most ten seconds from now.
pub open spec fn waits(event: BufferedView, now_ms: i64) -> bool {
    event.reserved || -10_000 <= now_ms - event.at.millis() <= 10_000
}

/// A receipt waits on while it is being dealt with, or while it lies at most ten seconds from now.
pub open spec fn is_waiting(pending: PendingView, now_ms: i64) -> bool {
    pending.reserved || -10_000 <= now_ms - pending.receipt.copy_timestamp <= 10_000
}

/// Cleaning up leaves exactly the reports and the receipts that wait on.
pub proof fn cleaning_up_leaves_what_waits(
    buffer: BufferView,
    now_ms: i64,
    event: BufferedView,
    pending: PendingView,
)
    ensures
        ({
            let next = buffer.cleaned(now_ms);
            &&& next.events.contains(event) <==> buffer.events.contains(event) && waits(
                event,
                now_ms,
            )
            &&& next.receipts.contains(pending) <==> buffer.receipts.contains(pending)
                && is_waiting(pending, now_ms)
            &&& next.activity == buffer.activity
        }),
{
    sequences::lemma_filter_members(buffer.events, |event: BufferedView| event.stays(now_ms));
    sequences::lemma_filter_members(
        buffer.receipts,
        |receipt: PendingView| receipt.stays(now_ms),
    );
}

/// A report that comes in waits with the others, free and with its own time, if it is of now; of
/// sixty-four that wait already the first goes. What does not wait on goes, and the time of the
/// report counts as a sign of life.
pub proof fn reports_that_come_in_wait(
    buffer: BufferView,
    event: EventView,
    now_ms: i64,
    other: BufferedView,
    pending: PendingView,
)
    requires
        buffer.events.len() <= 64,
        event.moment() is Some,
    ensures
        ({
            let next = buffer.with_event(event, now_ms);
            let new_event = BufferedView { at: event.moment()->0, event, reserved: false };
            let others = if buffer.events.len() == 64 {
                buffer.events.skip(1)
            } else {
                buffer.events
            };
            &&& next.events.len() <= 64
            &&& next.events.contains(other) <==> (others.contains(other) || other == new_event)
                && waits(other, now_ms)
            &&& next.receipts.contains(pending) <==> buffer.receipts.contains(pending)
                && is_waiting(pending, now_ms)
            &&& next.activity.copy_metadata_at == now_ms
            &&& next.activity.extension_handshake_at == buffer.activity.extension_handshake_at
        }),
{
    let new_event = BufferedView { at: event.moment()->0, event, reserved: false };
    let all = buffer::capped(buffer.events.push(new_event));
    let others = if buffer.events.len() == 64 {
        buffer.events.skip(1)
    } else {
        buffer.events
    };
    assert(all =~= others.push(new_event));
    lemma_push_contains(others, new_event, other);
    sequences::lemma_filter_members(all, |event: BufferedView| event.stays(now_ms));
    sequences::lemma_filter_members(
        buffer.receipts,
        |receipt: PendingView| receipt.stays(now_ms),
    );
}

proof fn lemma_push_contains<A>(items: Seq<A>, last: A, x: A)
    ensures
        items.push(last).contains(x) <==> items.contains(x) || x == last,
{
    let all = items.push(last);
    if items.contains(x) {
        let i = choose|i: int| 0 <= i < items.len() && items[i] == x;
        assert(all[i] == x);
    }
    assert(all[items.len() as int] == last);
    if all.contains(x) {
        let i = choose|i: int| 0 <= i < all.len() && all[i] == x;
        if i < items.len() {
            assert(items[i] == x);
        }
    }
}

/// A receipt that comes in waits with the others, free and under its hash in lower case, if it is
/// of now; of sixty-four that wait already the first goes, and what does not wait on.
pub proof fn receipts_that_come_in_wait(
    buffer: BufferView,
    hash: Seq<char>,
    length: usize,
    receipt: ReceiptView,
    now_ms: i64,
    other: PendingView,
    event: BufferedView,
)
    requires
        buffer.receipts.len() <= 64,
    ensures
        ({
            let next = buffer.with_receipt(hash, length, receipt, now_ms);
            let new_receipt = PendingView {
                hash: text::lowered(hash),
                length,
                receipt,
                reserved: false,
            };
            let others = if buffer.receipts.len() == 64 {
                buffer.receipts.skip(1)
            } else {
                buffer.receipts
            };
            &&& next.receipts.len() <= 64
            &&& next.receipts.contains(other) <==> (others.contains(other) || other == new_receipt)
                && is_waiting(other, now_ms)
            &&& next.events.contains(event) <==> buffer.events.contains(event) && waits(
                event,
                now_ms,
            )
            &&& next.activity == buffer.activity
        }),
{
    let new_receipt = PendingView { hash: text::lowered(hash), length, receipt, reserved: false };
    let all = buffer::capped(buffer.receipts.push(new_receipt));
    let others = if buffer.receipts.len() == 64 {
        buffer.receipts.skip(1)
    } else {
        buffer.receipts
    };
    assert(all =~= others.push(new_receipt));
    lemma_push_contains(others, new_receipt, other);
    sequences::lemma_filter_members(all, |receipt: PendingView| receipt.stays(now_ms));
    sequences::lemma_filter_members(buffer.events, |event: BufferedView| event.stays(now_ms));
}

/// The report is free, of this content, and at most two and a half seconds from now.
pub open spec fn is_wanted(event: BufferedView, hash: Seq<char>, length: usize, now: Moment) -> bool {
    &&& !event.reserved
    &&& text::ascii_lowercase(event.event.content_hash) == text::ascii_lowercase(hash)
    &&& event.event.content_length == length
    &&& now.within(event.at, 2500)
}

/// A report is found for a copy exactly if one is wanted, and then the last one that came in is.
pub proof fn the_last_wanted_report_is_taken(
    buffer: BufferView,
    hash: Seq<char>,
    length: usize,
    now: Moment,
    i: int,
)
    requires
        0 <= i < buffer.events.len(),
        is_wanted(buffer.events[i], hash, length, now),
        forall|k: int|
            i < k < buffer.events.len() ==> !is_wanted(
                #[trigger] buffer.events[k],
                hash,
                length,
                now,
            ),
    ensures
        buffer.taken(hash, length, now).1 == Some(buffer.events[i].event),
{
    let stays = |event: BufferedView| event.stays_at(now);
    let reports = |event: BufferedView| event.reports(hash, length, now);
    let kept = buffer.events.filter(stays);
    assert(reports(buffer.events[i]));
    assert(now.within(buffer.events[i].at, 2500) ==> now.within(buffer.events[i].at, 10_000));
    lemma_last_kept(buffer.events, stays, reports, i);
    sequences::lemma_last_index(kept, reports);
    let at = sequences::last_index(kept, reports);
    let k = choose|k: int|
        0 <= k < kept.len() && kept[k] == buffer.events[i] && forall|m: int|
            k < m < kept.len() ==> !reports(#[trigger] kept[m]);
    assert(reports(kept[k]));
}

/// The last item of a kind is the last one that a filter lets through.
proof fn lemma_last_kept<A>(
    items: Seq<A>,
    stays: spec_fn(A) -> bool,
    wanted: spec_fn(A) -> bool,
    i: int,
)
    requires
        0 <= i < items.len(),
        stays(items[i]),
        wanted(items[i]),
        forall|k: int| i < k < items.len() ==> !wanted(#[trigger] items[k]),
    ensures
        exists|k: int|
            0 <= k < items.filter(stays).len() && items.filter(stays)[k] == items[i] && forall|
                m: int,
            |
                k < m < items.filter(stays).len() ==> !wanted(#[trigger] items.filter(stays)[m]),
    decreases items.len(),
{
    reveal(Seq::filter);
    let head = items.drop_last();
    let all = items.filter(stays);
    let kept = head.filter(stays);
    if i == items.len() - 1 {
        assert(all[all.len() - 1] == items[i]);
    } else {
        assert(head[i] == items[i]);
        assert forall|k: int| i < k < head.len() implies !wanted(#[trigger] head[k]) by {
            assert(!wanted(items[k]));
        }
        lemma_last_kept(head, stays, wanted, i);
        let k = choose|k: int|
            0 <= k < kept.len() && kept[k] == head[i] && forall|m: int|
                k < m < kept.len() ==> !wanted(#[trigger] kept[m]);
        assert(all[k] == items[i]);
        assert forall|m: int| k < m < all.len() implies !wanted(#[trigger] all[m]) by {
            if m < kept.len() {
                assert(all[m] == kept[m]);
            } else {
                assert(!wanted(items[items.len() - 1]));
            }
        }
    }
}

/// Without a report that is wanted none is taken, and then nothing goes but what lies more than ten
/// seconds from now.
pub proof fn nothing_else_is_taken(
    buffer: BufferView,
    hash: Seq<char>,
    length: usize,
    now: Moment,
    event: BufferedView,
)
    ensures
        ({
            let (next, found) = buffer.taken(hash, length, now);
            let stays = event.reserved || now.within(event.at, 10_000);
            &&& (forall|k: int|
                0 <= k < buffer.events.len() ==> !is_wanted(
                    #[trigger] buffer.events[k],
                    hash,
                    length,
                    now,
                )) ==> found is None
            &&& found is None ==> (next.events.contains(event) <==> buffer.events.contains(event)
                && stays)
            &&& next.events.contains(event) ==> buffer.events.contains(event) && stays
            &&& buffer.events.contains(event) && stays && !is_wanted(event, hash, length, now)
                ==> next.events.contains(event)
            &&& next.receipts == buffer.receipts
            &&& next.activity == buffer.activity
        }),
{
    let stays = |event: BufferedView| event.stays_at(now);
    let reports = |event: BufferedView| event.reports(hash, length, now);
    let kept = buffer.events.filter(stays);
    sequences::lemma_filter_members(buffer.events, stays);
    sequences::lemma_last_index(kept, reports);
    let (next, found) = buffer.taken(hash, length, now);
    let at = sequences::last_index(kept, reports);
    if at >= 0 {
        assert(reports(kept[at]));
        assert(kept.contains(kept[at]));
        let i = choose|i: int| 0 <= i < buffer.events.len() && buffer.events[i] == kept[at];
        assert(is_wanted(buffer.events[i], hash, length, now));
        if next.events.contains(event) {
            let k = choose|k: int| 0 <= k < next.events.len() && next.events[k] == event;
            let from = if k < at {
                k
            } else {
                k + 1
            };
            assert(kept[from] == event);
            assert(kept.contains(event));
        }
        if kept.contains(event) && !is_wanted(event, hash, length, now) {
            let k = choose|k: int| 0 <= k < kept.len() && kept[k] == event;
            let to = if k < at {
                k
            } else {
                k - 1
            };
            assert(k != at);
            assert(next.events[to] == event);
        }
    }
}

/// A receipt and a report are a pair exactly if both are free, of the same content, and lie no
/// further apart than is allowed.
pub proof fn pairs_are_of_one_content(buffer: BufferView, r: int, e: int, allowed_ms: i64)
    requires
        0 <= r < buffer.receipts.len(),
        0 <= e < buffer.events.len(),
        allowed_ms < i64::MAX,
    ensures
        ({
            let pending = buffer.receipts[r];
            let report = buffer.events[e];
            let apart = pending.receipt.copy_timestamp - report.at.millis();
            &&& buffer.is_pair(r, e, allowed_ms) <==> {
                &&& !pending.reserved
                &&& !report.reserved
                &&& text::ascii_lowercase(pending.hash) == text::ascii_lowercase(
                    report.event.content_hash,
                )
                &&& pending.length == report.event.content_length
                &&& -allowed_ms <= apart <= allowed_ms
            }
            &&& buffer.pair_delay(r, e) == if apart < 0 {
                -apart
            } else {
                apart
            }
        }),
{
}

/// No pair lies closer together than the one that is chosen, and of those that lie as close none
/// has an earlier receipt.
pub proof fn the_closest_pair_is_chosen(
    buffer: BufferView,
    r: int,
    e: int,
    other_r: int,
    other_e: int,
    allowed_ms: i64,
)
    requires
        buffer.is_best_pair(r, e, allowed_ms),
        buffer.is_pair(other_r, other_e, allowed_ms),
    ensures
        buffer.is_pair(r, e, allowed_ms),
        ({
            let chosen = buffer.receipts[r].receipt.copy_timestamp - buffer.events[e].at.millis();
            let other = buffer.receipts[other_r].receipt.copy_timestamp
                - buffer.events[other_e].at.millis();
            let near = if chosen < 0 {
                -chosen
            } else {
                chosen
            };
            let far = if other < 0 {
                -other
            } else {
                other
            };
            near <= far && (near == far ==> r <= other_r && (r == other_r ==> e <= other_e))
        }),
{
}

/// No receipt for a report lies closer to it than the one that is chosen.
pub proof fn the_closest_receipt_is_chosen(
    buffer: BufferView,
    r: int,
    other: int,
    hash: Seq<char>,
    length: usize,
    event_ms: i64,
    allowed_ms: i64,
)
    requires
        buffer.is_best_receipt(r, hash, length, event_ms, allowed_ms),
    ensures
        ({
            let chosen = buffer.receipts[r];
            let pending = buffer.receipts[other];
            let near = buffer::distance(chosen.receipt.copy_timestamp as int, event_ms as int);
            let far = buffer::distance(pending.receipt.copy_timestamp as int, event_ms as int);
            &&& 0 <= r < buffer.receipts.len()
            &&& !chosen.reserved
            &&& text::ascii_lowercase(chosen.hash) == text::ascii_lowercase(hash)
            &&& chosen.length == length
            &&& near <= allowed_ms
            &&& 0 <= other < buffer.receipts.len() && !pending.reserved && text::ascii_lowercase(
                pending.hash,
            ) == text::ascii_lowercase(hash) && pending.length == length ==> near <= far && (near
                == far ==> r <= other)
        }),
{
    if 0 <= other < buffer.receipts.len() && buffer.receipts[other].answers(
        hash,
        length,
        event_ms as int,
        allowed_ms,
    ) {
    }
}

/// The distance of two numbers is how far the larger lies above the smaller.
pub proof fn distances_have_no_sign(a: int, b: int)
    ensures
        a <= b ==> buffer::distance(a, b) == b - a,
        b <= a ==> buffer::distance(a, b) == a - b,
{
}

/// A pair that was attached goes; where the receipt was stale, it goes and the report waits on;
/// where nothing could be changed, both wait on.
pub proof fn settled_pairs_go_or_wait(
    buffer: BufferView,
    r: int,
    e: int,
    outcome: PairOutcome,
)
    requires
        0 <= r < buffer.receipts.len(),
        0 <= e < buffer.events.len(),
        forall|k: int|
            0 <= k < r ==> (#[trigger] buffer.receipts[k]).receipt.receipt_id
                != buffer.receipts[r].receipt.receipt_id,
        forall|k: int|
            0 <= k < e ==> (#[trigger] buffer.events[k]).event.event_id
                != buffer.events[e].event.event_id,
    ensures
        ({
            let next = buffer.settled(
                buffer.events[e].event.event_id,
                buffer.receipts[r].receipt.receipt_id,
                outcome,
            );
            &&& next.activity == buffer.activity
            &&& outcome == PairOutcome::Attached ==> {
                &&& next.events == buffer.events.remove(e)
                &&& next.receipts == buffer.receipts.remove(r)
            }
            &&& outcome == PairOutcome::Stale ==> {
                &&& next.receipts == buffer.receipts.remove(r)
                &&& next.events.len() == buffer.events.len()
                &&& !next.events[e].reserved
                &&& next.events[e].event == buffer.events[e].event
                &&& next.events[e].at == buffer.events[e].at
            }
            &&& outcome == PairOutcome::Failed ==> {
                &&& next.receipts.len() == buffer.receipts.len()
                &&& !next.receipts[r].reserved
                &&& next.receipts[r].receipt == buffer.receipts[r].receipt
                &&& next.events.len() == buffer.events.len()
                &&& !next.events[e].reserved
                &&& next.events[e].event == buffer.events[e].event
            }
            &&& outcome != PairOutcome::Attached ==> forall|k: int|
                0 <= k < buffer.events.len() && k != e ==> #[trigger] next.events[k]
                    == buffer.events[k]
            &&& outcome == PairOutcome::Failed ==> forall|k: int|
                0 <= k < buffer.receipts.len() && k != r ==> #[trigger] next.receipts[k]
                    == buffer.receipts[k]
        }),
{
    let event_id = buffer.events[e].event.event_id;
    let receipt_id = buffer.receipts[r].receipt.receipt_id;
    sequences::lemma_is_first_index(
        buffer.events,
        |event: BufferedView| event.event.event_id == event_id,
        e,
    );
    sequences::lemma_is_first_index(
        buffer.receipts,
        |receipt: PendingView| receipt.receipt.receipt_id == receipt_id,
        r,
    );
    assert(buffer.without_event(event_id).receipt_position(receipt_id) == r);
    assert(buffer.without_receipt(receipt_id).event_position(event_id) == e);
    assert(buffer.receipt_released(receipt_id).event_position(event_id) == e);
}

/// Where no receipt and report lie within two seconds of each other, bringing them together changes
/// nothing; and where nothing is attached, the history stays as it is.
pub proof fn without_pairs_nothing_is_attached(
    fuel: nat,
    before: BufferView,
    history: RepositoryView,
    after: BufferView,
    next: RepositoryView,
    attached: int,
)
    requires
        reconcile::reconciles(fuel, before, history, after, next, attached),
    ensures
        attached >= 0,
        attached <= fuel,
        attached == 0 ==> next == history,
        (forall|r: int, e: int| !#[trigger] before.is_pair(r, e, 2000)) ==> after == before && next
            == history && attached == 0,
    decreases fuel,
{
    if forall|r: int, e: int| !#[trigger] before.is_pair(r, e, 2000) {
        if attached != 0 || after != before || next != history {
            let (r, e, id) = choose|r: int, e: int, id: u128|
                {
                    let event = before.events[e].event;
                    let receipt = before.receipts[r].receipt;
                    let result = #[trigger] reconcile::attach_pair(
                        history,
                        before,
                        r,
                        e,
                        crate::identity::uuid_text(id),
                    );
                    id != 0 && before.is_best_pair(r, e, 2000)
                };
            assert(before.is_pair(r, e, 2000));
        }
    } else {
        let (r, e, id) = choose|r: int, e: int, id: u128|
            {
                let event = before.events[e].event;
                let receipt = before.receipts[r].receipt;
                let result = #[trigger] reconcile::attach_pair(
                    history,
                    before,
                    r,
                    e,
                    crate::identity::uuid_text(id),
                );
                let settled = before.pair_reserved(r, e).settled(
                    event.event_id,
                    receipt.receipt_id,
                    reconcile::outcome_of(result),
                );
                &&& id != 0
                &&& before.is_best_pair(r, e, 2000)
                &&& match reconcile::outcome_of(result) {
                    PairOutcome::Attached => reconcile::reconciles(
                        (fuel - 1) as nat,
                        settled,
                        reconcile::history_of(history, result),
                        after,
                        next,
                        attached - 1,
                    ),
                    PairOutcome::Stale => reconcile::reconciles(
                        (fuel - 1) as nat,
                        settled,
                        history,
                        after,
                        next,
                        attached,
                    ),
                    PairOutcome::Failed => after == settled && next == history && attached == 0,
                }
            };
        let event = before.events[e].event;
        let receipt = before.receipts[r].receipt;
        let result = reconcile::attach_pair(
            history,
            before,
            r,
            e,
            crate::identity::uuid_text(id),
        );
        let settled = before.pair_reserved(r, e).settled(
            event.event_id,
            receipt.receipt_id,
            reconcile::outcome_of(result),
        );
        match reconcile::outcome_of(result) {
            PairOutcome::Attached => {
                without_pairs_nothing_is_attached(
                    (fuel - 1) as nat,
                    settled,
                    reconcile::history_of(history, result),
                    after,
                    next,
                    attached - 1,
                );
            },
            PairOutcome::Stale => {
                without_pairs_nothing_is_attached(
                    (fuel - 1) as nat,
                    settled,
                    history,
                    after,
                    next,
                    attached,
                );
            },
            PairOutcome::Failed => {},
        }
    }
}

/// A line is a greeting or a report exactly if its event says so and it takes no more than 16384
/// bytes.
pub proof fn lines_are_told_apart_by_their_event(
    bytes: nat,
    event: Result<Option<MemberView>, Seq<char>>,
)
    ensures
        ({
            let kind = protocol::kind_of(bytes, event);
            let says_status = event == Ok::<Option<MemberView>, Seq<char>>(
                Some(MemberView::Text("status"@)),
            );
            let says_copy = event == Ok::<Option<MemberView>, Seq<char>>(
                Some(MemberView::Text("copy"@)),
            );
            &&& kind == LineKind::TooLong <==> bytes > 16_384
            &&& kind == LineKind::NotJson <==> bytes <= 16_384 && event is Err
            &&& kind == LineKind::Status <==> bytes <= 16_384 && says_status
            &&& kind == LineKind::Copy <==> bytes <= 16_384 && says_copy
            &&& kind == LineKind::Unknown <==> bytes <= 16_384 && event is Ok && !says_status
                && !says_copy
        }),
{
    reveal_strlit("status");
    reveal_strlit("copy");
    assert("status"@.len() != "copy"@.len());
}

/// What is sent back.
pub proof fn answers_are_these(reply: LineReply)
    ensures
        reply is Stop || reply is Silence <==> reply.line() is None,
        reply is Accepted ==> reply.line() == Some("{\"ok\":true,\"accepted\":true}\n"@),
        reply is ValidationFailed ==> reply.line() == Some(
            "{\"ok\":false,\"error\":\"validation_failed\"}\n"@,
        ),
        reply is InvalidPayload ==> reply.line() == Some(
            "{\"ok\":false,\"error\":\"invalid_payload\"}\n"@,
        ),
        reply is UnknownEvent ==> reply.line() == Some(
            "{\"ok\":false,\"error\":\"unknown_event\"}\n"@,
        ),
{
}

/// A report that is refused changes nothing; one that is accepted is answered so, and then brought
/// together with the receipts that wait.
pub proof fn refused_reports_change_nothing(
    before: BufferView,
    history: RepositoryView,
    after: BufferView,
    next: RepositoryView,
    event: EventView,
    now_ms: i64,
    fresh_id: u128,
    reply: LineReply,
    attached: usize,
)
    requires
        protocol::copy_taken(before, history, after, next, event, now_ms, fresh_id, reply, attached),
    ensures
        event.problem() is Some ==> reply == LineReply::ValidationFailed && after == before && next
            == history && attached == 0,
        event.problem() is None ==> reply == LineReply::Accepted && reconcile::reconciles(
            before.with_event(event.normal_form(fresh_id), now_ms).receipts.len(),
            before.with_event(event.normal_form(fresh_id), now_ms),
            history,
            after,
            next,
            attached as int,
        ),
{
}

/// A greeting is recorded and changes nothing else.
pub proof fn greetings_are_recorded(buffer: BufferView, now: i64)
    ensures
        buffer.greeted(now).activity.extension_handshake_at == now,
        buffer.greeted(now).activity.copy_metadata_at == buffer.activity.copy_metadata_at,
        buffer.greeted(now).events == buffer.events,
        buffer.greeted(now).receipts == buffer.receipts,
{
}

/// A line that is too long, no JSON or of an unknown event changes nothing and is answered so; a
/// greeting is recorded and changes nothing else; a report that cannot be read changes nothing.
pub proof fn lines_are_answered<P: FnOnce() -> Option<BrowserCopyEvent>>(
    kind: LineKind,
    before: BufferView,
    history: RepositoryView,
    after: BufferView,
    next: RepositoryView,
    parse: P,
    reply: LineReply,
    attached: usize,
)
    requires
        protocol::line_answered(kind, before, history, after, next, parse, reply, attached),
    ensures
        kind == LineKind::TooLong ==> reply == LineReply::Stop,
        kind == LineKind::NotJson ==> reply == LineReply::Silence,
        kind == LineKind::Unknown ==> reply == LineReply::UnknownEvent,
        kind == LineKind::Status ==> reply == LineReply::Accepted,
        kind == LineKind::Copy ==> reply == LineReply::Accepted || reply
            == LineReply::ValidationFailed || reply == LineReply::InvalidPayload,
        kind != LineKind::Copy ==> next == history && attached == 0 && after.events == before.events
            && after.receipts == before.receipts,
        kind != LineKind::Copy && kind != LineKind::Status ==> after == before,
        reply == LineReply::InvalidPayload || reply == LineReply::ValidationFailed ==> after
            == before && next == history && attached == 0,
        attached == 0 ==> next == history,
{
    if kind == LineKind::Copy {
        let parsed = choose|parsed: Option<BrowserCopyEvent>|
            {
                &&& #[trigger] call_ensures(parse, (), parsed)
                &&& match parsed {
                    None => reply == LineReply::InvalidPayload && after == before && next == history
                        && attached == 0,
                    Some(event) => exists|now_ms: i64, fresh_id: u128|
                        now_ms >= 0 && fresh_id != 0 && #[trigger] protocol::copy_taken(
                            before,
                            history,
                            after,
                            next,
                            event@,
                            now_ms,
                            fresh_id,
                            reply,
                            attached,
                        ),
                }
            };
        if let Some(event) = parsed {
            let (now_ms, fresh_id) = choose|now_ms: i64, fresh_id: u128|
                now_ms >= 0 && fresh_id != 0 && #[trigger] protocol::copy_taken(
                    before,
                    history,
                    after,
                    next,
                    event@,
                    now_ms,
                    fresh_id,
                    reply,
                    attached,
                );
            if event@.problem() is None {
                let pushed = before.with_event(event@.normal_form(fresh_id), now_ms);
                without_pairs_nothing_is_attached(
                    pushed.receipts.len(),
                    pushed,
                    history,
                    after,
                    next,
                    attached as int,
                );
            }
        }
    }
}

} // verus!
