//! Reports of the browser and receipts of saved clips that wait for each other.

use crate::browser_metadata::{record_copy_metadata_received_at, BrowserActivity,
    BrowserCopyEvent, ClipUpsertReceipt, EventError, EventView, ReceiptView};
use crate::clock::{now_millis, parse_rfc3339, Moment};
use crate::identity::random_uuid;
use crate::sequences;
use crate::text;
use crate::text::{equals_ignoring_ascii_case, to_lower};
use vstd::prelude::*;

verus! {

/// How many reports and how many receipts are kept.
pub const BUFFER_LIMIT: usize = 64;

/// How long reports and receipts are kept, in milliseconds.
pub const STALE_AFTER_MS: u32 = 10_000;

/// How far a report and a copy seen now may lie apart, in milliseconds.
pub const TAKE_WINDOW_MS: u32 = 2_500;

/// A report with the moment of the copy. A reserved one is being attached to a clip.
#[derive(Debug)]
pub struct BufferedEvent {
    pub at: Moment,
    pub event: BrowserCopyEvent,
    pub reserved: bool,
}

#[verifier::ext_equal]
pub struct BufferedView {
    pub at: Moment,
    pub event: EventView,
    pub reserved: bool,
}

impl View for BufferedEvent {
    type V = BufferedView;

    open spec fn view(&self) -> BufferedView {
        BufferedView { at: self.at, event: self.event@, reserved: self.reserved }
    }
}

/// A receipt with the hash and length by which it is found. A reserved one is being used.
struct PendingReceipt {
    hash: String,
    length: usize,
    receipt: ClipUpsertReceipt,
    reserved: bool,
}

#[verifier::ext_equal]
pub struct PendingView {
    pub hash: Seq<char>,
    pub length: usize,
    pub receipt: ReceiptView,
    pub reserved: bool,
}

impl View for PendingReceipt {
    type V = PendingView;

    closed spec fn view(&self) -> PendingView {
        PendingView {
            hash: self.hash@,
            length: self.length,
            receipt: self.receipt@,
            reserved: self.reserved,
        }
    }
}

pub struct MetadataBuffer {
    events: Vec<BufferedEvent>,
    receipts: Vec<PendingReceipt>,
    activity: BrowserActivity,
}

#[verifier::ext_equal]
pub struct BufferView {
    pub events: Seq<BufferedView>,
    pub receipts: Seq<PendingView>,
    pub activity: BrowserActivity,
}

spec fn event_views(events: Seq<BufferedEvent>) -> Seq<BufferedView> {
    events.map_values(|event: BufferedEvent| event@)
}

spec fn receipt_views(receipts: Seq<PendingReceipt>) -> Seq<PendingView> {
    receipts.map_values(|receipt: PendingReceipt| receipt@)
}

impl View for MetadataBuffer {
    type V = BufferView;

    closed spec fn view(&self) -> BufferView {
        BufferView {
            events: event_views(self.events@),
            receipts: receipt_views(self.receipts@),
            activity: self.activity,
        }
    }
}

/// The distance between two numbers.
pub open spec fn distance(a: int, b: int) -> int {
    if a < b {
        b - a
    } else {
        a - b
    }
}

fn distance_of(a: i64, b: i64) -> (apart: i128)
    ensures
        apart == distance(a as int, b as int),
{
    let x: i128 = a as i128;
    let y: i128 = b as i128;
    if x < y {
        y - x
    } else {
        x - y
    }
}

/// The last [`BUFFER_LIMIT`] items.
pub open spec fn capped<A>(items: Seq<A>) -> Seq<A> {
    if items.len() > BUFFER_LIMIT {
        items.skip(items.len() - BUFFER_LIMIT)
    } else {
        items
    }
}

impl BufferedView {
    /// Kept at `now`: reserved, or not older and not newer than [`STALE_AFTER_MS`].
    pub open spec fn stays(self, now_ms: i64) -> bool {
        self.reserved || distance(now_ms as int, self.at.millis()) <= STALE_AFTER_MS
    }

    /// As [`Self::stays`], for a moment with a fraction of a millisecond.
    pub open spec fn stays_at(self, now: Moment) -> bool {
        self.reserved || now.within(self.at, STALE_AFTER_MS as int)
    }

    /// Reports the copy of this content seen at `now`.
    pub open spec fn reports(self, hash: Seq<char>, length: usize, now: Moment) -> bool {
        &&& !self.reserved
        &&& text::same_ignoring_ascii_case(self.event.content_hash, hash)
        &&& self.event.content_length == length
        &&& now.within(self.at, TAKE_WINDOW_MS as int)
    }
}

impl PendingView {
    pub open spec fn stays(self, now_ms: i64) -> bool {
        self.reserved || distance(now_ms as int, self.receipt.copy_timestamp as int)
            <= STALE_AFTER_MS
    }

    /// Free, for this content, and made at most so long before or after the report.
    pub open spec fn answers(
        self,
        hash: Seq<char>,
        length: usize,
        event_ms: int,
        allowed_ms: i64,
    ) -> bool {
        &&& !self.reserved
        &&& text::same_ignoring_ascii_case(self.hash, hash)
        &&& self.length == length
        &&& self.delay(event_ms) <= allowed_ms
        &&& self.delay(event_ms) < i64::MAX
    }

    pub open spec fn delay(self, event_ms: int) -> int {
        distance(self.receipt.copy_timestamp as int, event_ms)
    }
}

impl BufferView {
    /// Bounded queues of accepted reports, each with the moment of its time stamp.
    pub open spec fn wf(self) -> bool {
        &&& self.events.len() <= BUFFER_LIMIT
        &&& self.receipts.len() <= BUFFER_LIMIT
        &&& forall|i: int|
            0 <= i < self.events.len() ==> #[trigger] is_dated(self.events[i])
    }

    /// Without what is stale at `now`.
    pub open spec fn cleaned(self, now_ms: i64) -> BufferView {
        BufferView {
            events: self.events.filter(|event: BufferedView| event.stays(now_ms)),
            receipts: self.receipts.filter(|receipt: PendingView| receipt.stays(now_ms)),
            ..self
        }
    }

    /// With one report more, received at `now`.
    pub open spec fn with_event(self, event: EventView, now_ms: i64) -> BufferView {
        BufferView {
            events: capped(
                self.events.push(
                    BufferedView { at: event.moment()->0, event, reserved: false },
                ),
            ),
            activity: BrowserActivity { copy_metadata_at: now_ms, ..self.activity },
            ..self
        }.cleaned(now_ms)
    }

    /// With one receipt more, received at `now`.
    pub open spec fn with_receipt(
        self,
        hash: Seq<char>,
        length: usize,
        receipt: ReceiptView,
        now_ms: i64,
    ) -> BufferView {
        BufferView {
            receipts: capped(
                self.receipts.push(
                    PendingView { hash: text::lowered(hash), length, receipt, reserved: false },
                ),
            ),
            ..self
        }.cleaned(now_ms)
    }

    /// The latest free report of this content, and the buffer without it.
    pub open spec fn taken(self, hash: Seq<char>, length: usize, now: Moment) -> (
        BufferView,
        Option<EventView>,
    ) {
        let kept = self.events.filter(|event: BufferedView| event.stays_at(now));
        let at = sequences::last_index(
            kept,
            |event: BufferedView| event.reports(hash, length, now),
        );
        if at >= 0 {
            (BufferView { events: kept.remove(at), ..self }, Some(kept[at].event))
        } else {
            (BufferView { events: kept, ..self }, None)
        }
    }

    pub open spec fn event_position(self, event_id: u128) -> int {
        sequences::first_index(self.events, |event: BufferedView| event.event.event_id == event_id)
    }

    pub open spec fn receipt_position(self, receipt_id: u128) -> int {
        sequences::first_index(
            self.receipts,
            |receipt: PendingView| receipt.receipt.receipt_id == receipt_id,
        )
    }

    pub open spec fn without_event(self, event_id: u128) -> BufferView {
        let at = self.event_position(event_id);
        if at < self.events.len() {
            BufferView { events: self.events.remove(at), ..self }
        } else {
            self
        }
    }

    pub open spec fn without_receipt(self, receipt_id: u128) -> BufferView {
        let at = self.receipt_position(receipt_id);
        if at < self.receipts.len() {
            BufferView { receipts: self.receipts.remove(at), ..self }
        } else {
            self
        }
    }

    pub open spec fn event_reserved(self, at: int, reserved: bool) -> BufferView {
        BufferView {
            events: self.events.update(at, BufferedView { reserved, ..self.events[at] }),
            ..self
        }
    }

    pub open spec fn receipt_reserved(self, at: int, reserved: bool) -> BufferView {
        BufferView {
            receipts: self.receipts.update(at, PendingView { reserved, ..self.receipts[at] }),
            ..self
        }
    }

    pub open spec fn event_released(self, event_id: u128) -> BufferView {
        let at = self.event_position(event_id);
        if at < self.events.len() {
            self.event_reserved(at, false)
        } else {
            self
        }
    }

    pub open spec fn receipt_released(self, receipt_id: u128) -> BufferView {
        let at = self.receipt_position(receipt_id);
        if at < self.receipts.len() {
            self.receipt_reserved(at, false)
        } else {
            self
        }
    }

    /// A free receipt and a free report of the same content that lie close enough together.
    pub open spec fn is_pair(self, r: int, e: int, allowed_ms: i64) -> bool {
        &&& 0 <= r < self.receipts.len()
        &&& 0 <= e < self.events.len()
        &&& !self.events[e].reserved
        &&& self.receipts[r].answers(
            self.events[e].event.content_hash,
            self.events[e].event.content_length,
            self.events[e].at.millis(),
            allowed_ms,
        )
    }

    pub open spec fn pair_delay(self, r: int, e: int) -> int {
        self.receipts[r].delay(self.events[e].at.millis())
    }

    /// The closest pair; of equally close ones that with the earliest receipt, then that with the
    /// earliest report.
    pub open spec fn is_best_pair(self, r: int, e: int, allowed_ms: i64) -> bool {
        &&& self.is_pair(r, e, allowed_ms)
        &&& forall|r2: int, e2: int| #[trigger]
            self.is_pair(r2, e2, allowed_ms) ==> self.pair_delay(r, e) < self.pair_delay(r2, e2)
                || (self.pair_delay(r, e) == self.pair_delay(r2, e2) && (r < r2 || (r == r2 && e
                <= e2)))
    }

    /// The closest free receipt for a report; of equally close ones the earliest.
    pub open spec fn is_best_receipt(
        self,
        r: int,
        hash: Seq<char>,
        length: usize,
        event_ms: i64,
        allowed_ms: i64,
    ) -> bool {
        &&& 0 <= r < self.receipts.len()
        &&& self.receipts[r].answers(hash, length, event_ms as int, allowed_ms)
        &&& forall|r2: int|
            0 <= r2 < self.receipts.len() && #[trigger] self.receipts[r2].answers(
                hash,
                length,
                event_ms as int,
                allowed_ms,
            ) ==> self.receipts[r].delay(event_ms as int) < self.receipts[r2].delay(event_ms as int)
                || (self.receipts[r].delay(event_ms as int) == self.receipts[r2].delay(
                event_ms as int,
            ) && r <= r2)
    }
}

/// The moment is that of the report's time stamp.
pub open spec fn is_dated(event: BufferedView) -> bool {
    event.event.moment() == Some(event.at) && event.at.is_civil()
}

impl Default for MetadataBuffer {
    fn default() -> (buffer: Self)
        ensures
            buffer@ == (BufferView {
                events: Seq::empty(),
                receipts: Seq::empty(),
                activity: BrowserActivity { extension_handshake_at: 0, copy_metadata_at: 0 },
            }),
            buffer@.wf(),
    {
        let buffer = MetadataBuffer {
            events: Vec::new(),
            receipts: Vec::new(),
            activity: BrowserActivity::default(),
        };
        assert(buffer@.events =~= Seq::empty());
        assert(buffer@.receipts =~= Seq::empty());
        buffer
    }
}

impl MetadataBuffer {
    /// When the extension was last heard of.
    pub fn activity(&self) -> (activity: &BrowserActivity)
        ensures
            *activity == self@.activity,
    {
        &self.activity
    }

    pub fn set_activity(&mut self, activity: BrowserActivity)
        ensures
            final(self)@ == (BufferView { activity, ..old(self)@ }),
    {
        self.activity = activity;
    }

    fn drop_stale_events(&mut self, now_ms: i64)
        requires
            forall|i: int| 0 <= i < old(self)@.events.len() ==> is_dated(#[trigger] old(self)@.events[i]),
        ensures
            final(self)@ == (BufferView {
                events: old(self)@.events.filter(|event: BufferedView| event.stays(now_ms)),
                ..old(self)@
            }),
    {
        let mut events: Vec<BufferedEvent> = Vec::new();
        std::mem::swap(&mut events, &mut self.events);
        let mut kept: Vec<BufferedEvent> = Vec::new();
        let ghost all = events@;
        let ghost stays = |event: BufferedView| event.stays(now_ms);
        proof {
            reveal(Seq::filter);
            assert(event_views(kept@) =~= event_views(all).take(0).filter(stays));
            assert(event_views(all) == old(self)@.events);
        }
        for event in iter: events.into_iter()
            invariant
                iter.seq() == all,
                stays == (|event: BufferedView| event.stays(now_ms)),
                event_views(kept@) == event_views(all).take(iter.index()).filter(stays),
                forall|i: int| 0 <= i < all.len() ==> is_dated(#[trigger] event_views(all)[i]),
        {
            proof {
                sequences::lemma_filter_take(event_views(all), stays, iter.index());
                assert(is_dated(event_views(all)[iter.index()]));
            }
            if event.reserved || distance_of(now_ms, event.at.to_millis())
                <= STALE_AFTER_MS as i128 {
                let ghost before = kept@;
                kept.push(event);
                proof {
                    assert(event_views(kept@) =~= event_views(before).push(event@));
                }
            }
        }
        self.events = kept;
        proof {
            assert(event_views(all).take(all.len() as int) =~= event_views(all));
        }
    }

    fn drop_stale_receipts(&mut self, now_ms: i64)
        ensures
            final(self)@ == (BufferView {
                receipts: old(self)@.receipts.filter(|receipt: PendingView| receipt.stays(now_ms)),
                ..old(self)@
            }),
    {
        let mut receipts: Vec<PendingReceipt> = Vec::new();
        std::mem::swap(&mut receipts, &mut self.receipts);
        let mut kept: Vec<PendingReceipt> = Vec::new();
        let ghost all = receipts@;
        let ghost stays = |receipt: PendingView| receipt.stays(now_ms);
        proof {
            reveal(Seq::filter);
            assert(receipt_views(kept@) =~= receipt_views(all).take(0).filter(stays));
        }
        for receipt in iter: receipts.into_iter()
            invariant
                iter.seq() == all,
                stays == (|receipt: PendingView| receipt.stays(now_ms)),
                receipt_views(kept@) == receipt_views(all).take(iter.index()).filter(stays),
        {
            proof {
                sequences::lemma_filter_take(receipt_views(all), stays, iter.index());
            }
            if receipt.reserved || distance_of(now_ms, receipt.receipt.copy_timestamp)
                <= STALE_AFTER_MS as i128 {
                let ghost before = kept@;
                kept.push(receipt);
                proof {
                    assert(receipt_views(kept@) =~= receipt_views(before).push(receipt@));
                }
            }
        }
        self.receipts = kept;
        proof {
            assert(receipt_views(all).take(all.len() as int) =~= receipt_views(all));
        }
    }

    /// Drops what has waited too long; reserved items stay.
    pub fn cleanup_stale(&mut self, now_ms: i64)
        requires
            old(self)@.wf(),
        ensures
            final(self)@ == old(self)@.cleaned(now_ms),
            final(self)@.wf(),
    {
        self.drop_stale_events(now_ms);
        self.drop_stale_receipts(now_ms);
        proof {
            lemma_cleaned_wf(old(self)@, now_ms);
        }
    }

    /// [`Self::push`] at a given time, with the identifier for an event that has none.
    pub fn push_at(&mut self, event: BrowserCopyEvent, now_ms: i64, fresh_id: u128) -> (result:
        Result<(), EventError>)
        requires
            old(self)@.wf(),
        ensures
            match event@.problem() {
                Some(problem) => result == Err::<(), EventError>(problem) && final(self)@ == old(
                    self,
                )@,
                None => result is Ok && final(self)@ == old(self)@.with_event(
                    event@.normal_form(fresh_id),
                    now_ms,
                ),
            },
            final(self)@.wf(),
    {
        let event = match event.validate_as(fresh_id) {
            Ok(event) => event,
            Err(problem) => return Err(problem),
        };
        let at = match parse_rfc3339(event.timestamp.as_str()) {
            Some(at) => at,
            None => return Err(EventError::BadTimestamp),
        };
        record_copy_metadata_received_at(&mut self.activity, now_ms);
        let buffered = BufferedEvent { at, event, reserved: false };
        let ghost before = self.events@;
        self.events.push(buffered);
        proof {
            assert(event_views(self.events@) =~= event_views(before).push(buffered@));
        }
        if self.events.len() > BUFFER_LIMIT {
            let ghost full = self.events@;
            let _ = self.events.remove(0);
            proof {
                assert(event_views(self.events@) =~= event_views(full).skip(1));
            }
        }
        proof {
            assert(self@.events =~= capped(old(self)@.events.push(buffered@)));
            assert forall|i: int| 0 <= i < self@.events.len() implies is_dated(
                #[trigger] self@.events[i],
            ) by {
                let shift: int = if old(self)@.events.len() == BUFFER_LIMIT {
                    1
                } else {
                    0
                };
                assert(self@.events[i] == old(self)@.events.push(buffered@)[i + shift]);
                if i + shift < old(self)@.events.len() {
                    assert(is_dated(old(self)@.events[i + shift]));
                }
            }
        }
        self.cleanup_stale(now_ms);
        Ok(())
    }

    /// Takes in a report of the browser.
    pub fn push(&mut self, event: BrowserCopyEvent) -> (result: Result<(), EventError>)
        requires
            old(self)@.wf(),
        ensures
            match event@.problem() {
                Some(problem) => result == Err::<(), EventError>(problem) && final(self)@ == old(
                    self,
                )@,
                None => result is Ok && exists|now_ms: i64, fresh_id: u128|
                    now_ms >= 0 && fresh_id != 0 && final(self)@ == #[trigger] old(
                        self,
                    )@.with_event(
                        event@.normal_form(fresh_id),
                        now_ms,
                    ),
            },
            final(self)@.wf(),
    {
        self.push_at(event, now_millis(), random_uuid())
    }

    fn drop_distant_events(&mut self, now: Moment)
        ensures
            final(self)@ == (BufferView {
                events: old(self)@.events.filter(|event: BufferedView| event.stays_at(now)),
                ..old(self)@
            }),
    {
        let mut events: Vec<BufferedEvent> = Vec::new();
        std::mem::swap(&mut events, &mut self.events);
        let mut kept: Vec<BufferedEvent> = Vec::new();
        let ghost all = events@;
        let ghost stays = |event: BufferedView| event.stays_at(now);
        proof {
            reveal(Seq::filter);
            assert(event_views(kept@) =~= event_views(all).take(0).filter(stays));
        }
        for event in iter: events.into_iter()
            invariant
                iter.seq() == all,
                stays == (|event: BufferedView| event.stays_at(now)),
                event_views(kept@) == event_views(all).take(iter.index()).filter(stays),
        {
            proof {
                sequences::lemma_filter_take(event_views(all), stays, iter.index());
            }
            if event.reserved || now.is_within(&event.at, STALE_AFTER_MS) {
                let ghost before = kept@;
                kept.push(event);
                proof {
                    assert(event_views(kept@) =~= event_views(before).push(event@));
                }
            }
        }
        self.events = kept;
        proof {
            assert(event_views(all).take(all.len() as int) =~= event_views(all));
        }
    }

    /// Takes out the latest free report of this content, if one is close enough to `now`.
    pub fn take_match(&mut self, hash: &str, length: usize, now: Moment) -> (found: Option<
        BrowserCopyEvent,
    >)
        requires
            old(self)@.wf(),
        ensures
            final(self)@ == old(self)@.taken(hash@, length, now).0,
            match found {
                Some(event) => old(self)@.taken(hash@, length, now).1 == Some(event@),
                None => old(self)@.taken(hash@, length, now).1 is None,
            },
            final(self)@.wf(),
    {
        self.drop_distant_events(now);
        proof {
            lemma_kept_events_wf(old(self)@, |event: BufferedView| event.stays_at(now));
        }
        let ghost kept = *self;
        let ghost views = self@.events;
        let ghost wanted = |event: BufferedView| event.reports(hash@, length, now);
        let mut i: usize = self.events.len();
        while i > 0
            invariant
                i <= self.events@.len(),
                *self == kept,
                kept@ == (BufferView {
                    events: old(self)@.events.filter(|event: BufferedView| event.stays_at(now)),
                    ..old(self)@
                }),
                views == kept@.events,
                views == event_views(self.events@),
                wanted == (|event: BufferedView| event.reports(hash@, length, now)),
                forall|k: int| i <= k < views.len() ==> !wanted(#[trigger] views[k]),
                kept@.wf(),
            decreases i,
        {
            i -= 1;
            let candidate = &self.events[i];
            let wanted_here = !candidate.reserved && equals_ignoring_ascii_case(
                candidate.event.content_hash.as_str(),
                hash,
            ) && candidate.event.content_length == length && now.is_within(
                &candidate.at,
                TAKE_WINDOW_MS,
            );
            proof {
                assert(wanted_here == wanted(views[i as int]));
            }
            if wanted_here {
                proof {
                    sequences::lemma_is_last_index(views, wanted, i as int);
                }
                let taken = self.events.remove(i);
                proof {
                    assert(self@.events =~= views.remove(i as int));
                    assert forall|k: int| 0 <= k < self@.events.len() implies is_dated(
                        #[trigger] self@.events[k],
                    ) by {
                        assert(is_dated(views[if k < i {
                            k
                        } else {
                            k + 1
                        }]));
                    }
                }
                return Some(taken.event);
            }
        }
        proof {
            sequences::lemma_is_last_index(views, wanted, -1);
        }
        None
    }

    fn find_event(&self, event_id: u128) -> (at: usize)
        ensures
            at == self@.event_position(event_id),
            at <= self.events@.len(),
    {
        let ghost views = self@.events;
        let ghost wanted = |event: BufferedView| event.event.event_id == event_id;
        let mut i: usize = 0;
        while i < self.events.len() && self.events[i].event.event_id != event_id
            invariant
                i <= self.events@.len(),
                views == event_views(self.events@),
                wanted == (|event: BufferedView| event.event.event_id == event_id),
                forall|k: int| 0 <= k < i ==> !wanted(#[trigger] views[k]),
            ensures
                i < self.events@.len() ==> wanted(views[i as int]),
            decreases self.events@.len() - i,
        {
            i += 1;
        }
        proof {
            sequences::lemma_is_first_index(views, wanted, i as int);
        }
        i
    }

    fn find_receipt(&self, receipt_id: u128) -> (at: usize)
        ensures
            at == self@.receipt_position(receipt_id),
            at <= self.receipts@.len(),
    {
        let ghost views = self@.receipts;
        let ghost wanted = |receipt: PendingView| receipt.receipt.receipt_id == receipt_id;
        let mut i: usize = 0;
        while i < self.receipts.len() && self.receipts[i].receipt.receipt_id != receipt_id
            invariant
                i <= self.receipts@.len(),
                views == receipt_views(self.receipts@),
                wanted == (|receipt: PendingView| receipt.receipt.receipt_id == receipt_id),
                forall|k: int| 0 <= k < i ==> !wanted(#[trigger] views[k]),
            ensures
                i < self.receipts@.len() ==> wanted(views[i as int]),
            decreases self.receipts@.len() - i,
        {
            i += 1;
        }
        proof {
            sequences::lemma_is_first_index(views, wanted, i as int);
        }
        i
    }

    pub fn remove_event(&mut self, event_id: u128)
        requires
            old(self)@.wf(),
        ensures
            final(self)@ == old(self)@.without_event(event_id),
            final(self)@.wf(),
    {
        let at = self.find_event(event_id);
        if at < self.events.len() {
            let _ = self.events.remove(at);
            proof {
                assert(self@.events =~= old(self)@.events.remove(at as int));
                assert forall|k: int| 0 <= k < self@.events.len() implies is_dated(
                    #[trigger] self@.events[k],
                ) by {
                    assert(is_dated(old(self)@.events[if k < at {
                        k
                    } else {
                        k + 1
                    }]));
                }
            }
        }
    }

    pub fn remove_receipt(&mut self, receipt_id: u128)
        requires
            old(self)@.wf(),
        ensures
            final(self)@ == old(self)@.without_receipt(receipt_id),
            final(self)@.wf(),
    {
        let at = self.find_receipt(receipt_id);
        if at < self.receipts.len() {
            let _ = self.receipts.remove(at);
            proof {
                assert(self@.receipts =~= old(self)@.receipts.remove(at as int));
                assert(self@.events =~= old(self)@.events);
            }
        }
    }

    /// Frees a reserved report.
    pub fn release_event(&mut self, event_id: u128)
        requires
            old(self)@.wf(),
        ensures
            final(self)@ == old(self)@.event_released(event_id),
            final(self)@.wf(),
    {
        let at = self.find_event(event_id);
        if at < self.events.len() {
            self.set_event_reserved(at, false);
        }
    }

    /// Frees a reserved receipt.
    pub fn release_receipt(&mut self, receipt_id: u128)
        requires
            old(self)@.wf(),
        ensures
            final(self)@ == old(self)@.receipt_released(receipt_id),
            final(self)@.wf(),
    {
        let at = self.find_receipt(receipt_id);
        if at < self.receipts.len() {
            self.set_receipt_reserved(at, false);
        }
    }

    fn set_event_reserved(&mut self, at: usize, reserved: bool)
        requires
            old(self)@.wf(),
            at < old(self)@.events.len(),
        ensures
            final(self)@ == old(self)@.event_reserved(at as int, reserved),
            final(self)@.wf(),
    {
        self.events[at].reserved = reserved;
        proof {
            assert(self@.events =~= old(self)@.event_reserved(at as int, reserved).events);
            assert forall|k: int| 0 <= k < self@.events.len() implies is_dated(
                #[trigger] self@.events[k],
            ) by {
                assert(is_dated(old(self)@.events[k]));
            }
        }
    }

    fn set_receipt_reserved(&mut self, at: usize, reserved: bool)
        requires
            old(self)@.wf(),
            at < old(self)@.receipts.len(),
        ensures
            final(self)@ == old(self)@.receipt_reserved(at as int, reserved),
            final(self)@.wf(),
    {
        self.receipts[at].reserved = reserved;
        proof {
            assert(self@.receipts =~= old(self)@.receipt_reserved(at as int, reserved).receipts);
            assert(self@.events =~= old(self)@.events);
        }
    }

    /// [`Self::push_receipt`] at a given time.
    pub fn push_receipt_at(
        &mut self,
        hash: &str,
        length: usize,
        receipt: ClipUpsertReceipt,
        now_ms: i64,
    )
        requires
            old(self)@.wf(),
        ensures
            final(self)@ == old(self)@.with_receipt(hash@, length, receipt@, now_ms),
            final(self)@.wf(),
    {
        let pending = PendingReceipt { hash: to_lower(hash), length, receipt, reserved: false };
        let ghost before = self.receipts@;
        self.receipts.push(pending);
        proof {
            assert(receipt_views(self.receipts@) =~= receipt_views(before).push(pending@));
        }
        if self.receipts.len() > BUFFER_LIMIT {
            let ghost full = self.receipts@;
            let _ = self.receipts.remove(0);
            proof {
                assert(receipt_views(self.receipts@) =~= receipt_views(full).skip(1));
            }
        }
        proof {
            assert(self@.receipts =~= capped(old(self)@.receipts.push(pending@)));
            assert(self@.events =~= old(self)@.events);
        }
        self.cleanup_stale(now_ms);
    }

    /// Takes in the receipt of a clip saved without a domain.
    pub fn push_receipt(&mut self, hash: &str, length: usize, receipt: ClipUpsertReceipt)
        requires
            old(self)@.wf(),
        ensures
            exists|now_ms: i64|
                final(self)@ == #[trigger] old(self)@.with_receipt(hash@, length, receipt@, now_ms),
            final(self)@.wf(),
    {
        self.push_receipt_at(hash, length, receipt, now_millis())
    }

    /// Whether two items are a pair, and how far they lie apart.
    fn pair_delay_of(&self, r: usize, e: usize, allowed_ms: i64) -> (delay: Option<i128>)
        requires
            self@.wf(),
            r < self@.receipts.len(),
            e < self@.events.len(),
        ensures
            match delay {
                Some(delay) => self@.is_pair(r as int, e as int, allowed_ms) && delay
                    == self@.pair_delay(r as int, e as int),
                None => !self@.is_pair(r as int, e as int, allowed_ms),
            },
    {
        let pending = &self.receipts[r];
        let buffered = &self.events[e];
        proof {
            assert(is_dated(self@.events[e as int]));
        }
        if pending.reserved || buffered.reserved {
            return None;
        }
        if !equals_ignoring_ascii_case(
            pending.hash.as_str(),
            buffered.event.content_hash.as_str(),
        ) || pending.length != buffered.event.content_length {
            return None;
        }
        let delay = distance_of(pending.receipt.copy_timestamp, buffered.at.to_millis());
        if delay <= allowed_ms as i128 && delay < i64::MAX as i128 {
            Some(delay)
        } else {
            None
        }
    }

    /// The positions of the best pair.
    fn best_pair(&self, allowed_ms: i64) -> (best: Option<(usize, usize)>)
        requires
            self@.wf(),
        ensures
            match best {
                Some((r, e)) => self@.is_best_pair(r as int, e as int, allowed_ms),
                None => forall|r: int, e: int| !#[trigger] self@.is_pair(r, e, allowed_ms),
            },
    {
        let mut best: Option<(usize, usize)> = None;
        let mut best_delay: i128 = 0;
        let mut r: usize = 0;
        while r < self.receipts.len()
            invariant
                self@.wf(),
                r <= self@.receipts.len(),
                self.receipts@.len() == self@.receipts.len(),
                self.events@.len() == self@.events.len(),
                match best {
                    Some((br, be)) => self@.is_pair(br as int, be as int, allowed_ms) && best_delay
                        == self@.pair_delay(br as int, be as int) && br < r && forall|
                        r2: int,
                        e2: int,
                    | #[trigger]
                        self@.is_pair(r2, e2, allowed_ms) && r2 < r ==> best_delay
                            < self@.pair_delay(r2, e2) || (best_delay == self@.pair_delay(r2, e2)
                            && (br < r2 || (br == r2 && be <= e2))),
                    None => forall|r2: int, e2: int| #[trigger]
                        self@.is_pair(r2, e2, allowed_ms) ==> r2 >= r,
                },
            decreases self@.receipts.len() - r,
        {
            let mut e: usize = 0;
            while e < self.events.len()
                invariant
                    self@.wf(),
                    r < self@.receipts.len(),
                    e <= self@.events.len(),
                    self.receipts@.len() == self@.receipts.len(),
                    self.events@.len() == self@.events.len(),
                    match best {
                        Some((br, be)) => self@.is_pair(br as int, be as int, allowed_ms)
                            && best_delay == self@.pair_delay(br as int, be as int) && (br < r || (
                        br == r && be < e)) && forall|r2: int, e2: int| #[trigger]
                            self@.is_pair(r2, e2, allowed_ms) && (r2 < r || (r2 == r && e2 < e))
                                ==> best_delay < self@.pair_delay(r2, e2) || (best_delay
                                == self@.pair_delay(r2, e2) && (br < r2 || (br == r2 && be <= e2))),
                        None => forall|r2: int, e2: int| #[trigger]
                            self@.is_pair(r2, e2, allowed_ms) ==> r2 > r || (r2 == r && e2 >= e),
                    },
                decreases self@.events.len() - e,
            {
                if let Some(delay) = self.pair_delay_of(r, e, allowed_ms) {
                    let better = match best {
                        Some(_) => delay < best_delay,
                        None => true,
                    };
                    if better {
                        best = Some((r, e));
                        best_delay = delay;
                    }
                }
                e += 1;
            }
            r += 1;
        }
        best
    }

    /// Reserves the closest pair of a report and a receipt.
    pub fn reserve_matching_pair(&mut self, allowed_delta_ms: i64) -> (pair: Option<
        (BrowserCopyEvent, ClipUpsertReceipt),
    >)
        requires
            old(self)@.wf(),
        ensures
            match pair {
                Some((event, receipt)) => exists|r: int, e: int|
                    {
                        &&& #[trigger] old(self)@.is_best_pair(r, e, allowed_delta_ms)
                        &&& event@ == old(self)@.events[e].event
                        &&& receipt@ == old(self)@.receipts[r].receipt
                        &&& final(self)@ == old(self)@.event_reserved(e, true).receipt_reserved(
                            r,
                            true,
                        )
                    },
                None => final(self)@ == old(self)@ && forall|r: int, e: int| !#[trigger] old(
                    self,
                )@.is_pair(r, e, allowed_delta_ms),
            },
            final(self)@.wf(),
    {
        match self.best_pair(allowed_delta_ms) {
            Some((r, e)) => {
                let event = self.events[e].event.clone();
                let receipt = self.receipts[r].receipt.clone();
                self.set_event_reserved(e, true);
                self.set_receipt_reserved(r, true);
                proof {
                    assert(old(self)@.is_best_pair(r as int, e as int, allowed_delta_ms));
                }
                Some((event, receipt))
            },
            None => None,
        }
    }

    /// The pair has been dealt with.
    pub fn acknowledge_pair(&mut self, event_id: u128, receipt_id: u128)
        requires
            old(self)@.wf(),
        ensures
            final(self)@ == old(self)@.without_event(event_id).without_receipt(receipt_id),
            final(self)@.wf(),
    {
        self.remove_event(event_id);
        self.remove_receipt(receipt_id);
    }

    pub fn discard_pair(&mut self, event_id: u128, receipt_id: u128)
        requires
            old(self)@.wf(),
        ensures
            final(self)@ == old(self)@.without_event(event_id).without_receipt(receipt_id),
            final(self)@.wf(),
    {
        self.acknowledge_pair(event_id, receipt_id);
    }

    /// Takes out the closest free receipt for a report.
    pub fn take_matching_receipt(
        &mut self,
        hash: &str,
        length: usize,
        browser_event_ts_ms: i64,
        allowed_delta_ms: i64,
    ) -> (found: Option<ClipUpsertReceipt>)
        requires
            old(self)@.wf(),
        ensures
            match found {
                Some(receipt) => exists|r: int|
                    {
                        &&& #[trigger] old(self)@.is_best_receipt(
                            r,
                            hash@,
                            length,
                            browser_event_ts_ms,
                            allowed_delta_ms,
                        )
                        &&& receipt@ == old(self)@.receipts[r].receipt
                        &&& final(self)@ == (BufferView {
                            receipts: old(self)@.receipts.remove(r),
                            ..old(self)@
                        })
                    },
                None => final(self)@ == old(self)@ && forall|r: int|
                    0 <= r < old(self)@.receipts.len() ==> !#[trigger] old(
                        self,
                    )@.receipts[r].answers(
                        hash@,
                        length,
                        browser_event_ts_ms as int,
                        allowed_delta_ms,
                    ),
            },
            final(self)@.wf(),
    {
        let mut best: Option<usize> = None;
        let mut best_delay: i128 = 0;
        let ghost views = self@.receipts;
        let ghost event_ms = browser_event_ts_ms as int;
        let mut r: usize = 0;
        while r < self.receipts.len()
            invariant
                *self == *old(self),
                r <= self.receipts@.len(),
                views == receipt_views(self.receipts@),
                views == self@.receipts,
                event_ms == browser_event_ts_ms as int,
                match best {
                    Some(b) => b < r && views[b as int].answers(
                        hash@,
                        length,
                        event_ms,
                        allowed_delta_ms,
                    ) && best_delay == views[b as int].delay(event_ms) && forall|k: int|
                        0 <= k < r && #[trigger] views[k].answers(
                            hash@,
                            length,
                            event_ms,
                            allowed_delta_ms,
                        ) ==> best_delay < views[k].delay(event_ms) || (best_delay
                            == views[k].delay(event_ms) && b <= k),
                    None => forall|k: int|
                        0 <= k < r ==> !#[trigger] views[k].answers(
                            hash@,
                            length,
                            event_ms,
                            allowed_delta_ms,
                        ),
                },
            decreases self.receipts@.len() - r,
        {
            let pending = &self.receipts[r];
            let delay = distance_of(pending.receipt.copy_timestamp, browser_event_ts_ms);
            let answers = !pending.reserved && equals_ignoring_ascii_case(
                pending.hash.as_str(),
                hash,
            ) && pending.length == length && delay <= allowed_delta_ms as i128 && delay
                < i64::MAX as i128;
            proof {
                assert(answers == views[r as int].answers(
                    hash@,
                    length,
                    event_ms,
                    allowed_delta_ms,
                ));
            }
            if answers {
                let better = match best {
                    Some(_) => delay < best_delay,
                    None => true,
                };
                if better {
                    best = Some(r);
                    best_delay = delay;
                }
            }
            r += 1;
        }
        match best {
            Some(at) => {
                let taken = self.receipts.remove(at);
                proof {
                    assert(self@.receipts =~= views.remove(at as int));
                    assert(self@.events =~= old(self)@.events);
                    assert(old(self)@.is_best_receipt(
                        at as int,
                        hash@,
                        length,
                        browser_event_ts_ms,
                        allowed_delta_ms,
                    ));
                }
                Some(taken.receipt)
            },
            None => None,
        }
    }
}

proof fn lemma_kept_events_wf(buffer: BufferView, stays: spec_fn(BufferedView) -> bool)
    requires
        buffer.wf(),
    ensures
        (BufferView { events: buffer.events.filter(stays), ..buffer }).wf(),
{
    sequences::lemma_filter_members(buffer.events, stays);
    let kept = buffer.events.filter(stays);
    assert forall|i: int| 0 <= i < kept.len() implies is_dated(#[trigger] kept[i]) by {
        assert(kept.contains(kept[i]));
        let k = choose|k: int| 0 <= k < buffer.events.len() && buffer.events[k] == kept[i];
        assert(is_dated(buffer.events[k]));
    }
}

proof fn lemma_cleaned_wf(buffer: BufferView, now_ms: i64)
    requires
        buffer.wf(),
    ensures
        buffer.cleaned(now_ms).wf(),
{
    lemma_kept_events_wf(buffer, |event: BufferedView| event.stays(now_ms));
    sequences::lemma_filter_members(
        buffer.receipts,
        |receipt: PendingView| receipt.stays(now_ms),
    );
}

} // verus!
