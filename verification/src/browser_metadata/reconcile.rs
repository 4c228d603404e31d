//! Bringing waiting reports and receipts together.

use crate::browser_metadata::buffer::{BufferView, MetadataBuffer};
use crate::browser_metadata::RECEIPT_MATCH_WINDOW_MS;
use crate::identity;
use crate::persistence::attach;
use crate::persistence::{Repository, RepositoryError, RepositoryView};
use crate::sequences;
use vstd::prelude::*;

verus! {

/// What became of a reserved pair.
#[derive(Debug, Clone, Copy, PartialEq, Eq, Structural)]
pub enum PairOutcome {
    /// The report is attached to a clip.
    Attached,
    /// The receipt no longer fits the stored clip.
    Stale,
    /// The history could not be changed.
    Failed,
}

impl BufferView {
    /// With the closest pair reserved.
    pub open spec fn pair_reserved(self, r: int, e: int) -> BufferView {
        self.event_reserved(e, true).receipt_reserved(r, true)
    }

    /// After a reserved pair has been dealt with: attached, both go; stale, the receipt goes and
    /// the report waits on; failed, both wait on.
    pub open spec fn settled(self, event_id: u128, receipt_id: u128, outcome: PairOutcome) -> BufferView {
        match outcome {
            PairOutcome::Attached => self.without_event(event_id).without_receipt(receipt_id),
            PairOutcome::Stale => self.without_receipt(receipt_id).event_released(event_id),
            PairOutcome::Failed => self.receipt_released(receipt_id).event_released(event_id),
        }
    }
}

/// What attaching a report has come to.
pub open spec fn outcome_of(
    attached: Result<(RepositoryView, Option<Seq<char>>), RepositoryError>,
) -> PairOutcome {
    match attached {
        Ok((_, Some(_))) => PairOutcome::Attached,
        Ok((_, None)) => PairOutcome::Stale,
        Err(_) => PairOutcome::Failed,
    }
}

/// The history after an attempt to attach a report.
pub open spec fn history_of(
    before: RepositoryView,
    attached: Result<(RepositoryView, Option<Seq<char>>), RepositoryError>,
) -> RepositoryView {
    match attached {
        Ok((next, _)) => next,
        Err(_) => before,
    }
}

/// One closest pair after the other is attached, until none is left or the history cannot be
/// changed. `fuel` bounds the number of pairs.
pub open spec fn reconciles(
    fuel: nat,
    buffer: BufferView,
    repository: RepositoryView,
    buffer_after: BufferView,
    repository_after: RepositoryView,
    attached: int,
) -> bool
    decreases fuel,
{
    ||| {
        // No pair is left.
        &&& forall|r: int, e: int| !#[trigger] buffer.is_pair(r, e, RECEIPT_MATCH_WINDOW_MS)
        &&& buffer_after == buffer
        &&& repository_after == repository
        &&& attached == 0
    }
    ||| fuel > 0 && exists|r: int, e: int, id: u128|
        {
            let event = buffer.events[e].event;
            let receipt = buffer.receipts[r].receipt;
            let result = #[trigger] attach_pair(repository, buffer, r, e, identity::uuid_text(id));
            let settled = buffer.pair_reserved(r, e).settled(
                event.event_id,
                receipt.receipt_id,
                outcome_of(result),
            );
            &&& id != 0
            &&& buffer.is_best_pair(r, e, RECEIPT_MATCH_WINDOW_MS)
            &&& match outcome_of(result) {
                PairOutcome::Attached => reconciles(
                    (fuel - 1) as nat,
                    settled,
                    history_of(repository, result),
                    buffer_after,
                    repository_after,
                    attached - 1,
                ),
                PairOutcome::Stale => reconciles(
                    (fuel - 1) as nat,
                    settled,
                    repository,
                    buffer_after,
                    repository_after,
                    attached,
                ),
                PairOutcome::Failed => buffer_after == settled && repository_after == repository
                    && attached == 0,
            }
        }
}

/// An attempt to attach the report of a pair. `new_id` is for a clip that may have to be added.
pub open spec fn attach_pair(
    repository: RepositoryView,
    buffer: BufferView,
    r: int,
    e: int,
    new_id: Seq<char>,
) -> Result<(RepositoryView, Option<Seq<char>>), RepositoryError> {
    repository.attached(
        buffer.events[e].event,
        buffer.receipts[r].receipt,
        buffer.events[e].at.millis() as i64,
        new_id,
    )
}

impl MetadataBuffer {
    /// Deals with a reserved pair. Whether to go on with the next one is returned.
    pub fn settle(&mut self, event_id: u128, receipt_id: u128, outcome: PairOutcome) -> (go_on: bool)
        requires
            old(self)@.wf(),
        ensures
            final(self)@ == old(self)@.settled(event_id, receipt_id, outcome),
            go_on == (outcome != PairOutcome::Failed),
            final(self)@.wf(),
    {
        match outcome {
            PairOutcome::Attached => {
                self.acknowledge_pair(event_id, receipt_id);
                true
            },
            PairOutcome::Stale => {
                self.remove_receipt(receipt_id);
                self.release_event(event_id);
                true
            },
            PairOutcome::Failed => {
                self.release_receipt(receipt_id);
                self.release_event(event_id);
                false
            },
        }
    }

    /// Attaches waiting reports to the clips whose receipts wait. The number of clips that have
    /// changed is returned.
    pub fn reconcile_pending(&mut self, repository: &mut Repository) -> (attached: usize)
        requires
            old(self)@.wf(),
            old(repository)@.wf(),
        ensures
            reconciles(
                old(self)@.receipts.len(),
                old(self)@,
                old(repository)@,
                final(self)@,
                final(repository)@,
                attached as int,
            ),
            attached <= old(self)@.receipts.len(),
            final(self)@.wf(),
            final(repository)@.wf(),
        decreases old(self)@.receipts.len(),
    {
        let ghost buffer = self@;
        let ghost before = repository@;
        let (event, receipt) = match self.reserve_matching_pair(RECEIPT_MATCH_WINDOW_MS) {
            Some(pair) => pair,
            None => return 0,
        };
        let ghost (r, e) = choose|r: int, e: int|
            {
                &&& #[trigger] buffer.is_best_pair(r, e, RECEIPT_MATCH_WINDOW_MS)
                &&& event@ == buffer.events[e].event
                &&& receipt@ == buffer.receipts[r].receipt
                &&& self@ == buffer.event_reserved(e, true).receipt_reserved(r, true)
            };
        let event_id = event.event_id;
        let receipt_id = receipt.receipt_id;
        let result = repository.attach_metadata_with_receipt(&event, receipt);
        let ghost (now, id) = choose|now: i64, id: u128|
            now >= 0 && id != 0 && #[trigger] attach::metadata_attached(
                before,
                repository@,
                event@,
                receipt@,
                attach::reported_millis(event@, now),
                identity::uuid_text(id),
                result,
            );
        let ghost attempt = attach_pair(before, buffer, r, e, identity::uuid_text(id));
        proof {
            assert(crate::browser_metadata::buffer::is_dated(buffer.events[e]));
            assert(attach::reported_millis(event@, now) == buffer.events[e].at.millis() as i64);
            assert(buffer.pair_reserved(r, e).receipts.len() == buffer.receipts.len());
            lemma_receipt_is_there(buffer.pair_reserved(r, e), r, receipt_id);
        }
        let outcome = match result {
            Ok(Some(_)) => PairOutcome::Attached,
            Ok(None) => PairOutcome::Stale,
            Err(_) => PairOutcome::Failed,
        };
        assert(outcome == outcome_of(attempt));
        let go_on = self.settle(event_id, receipt_id, outcome);
        if !go_on {
            return 0;
        }
        let ghost settled = self@;
        assert(settled.receipts.len() == buffer.receipts.len() - 1);
        let rest = self.reconcile_pending(repository);
        match outcome {
            PairOutcome::Attached => rest + 1,
            _ => rest,
        }
    }
}

/// The receipt of a pair is found by its identifier.
proof fn lemma_receipt_is_there(buffer: BufferView, r: int, receipt_id: u128)
    requires
        0 <= r < buffer.receipts.len(),
        buffer.receipts[r].receipt.receipt_id == receipt_id,
    ensures
        buffer.receipt_position(receipt_id) < buffer.receipts.len(),
        forall|event_id: u128|
            #![trigger buffer.without_event(event_id)]
            buffer.without_event(event_id).without_receipt(receipt_id).receipts.len()
                == buffer.receipts.len() - 1,
        buffer.without_receipt(receipt_id).receipts.len() == buffer.receipts.len() - 1,
{
    sequences::lemma_first_index(
        buffer.receipts,
        |receipt: crate::browser_metadata::buffer::PendingView|
            receipt.receipt.receipt_id == receipt_id,
    );
}

} // verus!
