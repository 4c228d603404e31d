//! One look at the clipboard: deciding whether what was read is saved, saving it, and handing an
//! image back.

use crate::blob_store::{PreparedImage, ThumbnailSize};
use crate::browser_metadata::{BrowserCopyEvent, EventView, MetadataBuffer};
use crate::clipboard;
use crate::clipboard::capture;
use crate::clipboard::capture::{
    capture_image, capture_text, owner_changed, take_image_report, ClipboardWatcher, StorageLimits,
    WatcherView, IMAGE_REPORT_ATTEMPTS, IMAGE_REPORT_PAUSE_MS,
};
use crate::clipboard::{evaluate_republish, set_clipboard_payload, RepublishDecision};
use crate::clock::Moment;
use crate::domain;
use crate::domain::normalize;
use crate::domain::self_copy::GuardView;
use crate::domain::{CapturedImageSource, ClipboardPayload, OwnCopyGuard};
use crate::identity;
use crate::persistence::{Repository, RepositoryError};
use vstd::prelude::*;

verus! {

/// How often the clipboard is read before it counts as unreadable.
pub const READ_ATTEMPTS: u32 = 3;

/// The pause between two such attempts, in milliseconds.
pub const READ_PAUSE_MS: u64 = 25;

/// The pause before the clipboard is read again, in milliseconds, after so many attempts in which
/// nothing could be read; `None` if it is not read again.
pub fn read_retry(failures: u32) -> (pause_ms: Option<u64>)
    ensures
        pause_ms == (if failures < READ_ATTEMPTS {
            Some(READ_PAUSE_MS)
        } else {
            None
        }),
{
    if failures < READ_ATTEMPTS {
        Some(READ_PAUSE_MS)
    } else {
        None
    }
}

/// The pause before a failed request to the clipboard is repeated, in milliseconds, after so many
/// failures; `None` if it is not repeated. The last repetition follows at once.
pub fn request_retry(failures: u32) -> (pause_ms: Option<u64>)
    ensures
        pause_ms == (if failures < READ_ATTEMPTS {
            Some(READ_PAUSE_MS)
        } else if failures == READ_ATTEMPTS {
            Some(0u64)
        } else {
            None
        }),
{
    if failures < READ_ATTEMPTS {
        Some(READ_PAUSE_MS)
    } else if failures == READ_ATTEMPTS {
        Some(0)
    } else {
        None
    }
}

/// What was read.
#[derive(Debug, Clone, Copy, PartialEq, Eq, Structural)]
pub enum Copied {
    /// A text with nothing to save in it.
    Nothing,
    Text,
    Image(CapturedImageSource),
}

pub open spec fn copied_of(payload: ClipboardPayload) -> Copied {
    match payload {
        ClipboardPayload::Text(content) => if normalize::normalized_content(content@).len() == 0 {
            Copied::Nothing
        } else {
            Copied::Text
        },
        ClipboardPayload::Image(image) => Copied::Image(image.image_source),
    }
}

fn copied(payload: &ClipboardPayload) -> (copied: Copied)
    ensures
        copied == copied_of(*payload),
{
    match payload {
        ClipboardPayload::Text(content) => {
            let normal = crate::domain::normalize_content(content.as_str());
            if crate::text::char_len(normal.as_str()) == 0 {
                Copied::Nothing
            } else {
                Copied::Text
            }
        },
        ClipboardPayload::Image(image) => Copied::Image(image.image_source),
    }
}

/// How the clipboard was read.
#[derive(Debug, Clone, Copy, PartialEq, Eq, Structural)]
pub struct Look {
    /// A notification has told of a change.
    pub from_event: bool,
    /// Nothing is to be saved.
    pub paused: bool,
    /// The owner of the clipboard before and after it was read.
    pub owner_before: Option<u32>,
    pub owner_after: Option<u32>,
    /// The generation of the clipboard before it was read.
    pub generation: u64,
}

/// How far a pass has come.
#[derive(Debug, Clone, Copy, PartialEq, Eq, Structural)]
pub enum PassStage {
    /// The browser's report of an image is looked for.
    Report,
    /// What was read is to be saved.
    Save,
    /// It was saved.
    Saved,
    /// It could not be saved.
    Unsaved,
    /// It is to be put on the clipboard.
    HandBack,
    /// Nothing more is to be done.
    Ended,
}

/// What is to be done next.
#[derive(Debug, Clone, Copy, PartialEq, Eq, Structural)]
pub enum PassAction {
    /// Look for the browser's report, after so many milliseconds.
    FindReport(u64),
    /// Save what was read.
    Save,
    /// Tell that the clips have changed; then ask whether the clipboard has.
    Announce,
    /// Tell that what was read could not be saved.
    Warn,
    /// Put what was read on the clipboard.
    Republish,
    /// Wait for the next change.
    End,
}

/// One pass of the watcher, from what was read.
#[derive(Debug)]
pub struct CapturePass {
    payload: ClipboardPayload,
    look: Look,
    stage: PassStage,
    failures: u32,
    report: Option<BrowserCopyEvent>,
}

#[verifier::ext_equal]
pub struct PassView {
    pub payload: ClipboardPayload,
    pub look: Look,
    pub stage: PassStage,
    /// How often a report was not found.
    pub failures: u32,
    pub report: Option<EventView>,
}

impl View for CapturePass {
    type V = PassView;

    closed spec fn view(&self) -> PassView {
        PassView {
            payload: self.payload,
            look: self.look,
            stage: self.stage,
            failures: self.failures,
            report: capture::event_view(self.report),
        }
    }
}

/// Both owners are known and they differ.
pub open spec fn owners_differ(before: Option<u32>, after: Option<u32>) -> bool {
    before is Some && after is Some && before != after
}

impl Look {
    /// What was read is passed over: while paused, and what was seen before unless a notification
    /// told of it.
    pub open spec fn passes_over(self, watcher: WatcherView, payload: ClipboardPayload) -> bool {
        self.paused || (!self.from_event && payload.fingerprint_text() == watcher.last_fingerprint)
    }
}

impl WatcherView {
    /// Having seen a payload, with which the next one is compared.
    pub open spec fn having_seen(self, payload: ClipboardPayload) -> WatcherView {
        WatcherView { last_fingerprint: payload.fingerprint_text(), ..self }
    }
}

impl PassView {
    /// A pass over what was read, unless nothing is to be done with it.
    pub open spec fn begun(payload: ClipboardPayload, look: Look, is_idle: bool) -> PassView {
        PassView {
            payload,
            look,
            stage: if is_idle {
                PassStage::Ended
            } else {
                match copied_of(payload) {
                    Copied::Nothing => PassStage::Ended,
                    Copied::Text => PassStage::Save,
                    Copied::Image(_) => PassStage::Report,
                }
            },
            failures: 0,
            report: None,
        }
    }

    pub open spec fn at(self, stage: PassStage) -> PassView {
        PassView { stage, ..self }
    }

    pub open spec fn pending(self) -> PassAction {
        match self.stage {
            PassStage::Report => PassAction::FindReport(
                if self.failures == 0 {
                    0
                } else {
                    IMAGE_REPORT_PAUSE_MS
                },
            ),
            PassStage::Save => PassAction::Save,
            PassStage::Saved => PassAction::Announce,
            PassStage::Unsaved => PassAction::Warn,
            PassStage::HandBack => PassAction::Republish,
            PassStage::Ended => PassAction::End,
        }
    }

    /// A text is to be saved.
    pub open spec fn saves_text(self) -> bool {
        self.stage == PassStage::Save && self.payload is Text
    }

    /// An image is to be saved.
    pub open spec fn saves_image(self) -> bool {
        self.stage == PassStage::Save && self.payload is Image
    }

    /// The report of an image is looked for.
    pub open spec fn seeks_report(self) -> bool {
        self.stage == PassStage::Report && self.payload is Image
    }

    /// The report was found, or not.
    pub open spec fn searched(self, report: Option<EventView>) -> PassView {
        if report is Some || self.failures + 1 >= IMAGE_REPORT_ATTEMPTS {
            PassView { stage: PassStage::Save, report, ..self }
        } else {
            PassView { failures: (self.failures + 1) as u32, ..self }
        }
    }

    /// What was read was saved, or could not be.
    pub open spec fn tried_to_save(self, saved: bool) -> PassView {
        if self.stage != PassStage::Save {
            self
        } else if saved {
            self.at(PassStage::Saved)
        } else {
            self.at(PassStage::Unsaved)
        }
    }

    /// The generation and the owner of the clipboard are known after saving.
    pub open spec fn told_change(self, generation: u64, owner: Option<u32>) -> PassView {
        let decision = clipboard::republish_decision(
            self.look.generation,
            generation,
            match copied_of(self.payload) {
                Copied::Image(source) => Some(source),
                _ => None,
            },
            false,
            owners_differ(self.look.owner_before, self.look.owner_after) || owners_differ(
                self.look.owner_after,
                owner,
            ),
        );
        if self.stage != PassStage::Saved {
            self
        } else if decision == RepublishDecision::Republish {
            self.at(PassStage::HandBack)
        } else {
            self.at(PassStage::Ended)
        }
    }
}

/// What starting a pass does: what was read is what the next pass compares with. What is passed
/// over, the application's own write, and a text with nothing in it are not saved.
pub open spec fn pass_started(
    watcher: WatcherView,
    guard: GuardView,
    watcher_after: WatcherView,
    guard_after: GuardView,
    payload: ClipboardPayload,
    look: Look,
    now: u128,
    pass: PassView,
) -> bool {
    let (checked, is_own) = guard.checked(
        now,
        normalize::hash_of(payload.fingerprint_text()),
        look.owner_before,
    );
    &&& watcher_after == watcher.having_seen(payload)
    &&& if look.passes_over(watcher, payload) {
        guard_after == guard && pass == PassView::begun(payload, look, true)
    } else {
        guard_after == checked && pass == PassView::begun(payload, look, is_own)
    }
}

/// [`start`] at a given moment of the guard's clock.
pub fn start_at(
    watcher: &mut ClipboardWatcher,
    guard: &mut OwnCopyGuard,
    payload: ClipboardPayload,
    look: Look,
    now: u128,
) -> (pass: CapturePass)
    ensures
        pass_started(
            old(watcher)@,
            old(guard)@,
            final(watcher)@,
            final(guard)@,
            payload,
            look,
            now,
            pass@,
        ),
{
    let is_idle = match watcher.observe(&payload, look.from_event, look.paused) {
        Some(fingerprint) => guard.should_suppress_with_owner_at(
            fingerprint.as_str(),
            look.owner_before,
            now,
        ),
        None => true,
    };
    let stage = if is_idle {
        PassStage::Ended
    } else {
        match copied(&payload) {
            Copied::Nothing => PassStage::Ended,
            Copied::Text => PassStage::Save,
            Copied::Image(_) => PassStage::Report,
        }
    };
    CapturePass { payload, look, stage, failures: 0, report: None }
}

/// Starts a pass of the watcher with what was read from the clipboard.
pub fn start(
    watcher: &mut ClipboardWatcher,
    guard: &mut OwnCopyGuard,
    payload: ClipboardPayload,
    look: Look,
) -> (pass: CapturePass)
    ensures
        exists|now: u128| #[trigger]
            pass_started(
                old(watcher)@,
                old(guard)@,
                final(watcher)@,
                final(guard)@,
                payload,
                look,
                now,
                pass@,
            ),
{
    let now = guard.now();
    start_at(watcher, guard, payload, look, now)
}

impl CapturePass {
    /// What was read.
    pub fn payload(&self) -> (payload: &ClipboardPayload)
        ensures
            *payload == self@.payload,
    {
        &self.payload
    }

    /// What to do next.
    pub fn pending(&self) -> (action: PassAction)
        ensures
            action == self@.pending(),
    {
        match self.stage {
            PassStage::Report => PassAction::FindReport(
                if self.failures == 0 {
                    0
                } else {
                    IMAGE_REPORT_PAUSE_MS
                },
            ),
            PassStage::Save => PassAction::Save,
            PassStage::Saved => PassAction::Announce,
            PassStage::Unsaved => PassAction::Warn,
            PassStage::HandBack => PassAction::Republish,
            PassStage::Ended => PassAction::End,
        }
    }

    /// Looks for the browser's report, where that is to be done next.
    pub fn find_report(&mut self, metadata: &mut MetadataBuffer, now: Moment)
        requires
            old(metadata)@.wf(),
        ensures
            if old(self)@.seeks_report() {
                let image = old(self)@.payload->Image_0;
                let (taken, event) = old(metadata)@.taken(
                    domain::image_hash(image.width, image.height, image.rgba@),
                    image.rgba@.len() as usize,
                    now,
                );
                final(metadata)@ == taken && final(self)@ == old(self)@.searched(event)
            } else {
                final(metadata)@ == old(metadata)@ && final(self)@ == old(self)@
            },
            final(metadata)@.wf(),
    {
        if self.stage != PassStage::Report {
            return ;
        }
        let report = match &self.payload {
            ClipboardPayload::Image(image) => take_image_report(metadata, image, now),
            ClipboardPayload::Text(_) => return ,
        };
        if report.is_some() || self.failures >= IMAGE_REPORT_ATTEMPTS - 1 {
            self.report = report;
            self.stage = PassStage::Save;
        } else {
            self.failures = self.failures + 1;
        }
    }

    /// Saves the text that was read, where that is to be done next; else nothing changes.
    pub fn save_text(
        &self,
        repository: &mut Repository,
        metadata: &mut MetadataBuffer,
        now: Moment,
    ) -> (result: Option<Result<Option<usize>, RepositoryError>>)
        requires
            old(repository)@.wf(),
            old(metadata)@.wf(),
            now.is_countable(),
        ensures
            match result {
                Some(result) => self@.saves_text() && capture::text_captured(
                    old(metadata)@,
                    old(repository)@,
                    final(metadata)@,
                    final(repository)@,
                    self@.payload->Text_0@,
                    now,
                    result,
                ),
                None => !self@.saves_text() && final(metadata)@ == old(metadata)@
                    && final(repository)@ == old(repository)@,
            },
            final(repository)@.wf(),
            final(metadata)@.wf(),
    {
        if self.stage != PassStage::Save {
            return None;
        }
        match &self.payload {
            ClipboardPayload::Text(content) => Some(
                capture_text(repository, metadata, content.as_str(), now),
            ),
            ClipboardPayload::Image(_) => None,
        }
    }

    /// Saves the image that was read with the report that was found, where that is to be done
    /// next; else nothing changes. `persist` writes the prepared file and tells whether it is
    /// there.
    pub fn save_image<F: FnOnce(&PreparedImage) -> bool>(
        &mut self,
        repository: &mut Repository,
        metadata: &mut MetadataBuffer,
        now: i64,
        limits: StorageLimits,
        size: ThumbnailSize,
        persist: F,
    ) -> (result: Option<Result<usize, RepositoryError>>)
        requires
            old(repository)@.wf(),
            old(metadata)@.wf(),
            size.fits(),
            forall|prepared: &PreparedImage| #[trigger] call_requires(persist, (prepared,)),
        ensures
            match result {
                Some(result) => old(self)@.saves_image() && final(self)@ == (PassView {
                    report: None,
                    ..old(self)@
                }) && exists|id: u128, receipt_id: u128|
                    id != 0 && receipt_id != 0 && #[trigger] capture::image_filed(
                        old(metadata)@,
                        old(self)@.report,
                        old(repository)@,
                        final(metadata)@,
                        final(repository)@,
                        old(self)@.payload->Image_0,
                        now,
                        limits,
                        size,
                        persist,
                        identity::uuid_text(id),
                        receipt_id,
                        result,
                    ),
                None => !old(self)@.saves_image() && final(self)@ == old(self)@ && final(metadata)@
                    == old(metadata)@ && final(repository)@ == old(repository)@,
            },
            final(repository)@.wf(),
            final(metadata)@.wf(),
    {
        if self.stage != PassStage::Save {
            return None;
        }
        match &self.payload {
            ClipboardPayload::Text(_) => return None,
            ClipboardPayload::Image(_) => {},
        }
        let mut report: Option<BrowserCopyEvent> = None;
        std::mem::swap(&mut report, &mut self.report);
        match &self.payload {
            ClipboardPayload::Text(_) => None,
            ClipboardPayload::Image(image) => Some(
                capture_image(repository, metadata, image, report, now, limits, size, persist),
            ),
        }
    }

    /// Takes note of whether what was read was saved.
    pub fn after_save(&mut self, saved: bool)
        ensures
            final(self)@ == old(self)@.tried_to_save(saved),
    {
        if self.stage == PassStage::Save {
            self.stage = if saved {
                PassStage::Saved
            } else {
                PassStage::Unsaved
            };
        }
    }

    /// Takes note of the generation and the owner of the clipboard after saving. An image is
    /// handed back if nothing has changed.
    pub fn after_check(&mut self, generation: u64, owner: Option<u32>)
        ensures
            final(self)@ == old(self)@.told_change(generation, owner),
    {
        if self.stage != PassStage::Saved {
            return ;
        }
        let source = match copied(&self.payload) {
            Copied::Image(source) => Some(source),
            _ => None,
        };
        let changed = owner_changed(self.look.owner_before, self.look.owner_after)
            || owner_changed(self.look.owner_after, owner);
        self.stage = match evaluate_republish(
            self.look.generation,
            generation,
            source,
            false,
            changed,
        ) {
            RepublishDecision::Republish => PassStage::HandBack,
            _ => PassStage::Ended,
        };
    }

    /// Puts what was read on the clipboard with `write`, where that is to be done next; else
    /// nothing changes.
    pub fn hand_back<E, F: FnOnce(&ClipboardPayload) -> Result<(), E>>(
        &mut self,
        guard: &mut OwnCopyGuard,
        write: F,
    ) -> (result: Option<Result<(), E>>)
        requires
            forall|payload: &ClipboardPayload| #[trigger] call_requires(write, (payload,)),
        ensures
            match result {
                Some(result) => old(self)@.stage == PassStage::HandBack && final(self)@ == old(
                    self,
                )@.at(PassStage::Ended) && call_ensures(write, (&old(self)@.payload,), result)
                    && exists|now: u128|
                    final(guard)@ == #[trigger] clipboard::guarded(
                        old(guard)@,
                        now,
                        normalize::hash_of(old(self)@.payload.fingerprint_text()),
                        result is Ok,
                    ),
                None => old(self)@.stage != PassStage::HandBack && final(self)@ == old(self)@
                    && final(guard)@ == old(guard)@,
            },
    {
        if self.stage != PassStage::HandBack {
            return None;
        }
        self.stage = PassStage::Ended;
        let fingerprint = self.payload.fingerprint();
        Some(set_clipboard_payload(&self.payload, fingerprint.as_str(), guard, write))
    }
}

/// While paused, for what was seen before without a notification, for the application's own
/// write and for a text with nothing in it, a pass ends at once: nothing is to be looked for,
/// saved, told or put on the clipboard. All else is saved. In each case what was read is what the
/// next pass compares with.
pub proof fn idle_passes_change_nothing(
    watcher: WatcherView,
    guard: GuardView,
    watcher_after: WatcherView,
    guard_after: GuardView,
    payload: ClipboardPayload,
    look: Look,
    now: u128,
    pass: PassView,
)
    requires
        pass_started(watcher, guard, watcher_after, guard_after, payload, look, now, pass),
    ensures
        ({
            let is_own = guard.checked(
                now,
                normalize::hash_of(payload.fingerprint_text()),
                look.owner_before,
            ).1;
            let is_idle = look.passes_over(watcher, payload) || is_own || copied_of(payload)
                == Copied::Nothing;
            &&& watcher_after == watcher.having_seen(payload)
            &&& is_idle ==> pass.stage == PassStage::Ended && pass.pending() == PassAction::End
                && !pass.seeks_report() && !pass.saves_text() && !pass.saves_image()
            &&& !is_idle ==> pass.pending() == (if payload is Text {
                PassAction::Save
            } else {
                PassAction::FindReport(0)
            })
        }),
{
}

/// A pass that has ended stays so.
pub proof fn ended_passes_stay_ended(
    pass: PassView,
    saved: bool,
    generation: u64,
    owner: Option<u32>,
)
    requires
        pass.stage == PassStage::Ended,
    ensures
        pass.pending() == PassAction::End,
        pass.tried_to_save(saved) == pass,
        pass.told_change(generation, owner) == pass,
{
}

/// What is read twice in a row is passed over the second time, unless a notification tells of it.
pub proof fn same_payload_is_passed_over(
    watcher: WatcherView,
    payload: ClipboardPayload,
    look: Look,
)
    requires
        !look.from_event,
    ensures
        look.passes_over(watcher.having_seen(payload), payload),
{
}

} // verus!
