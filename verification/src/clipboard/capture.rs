//! Watching the clipboard and saving what is copied.

use crate::blob_store::{PreparedImage, ThumbnailSize};
use crate::browser_metadata::buffer::{BufferView, MetadataBuffer};
use crate::browser_metadata::reconcile;
use crate::browser_metadata::{BrowserCopyEvent, ClipUpsertReceipt, EventView, ReceiptView};
use crate::capabilities::CapabilityStatus;
use crate::clipboard::backends::{polling_fallback, ClipboardNotification, MonitorMode, POLLING_INTERVAL_MS};
use crate::clock::Moment;
use crate::domain;
use crate::domain::normalize;
use crate::domain::{content_hash, normalize_content, ClipboardPayload, ImagePayload, NewClip, NewImageClip};
use crate::identity;
use crate::persistence::upsert;
use crate::persistence::upsert::CopyView;
use crate::persistence::{Repository, RepositoryError, RepositoryView};
use crate::text;
use crate::text::{byte_len, char_len, same_text};
use vstd::prelude::*;

verus! {

/// How long a notification is waited for, in milliseconds.
pub const NOTIFICATION_TIMEOUT_MS: u64 = 500;

/// How often a report of the browser is looked for when an image was copied.
pub const IMAGE_REPORT_ATTEMPTS: u32 = 5;

/// The pause between two such attempts, in milliseconds.
pub const IMAGE_REPORT_PAUSE_MS: u64 = 50;

/// What the watcher waits for.
#[derive(Debug, Clone, Copy, PartialEq, Eq, Structural)]
pub enum WatchWait {
    /// A notification, for at most so many milliseconds.
    Notification(u64),
    /// So many milliseconds to go by.
    Pause(u64),
    /// Nothing: the clipboard is not watched.
    Nothing,
}

/// What has ended the wait.
#[derive(Debug, Clone, Copy, PartialEq, Eq, Structural)]
pub enum Wakeup {
    /// The last of the notifications that have come.
    Notified(ClipboardNotification),
    TimedOut,
    /// No notification will come any more.
    Disconnected,
    /// The pause is over.
    Elapsed,
}

/// What the watcher does next.
#[derive(Debug, PartialEq, Eq)]
pub enum WatchStep {
    /// Read the clipboard.
    Read { from_event: bool },
    /// Wait again.
    Wait,
    /// Report this, and wait again.
    Report(CapabilityStatus),
}

/// The state of watching: how, and what was seen last.
#[derive(Debug)]
pub struct ClipboardWatcher {
    mode: MonitorMode,
    last_fingerprint: String,
}

#[verifier::ext_equal]
pub struct WatcherView {
    pub mode: MonitorMode,
    pub last_fingerprint: Seq<char>,
}

impl View for ClipboardWatcher {
    type V = WatcherView;

    closed spec fn view(&self) -> WatcherView {
        WatcherView { mode: self.mode, last_fingerprint: self.last_fingerprint@ }
    }
}

/// Both owners are known and they differ.
pub fn owner_changed(before: Option<u32>, after: Option<u32>) -> (changed: bool)
    ensures
        changed == (before is Some && after is Some && before != after),
{
    match (before, after) {
        (Some(before), Some(after)) => before != after,
        _ => false,
    }
}

impl ClipboardWatcher {
    /// Begins to watch; what is on the clipboard already has been seen.
    pub fn begin(mode: MonitorMode, initial: Option<&ClipboardPayload>) -> (watcher: Self)
        ensures
            watcher@.mode == mode,
            watcher@.last_fingerprint == match initial {
                Some(payload) => payload.fingerprint_text(),
                None => Seq::empty(),
            },
    {
        let last_fingerprint = match initial {
            Some(payload) => payload.fingerprint(),
            None => {
                let nothing = String::new();
                assert(nothing@ =~= Seq::empty());
                nothing
            },
        };
        ClipboardWatcher { mode, last_fingerprint }
    }

    /// What to wait for.
    pub fn waits_for(&self) -> (wait: WatchWait)
        ensures
            wait == match self@.mode {
                MonitorMode::Disabled => WatchWait::Nothing,
                MonitorMode::EventDriven => WatchWait::Notification(NOTIFICATION_TIMEOUT_MS),
                MonitorMode::Polling(interval_ms) => WatchWait::Pause(interval_ms),
            },
    {
        match self.mode {
            MonitorMode::Disabled => WatchWait::Nothing,
            MonitorMode::EventDriven => WatchWait::Notification(NOTIFICATION_TIMEOUT_MS),
            MonitorMode::Polling(interval_ms) => WatchWait::Pause(interval_ms),
        }
    }

    /// What to do when the wait is over. Without notifications the clipboard is read at
    /// intervals from then on.
    pub fn wake(&mut self, wakeup: Wakeup) -> (step: WatchStep)
        ensures
            match wakeup {
                Wakeup::Notified(_) => step == (WatchStep::Read { from_event: true }),
                Wakeup::Elapsed => step == (WatchStep::Read { from_event: false }),
                Wakeup::TimedOut => step == WatchStep::Wait,
                Wakeup::Disconnected => step matches WatchStep::Report(
                    CapabilityStatus::Degraded(reason),
                ) && reason@ == "XFixes недоступен, используется polling каждые 350 мс"@,
            },
            final(self)@.last_fingerprint == old(self)@.last_fingerprint,
            final(self)@.mode == (if wakeup is Disconnected {
                MonitorMode::Polling(POLLING_INTERVAL_MS)
            } else {
                old(self)@.mode
            }),
    {
        match wakeup {
            Wakeup::Notified(_) => WatchStep::Read { from_event: true },
            Wakeup::Elapsed => WatchStep::Read { from_event: false },
            Wakeup::TimedOut => WatchStep::Wait,
            Wakeup::Disconnected => {
                let (mode, status) = polling_fallback();
                self.mode = mode;
                WatchStep::Report(status)
            },
        }
    }

    /// Takes note of what was read. Its fingerprint is returned if it is to be saved: not while
    /// paused, and what was seen before only where a notification told of it.
    pub fn observe(&mut self, payload: &ClipboardPayload, from_event: bool, paused: bool) -> (fresh:
        Option<String>)
        ensures
            final(self)@ == (WatcherView {
                last_fingerprint: payload.fingerprint_text(),
                ..old(self)@
            }),
            text::text_of(fresh) == (if !paused && (from_event || payload.fingerprint_text() != old(
                self,
            )@.last_fingerprint) {
                Some(payload.fingerprint_text())
            } else {
                None
            }),
    {
        let fingerprint = payload.fingerprint();
        let is_same = same_text(fingerprint.as_str(), self.last_fingerprint.as_str());
        self.last_fingerprint = fingerprint.clone();
        if paused || (!from_event && is_same) {
            None
        } else {
            Some(fingerprint)
        }
    }
}

/// What a report of the browser says of a copy.
pub open spec fn reported_domain(event: Option<EventView>) -> Option<Seq<char>> {
    match event {
        Some(event) => Some(event.domain),
        None => None,
    }
}

pub open spec fn reported_title(event: Option<EventView>) -> Option<Seq<char>> {
    match event {
        Some(event) => Some(event.page_title),
        None => None,
    }
}

pub open spec fn event_view(event: Option<BrowserCopyEvent>) -> Option<EventView> {
    match event {
        Some(event) => Some(event@),
        None => None,
    }
}

/// A receipt is kept and waiting reports are attached; without a receipt nothing happens.
pub open spec fn receipt_filed(
    buffer: BufferView,
    repository: RepositoryView,
    buffer_after: BufferView,
    repository_after: RepositoryView,
    hash: Seq<char>,
    length: usize,
    receipt: Option<ReceiptView>,
    attached: usize,
) -> bool {
    match receipt {
        None => buffer_after == buffer && repository_after == repository && attached == 0,
        Some(receipt) => exists|now_ms: i64|
            {
                let filed = #[trigger] buffer.with_receipt(hash, length, receipt, now_ms);
                reconcile::reconciles(
                    filed.receipts.len(),
                    filed,
                    repository,
                    buffer_after,
                    repository_after,
                    attached as int,
                )
            },
    }
}

/// Keeps the receipt of a saved copy and attaches the reports that wait for one. The number of
/// clips that have changed is returned.
fn file_receipt(
    metadata: &mut MetadataBuffer,
    repository: &mut Repository,
    hash: &str,
    length: usize,
    receipt: Option<ClipUpsertReceipt>,
) -> (attached: usize)
    requires
        old(metadata)@.wf(),
        old(repository)@.wf(),
    ensures
        receipt_filed(
            old(metadata)@,
            old(repository)@,
            final(metadata)@,
            final(repository)@,
            hash@,
            length,
            upsert::receipt_view(receipt),
            attached,
        ),
        final(metadata)@.wf(),
        final(repository)@.wf(),
{
    match receipt {
        Some(receipt) => {
            metadata.push_receipt(hash, length, receipt);
            metadata.reconcile_pending(repository)
        },
        None => 0,
    }
}

/// A copied text is saved with what the browser has reported of it.
pub open spec fn text_filed(
    buffer: BufferView,
    event: Option<EventView>,
    repository: RepositoryView,
    buffer_after: BufferView,
    repository_after: RepositoryView,
    content: Seq<char>,
    now: i64,
    new_id: Seq<char>,
    receipt_id: u128,
    result: Result<Option<usize>, RepositoryError>,
) -> bool {
    let normal = normalize::normalized_content(content);
    let domain = reported_domain(event);
    let title = reported_title(event);
    match repository.text_saved(content, domain, title, now, new_id) {
        Err(error) => {
            &&& result == Err::<Option<usize>, RepositoryError>(error)
            &&& buffer_after == buffer
            &&& repository_after == repository
        },
        Ok((next, at)) => {
            &&& result matches Ok(Some(attached))
            &&& receipt_filed(
                buffer,
                next,
                buffer_after,
                repository_after,
                normalize::hash_of(normal),
                text::utf8_len(normal) as usize,
                repository.receipt_of(
                    CopyView::of_text(content, domain, title, now),
                    text::utf8_len(normal),
                    receipt_id,
                    next.clips[at],
                ),
                attached,
            )
        },
    }
}

/// What saving a copied text does: nothing if nothing is left of it, else the latest report of
/// it is used up and the text is saved.
pub open spec fn text_captured(
    buffer: BufferView,
    repository: RepositoryView,
    buffer_after: BufferView,
    repository_after: RepositoryView,
    content: Seq<char>,
    now: Moment,
    result: Result<Option<usize>, RepositoryError>,
) -> bool {
    let normal = normalize::normalized_content(content);
    if normal.len() == 0 {
        &&& result == Ok::<Option<usize>, RepositoryError>(None)
        &&& buffer_after == buffer
        &&& repository_after == repository
    } else {
        let (taken, event) = buffer.taken(
            normalize::hash_of(normal),
            text::utf8_len(normal) as usize,
            now,
        );
        exists|id: u128, receipt_id: u128|
            id != 0 && receipt_id != 0 && #[trigger] text_filed(
                taken,
                event,
                repository,
                buffer_after,
                repository_after,
                content,
                now.millis() as i64,
                identity::uuid_text(id),
                receipt_id,
                result,
            )
    }
}

/// Saves a copied text. The number of clips that waiting reports were attached to is returned;
/// `None` if there is nothing to save.
pub fn capture_text(
    repository: &mut Repository,
    metadata: &mut MetadataBuffer,
    content: &str,
    now: Moment,
) -> (result: Result<Option<usize>, RepositoryError>)
    requires
        old(repository)@.wf(),
        old(metadata)@.wf(),
        now.is_countable(),
    ensures
        text_captured(
            old(metadata)@,
            old(repository)@,
            final(metadata)@,
            final(repository)@,
            content@,
            now,
            result,
        ),
        final(repository)@.wf(),
        final(metadata)@.wf(),
{
    let normalized = normalize_content(content);
    if char_len(normalized.as_str()) == 0 {
        return Ok(None);
    }
    let hash = content_hash(normalized.as_str());
    let length = byte_len(normalized.as_str());
    let browser = metadata.take_match(hash.as_str(), length, now);
    let ghost taken = metadata@;
    let ghost before = repository@;
    let (domain, page_title) = match &browser {
        Some(event) => (Some(event.domain.as_str()), Some(event.page_title.as_str())),
        None => (None, None),
    };
    let input = NewClip { content, domain, page_title, now: now.to_millis() };
    let ghost input_ghost = input;
    let saved = repository.upsert_clip(input);
    let ghost next = repository@;
    let ghost (id, receipt_id) = choose|id: u128, receipt_id: u128|
        id != 0 && receipt_id != 0 && #[trigger] upsert::clip_upserted(
            before,
            next,
            input_ghost,
            identity::uuid_text(id),
            receipt_id,
            saved,
        );
    let ghost new_id = identity::uuid_text(id);
    let result = match saved {
        Ok((_, receipt)) => Ok(
            Some(file_receipt(metadata, repository, hash.as_str(), length, receipt)),
        ),
        Err(error) => Err(error),
    };
    proof {
        assert(text_filed(
            taken,
            event_view(browser),
            before,
            metadata@,
            repository@,
            content@,
            now.millis() as i64,
            new_id,
            receipt_id,
            result,
        ));
    }
    result
}

/// Looks for the browser's report of a copied image.
pub fn take_image_report(metadata: &mut MetadataBuffer, image: &ImagePayload, now: Moment) -> (report:
    Option<BrowserCopyEvent>)
    requires
        old(metadata)@.wf(),
    ensures
        ({
            let (taken, event) = old(metadata)@.taken(
                domain::image_hash(image.width, image.height, image.rgba@),
                image.rgba@.len() as usize,
                now,
            );
            &&& final(metadata)@ == taken
            &&& event_view(report) == event
        }),
        final(metadata)@.wf(),
{
    let (hash, length) = image.match_key();
    metadata.take_match(hash.as_str(), length, now)
}

/// What saving a copied image whose file is written does.
pub open spec fn image_filed<F: FnOnce(&PreparedImage) -> bool>(
    buffer: BufferView,
    event: Option<EventView>,
    repository: RepositoryView,
    buffer_after: BufferView,
    repository_after: RepositoryView,
    image: ImagePayload,
    now: i64,
    limits: StorageLimits,
    size: ThumbnailSize,
    persist: F,
    new_id: Seq<char>,
    receipt_id: u128,
    result: Result<usize, RepositoryError>,
) -> bool {
    let domain = reported_domain(event);
    let title = reported_title(event);
    match repository.image_plan(image, limits.max_image_bytes, limits.max_storage_bytes, size) {
        Err(error) => {
            &&& result == Err::<usize, RepositoryError>(error)
            &&& buffer_after == buffer
            &&& repository_after == repository
        },
        Ok(plan) => exists|prepared: &PreparedImage, written: bool|
            {
                &&& #[trigger] call_ensures(persist, (prepared,), written)
                &&& prepared@ == plan
                &&& match repository.image_saved(image, plan, domain, title, now, new_id) {
                    Ok((next, at)) if written => {
                        &&& result matches Ok(attached)
                        &&& receipt_filed(
                            buffer,
                            next,
                            buffer_after,
                            repository_after,
                            domain::image_hash(image.width, image.height, image.rgba@),
                            image.rgba@.len() as usize,
                            repository.receipt_of(
                                CopyView::of_image(image, plan, domain, title, now),
                                image.rgba@.len(),
                                receipt_id,
                                next.clips[at],
                            ),
                            attached,
                        )
                    },
                    Ok(_) => {
                        &&& result == Err::<usize, RepositoryError>(RepositoryError::BlobUnwritable)
                        &&& buffer_after == buffer
                        &&& repository_after == repository
                    },
                    Err(error) => {
                        &&& result == Err::<usize, RepositoryError>(
                            if written {
                                error
                            } else {
                                RepositoryError::BlobUnwritable
                            },
                        )
                        &&& buffer_after == buffer
                        &&& repository_after == repository
                    },
                }
            },
    }
}

/// How large one image file, and all of them, may be.
#[derive(Debug, Clone, Copy, PartialEq, Eq, Structural)]
pub struct StorageLimits {
    pub max_image_bytes: u64,
    pub max_storage_bytes: u64,
}

/// Saves a copied image with the browser's report of it, if there is one. `persist` writes the
/// prepared file and tells whether it is there. The number of clips that waiting reports were
/// attached to is returned.
pub fn capture_image<F: FnOnce(&PreparedImage) -> bool>(
    repository: &mut Repository,
    metadata: &mut MetadataBuffer,
    image: &ImagePayload,
    report: Option<BrowserCopyEvent>,
    now: i64,
    limits: StorageLimits,
    size: ThumbnailSize,
    persist: F,
) -> (result: Result<usize, RepositoryError>)
    requires
        old(repository)@.wf(),
        old(metadata)@.wf(),
        size.fits(),
        forall|prepared: &PreparedImage| #[trigger] call_requires(persist, (prepared,)),
    ensures
        exists|id: u128, receipt_id: u128|
            id != 0 && receipt_id != 0 && #[trigger] image_filed(
                old(metadata)@,
                event_view(report),
                old(repository)@,
                final(metadata)@,
                final(repository)@,
                *image,
                now,
                limits,
                size,
                persist,
                identity::uuid_text(id),
                receipt_id,
                result,
            ),
        final(repository)@.wf(),
        final(metadata)@.wf(),
{
    let ghost before = repository@;
    let (domain, page_title) = match &report {
        Some(event) => (Some(event.domain.as_str()), Some(event.page_title.as_str())),
        None => (None, None),
    };
    let (hash, length) = image.match_key();
    let input = NewImageClip {
        image,
        domain,
        page_title,
        now,
        max_image_bytes: limits.max_image_bytes,
        max_storage_bytes: limits.max_storage_bytes,
    };
    let ghost input_ghost = input;
    let ghost persist_ghost = persist;
    let saved = repository.upsert_image(input, size, persist);
    let ghost next = repository@;
    let ghost (id, receipt_id) = choose|id: u128, receipt_id: u128|
        id != 0 && receipt_id != 0 && #[trigger] upsert::image_upserted(
            before,
            next,
            input_ghost,
            size,
            persist_ghost,
            identity::uuid_text(id),
            receipt_id,
            saved,
        );
    let ghost new_id = identity::uuid_text(id);
    let result = match saved {
        Ok((_, receipt)) => Ok(
            file_receipt(metadata, repository, hash.as_str(), length, receipt),
        ),
        Err(error) => Err(error),
    };
    proof {
        assert(image_filed(
            old(metadata)@,
            event_view(report),
            before,
            metadata@,
            repository@,
            *image,
            now,
            limits,
            size,
            persist_ghost,
            new_id,
            receipt_id,
            result,
        ));
    }
    result
}

} // verus!
