//! Reading the clipboard, writing it, and watching it.

pub mod backend;
pub mod backends;
pub mod capture;
pub mod pass;
pub mod reader;
pub mod session;

pub use crate::clipboard::backends::ClipboardNotification;
pub use crate::clipboard::pass::start;
pub use crate::clipboard::reader::{decode_image_file, read_payload_with_reader, ClipboardReader};

use crate::domain::normalize;
use crate::domain::self_copy::GuardView;
use crate::domain::{CapturedImageSource, ClipboardEventOrigin, ClipboardPayload, OwnCopyGuard};
use vstd::prelude::*;

verus! {

/// A number that changes with every change of the clipboard.
#[derive(Debug)]
pub struct ClipboardGeneration {
    current: u64,
}

impl View for ClipboardGeneration {
    type V = u64;

    closed spec fn view(&self) -> u64 {
        self.current
    }
}

impl Default for ClipboardGeneration {
    fn default() -> (generation: Self)
        ensures
            generation@ == 0,
    {
        ClipboardGeneration { current: 0 }
    }
}

impl ClipboardGeneration {
    pub fn current(&self) -> (current: u64)
        ensures
            current == self@,
    {
        self.current
    }

    /// Counts a change. After the greatest number comes zero.
    pub fn next(&mut self) -> (current: u64)
        ensures
            current == final(self)@,
            final(self)@ == (if old(self)@ == u64::MAX {
                0
            } else {
                old(self)@ + 1
            }),
    {
        self.current = if self.current == u64::MAX {
            0
        } else {
            self.current + 1
        };
        self.current
    }

    pub fn set(&mut self, val: u64)
        ensures
            final(self)@ == val,
    {
        self.current = val;
    }
}

/// Whether an image that was saved is handed back to the clipboard.
#[derive(Debug, PartialEq, Eq, Clone, Copy, Structural)]
pub enum RepublishDecision {
    Republish,
    SkipNewerClipboard,
    SkipFilePayload,
    SkipOwnEvent,
}

/// Only an image that came as pixels from someone else is handed back, and only while the
/// clipboard is as it was when the image was read.
pub fn evaluate_republish(
    captured_generation: u64,
    current_generation: u64,
    image_source: Option<CapturedImageSource>,
    is_own_event: bool,
    owner_changed: bool,
) -> (decision: RepublishDecision)
    ensures
        decision == republish_decision(
            captured_generation,
            current_generation,
            image_source,
            is_own_event,
            owner_changed,
        ),
{
    if is_own_event {
        return RepublishDecision::SkipOwnEvent;
    }
    match image_source {
        Some(CapturedImageSource::ClipboardImage) => {
            if owner_changed || current_generation != captured_generation {
                RepublishDecision::SkipNewerClipboard
            } else {
                RepublishDecision::Republish
            }
        },
        Some(CapturedImageSource::CopiedImageFile) => RepublishDecision::SkipFilePayload,
        None => {
            if owner_changed || current_generation != captured_generation {
                RepublishDecision::SkipNewerClipboard
            } else {
                RepublishDecision::SkipFilePayload
            }
        },
    }
}

pub open spec fn republish_decision(
    captured_generation: u64,
    current_generation: u64,
    image_source: Option<CapturedImageSource>,
    is_own_event: bool,
    owner_changed: bool,
) -> RepublishDecision {
    if is_own_event {
        RepublishDecision::SkipOwnEvent
    } else if image_source == Some(CapturedImageSource::CopiedImageFile) {
        RepublishDecision::SkipFilePayload
    } else if owner_changed || current_generation != captured_generation {
        RepublishDecision::SkipNewerClipboard
    } else if image_source == Some(CapturedImageSource::ClipboardImage) {
        RepublishDecision::Republish
    } else {
        RepublishDecision::SkipFilePayload
    }
}

/// An image is handed back only if it came as pixels from someone else and nothing has changed
/// since; a newer copy is never overwritten, and copied files stay files.
pub proof fn newer_copies_are_not_overwritten(
    captured_generation: u64,
    current_generation: u64,
    image_source: Option<CapturedImageSource>,
    is_own_event: bool,
    owner_changed: bool,
)
    ensures
        republish_decision(
            captured_generation,
            current_generation,
            image_source,
            is_own_event,
            owner_changed,
        ) == RepublishDecision::Republish <==> (captured_generation == current_generation
            && !owner_changed && !is_own_event && image_source == Some(
            CapturedImageSource::ClipboardImage,
        )),
{
}

/// The fingerprint by which a payload is known again.
pub fn payload_fingerprint(payload: &ClipboardPayload) -> (fingerprint: String)
    ensures
        fingerprint@ == payload.fingerprint_text(),
{
    payload.fingerprint()
}

/// The guard after the application has put the text with this hash on the clipboard, or has
/// failed to.
pub open spec fn guarded(before: GuardView, now: u128, hash: Seq<char>, written: bool) -> GuardView {
    let marked = before.marked(now, hash, ClipboardEventOrigin::KitsuPin, None);
    if written {
        marked.committed(before.id_after())
    } else {
        marked.cancelled(before.id_after())
    }
}

/// Puts a payload on the clipboard with `write`, so that the copy that is then seen is known as
/// the application's own.
pub fn set_clipboard_payload<E, F: FnOnce(&ClipboardPayload) -> Result<(), E>>(
    payload: &ClipboardPayload,
    fingerprint: &str,
    guard: &mut OwnCopyGuard,
    write: F,
) -> (result: Result<(), E>)
    requires
        call_requires(write, (payload,)),
    ensures
        call_ensures(write, (payload,), result),
        exists|now: u128|
            final(guard)@ == #[trigger] guarded(
                old(guard)@,
                now,
                normalize::hash_of(fingerprint@),
                result is Ok,
            ),
{
    let ghost before = guard@;
    let token = guard.mark_pending_with_details(fingerprint, ClipboardEventOrigin::KitsuPin, None);
    let ghost now = choose|now: u128|
        guard@ == #[trigger] before.marked(
            now,
            normalize::hash_of(fingerprint@),
            ClipboardEventOrigin::KitsuPin,
            None,
        );
    let result = write(payload);
    match &result {
        Ok(()) => guard.commit(token),
        Err(_) => guard.cancel(token),
    }
    assert(guard@ == guarded(before, now, normalize::hash_of(fingerprint@), result is Ok));
    result
}

/// Puts a text on the clipboard.
pub fn set_clipboard<E, F: FnOnce(&ClipboardPayload) -> Result<(), E>>(
    content: &str,
    guard: &mut OwnCopyGuard,
    write: F,
) -> (result: Result<(), E>)
    requires
        forall|payload: &ClipboardPayload| #[trigger] call_requires(write, (payload,)),
    ensures
        exists|payload: &ClipboardPayload, now: u128|
            {
                &&& #[trigger] call_ensures(write, (payload,), result)
                &&& *payload matches ClipboardPayload::Text(text) && text@ == content@
                &&& final(guard)@ == #[trigger] guarded(
                    old(guard)@,
                    now,
                    normalize::hash_of(payload.fingerprint_text()),
                    result is Ok,
                )
            },
{
    let payload = ClipboardPayload::Text(content.to_owned());
    let fingerprint = payload_fingerprint(&payload);
    set_clipboard_payload(&payload, fingerprint.as_str(), guard, write)
}

} // verus!
