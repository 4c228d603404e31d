//! How the clipboard is watched, what is read from it, and what comes of it.

use crate::blob_store::{PreparedImage, ThumbnailSize};
use crate::browser_metadata::buffer::BufferView;
use crate::browser_metadata::{EventView, ReceiptView};
use crate::capabilities::{CapabilityStatus, PlatformCapabilities};
use crate::clipboard;
use crate::clipboard::backends;
use crate::clipboard::backends::{ClipboardMonitor, MonitorMode, SelectedMonitor};
use crate::clipboard::capture;
use crate::clipboard::capture::{StorageLimits, WatcherView};
use crate::clipboard::pass;
use crate::clipboard::pass::{Look, PassAction, PassStage, PassView};
use crate::clipboard::reader;
use crate::clipboard::reader::{ClipboardReader, CopiedFile, FileInfo, RawImage};
use crate::clipboard::session;
use crate::clipboard::session::SessionType;
use crate::clipboard::RepublishDecision;
use crate::clock::Moment;
use crate::commands;
use crate::domain;
use crate::domain::normalize;
use crate::domain::self_copy::{ClipboardEventOrigin, GuardView, MarkState, MarkView};
use crate::domain::{CapturedImageSource, ClipboardPayload, ImagePayload};
use crate::imaging;
use crate::jobs;
use crate::laws::reporting;
use crate::persistence::{RepositoryError, RepositoryView};
use crate::sequences;
use crate::text;
use vstd::prelude::*;

verus! {

/// The session is what its declared type names, in any case, Wayland before X11; else a display of
/// Wayland decides, then one of X.
pub proof fn sessions_are_told_by_their_names(declared: Seq<char>, wayland: bool, display: bool)
    ensures
        ({
            let name = text::lowered(declared);
            let says_wayland = text::contains_text(name, "wayland"@);
            let says_x11 = text::contains_text(name, "x11"@);
            let by_display = if wayland {
                SessionType::Wayland
            } else if display {
                SessionType::X11
            } else {
                SessionType::Unknown
            };
            &&& says_wayland ==> session::session_of(Some(declared), wayland, display)
                == SessionType::Wayland
            &&& !says_wayland && says_x11 ==> session::session_of(Some(declared), wayland, display)
                == SessionType::X11
            &&& !says_wayland && !says_x11 ==> session::session_of(Some(declared), wayland, display)
                == by_display
            &&& session::session_of(None, wayland, display) == by_display
        }),
{
}

/// Only a session of X11 lets the clipboard be watched and shortcuts be taken.
pub proof fn only_x11_is_watched(capabilities: PlatformCapabilities, kind: SessionType)
    requires
        capabilities.fits(kind),
    ensures
        capabilities.session_type == kind,
        capabilities.global_clipboard_monitoring <==> kind == SessionType::X11,
        capabilities.global_shortcuts <==> kind == SessionType::X11,
        capabilities.image_clipboard,
        capabilities.tray,
        capabilities.monitoring_mode_description@ == match kind {
            SessionType::X11 => "X11 активное фоновое отслеживание буфера обмена (XFixes)"@,
            SessionType::Wayland =>
                "Ограниченный режим Wayland: фоновый мониторинг буфера обмена ограничен политиками безопасности сессии"@,
            SessionType::Unknown =>
                "Неизвестная графическая среда: фоновое отслеживание отключено"@,
        },
{
}

/// A way to watch tells that it is there exactly if it watches; only that for X11 does, by
/// notifications.
pub proof fn ways_to_watch_differ(monitor: SelectedMonitor, mode: MonitorMode)
    ensures
        monitor is X11 ==> monitor.mode() == MonitorMode::EventDriven && monitor.session()
            == SessionType::X11,
        monitor is Wayland ==> monitor.mode() == MonitorMode::Disabled && monitor.session()
            == SessionType::Wayland,
        monitor is Disabled ==> monitor.mode() == MonitorMode::Disabled && monitor.session()
            == SessionType::Unknown,
        mode == MonitorMode::Disabled ==> backends::status_of(mode)
            == CapabilityStatus::Unavailable,
        mode != MonitorMode::Disabled ==> backends::status_of(mode) == CapabilityStatus::Available,
{
}

/// How long is waited, and how often is tried.
pub proof fn pauses_are_these()
    ensures
        capture::NOTIFICATION_TIMEOUT_MS == 500,
        capture::IMAGE_REPORT_ATTEMPTS == 5,
        capture::IMAGE_REPORT_PAUSE_MS == 50,
        pass::READ_ATTEMPTS == 3,
        pass::READ_PAUSE_MS == 25,
        backends::POLLING_INTERVAL_MS == 350,
        jobs::CLEANUP_INTERVAL_SECS == 24 * 60 * 60,
{
}

/// A file is taken for an image exactly if its name ends in png, jpg, jpeg or webp, in any case.
pub proof fn names_promise_images(extension: Seq<char>)
    ensures
        ({
            let lower = text::ascii_lowercase(extension);
            let mime = reader::promised_mime(Some(extension));
            &&& lower == "png"@ ==> mime == Some("image/png"@)
            &&& lower == "jpg"@ ==> mime == Some("image/jpeg"@)
            &&& lower == "jpeg"@ ==> mime == Some("image/jpeg"@)
            &&& lower == "webp"@ ==> mime == Some("image/webp"@)
            &&& lower != "png"@ && lower != "jpg"@ && lower != "jpeg"@ && lower != "webp"@
                ==> mime is None
            &&& reader::promised_mime(None) is None
        }),
{
    reveal_strlit("png");
    reveal_strlit("jpg");
    reveal_strlit("jpeg");
    reveal_strlit("webp");
    assert("png"@[0] != "jpg"@[0]);
    assert("jpeg"@[0] != "webp"@[0]);
    assert("png"@.len() != "jpeg"@.len());
    assert("png"@.len() != "webp"@.len());
    assert("jpg"@.len() != "webp"@.len());
}

/// A copied file is read exactly if it is a regular one that is neither empty nor too large.
pub proof fn small_files_are_read(info: FileInfo, max_image_bytes: u64)
    ensures
        reader::is_readable(Some(info), max_image_bytes) <==> info.is_file && info.len >= 1
            && info.len <= max_image_bytes,
        !reader::is_readable(None, max_image_bytes),
{
}

/// A copied file is taken for an image exactly if it is of the kind that its name promises and
/// holds a valid image; the image then keeps the file.
pub proof fn copied_files_hold_what_they_promise(
    mime: Seq<char>,
    bytes: Seq<u8>,
    width: u32,
    height: u32,
    rgba: Seq<u8>,
    image: Option<ImagePayload>,
)
    requires
        reader::keeps_file(image, mime, bytes, reader::copied_image(mime, bytes)),
        imaging::decoded_image(bytes, 32_768, 268_435_456) == Some((width, height, rgba)),
    ensures
        image is Some <==> imaging::guessed_mime(bytes) == Some(mime) && domain::image_problem(
            width,
            height,
            rgba.len(),
        ) is None,
        image matches Some(found) ==> {
            &&& found.width == width
            &&& found.height == height
            &&& found.rgba@ == rgba
            &&& found.source_mime is Some && found.source_mime->0@ == mime
            &&& found.source_bytes is Some && found.source_bytes->0@ == bytes
            &&& found.image_source == CapturedImageSource::CopiedImageFile
        },
{
}

/// A copied file that cannot be decoded is no image.
pub proof fn undecoded_files_are_no_images(
    mime: Seq<char>,
    bytes: Seq<u8>,
    image: Option<ImagePayload>,
)
    requires
        reader::keeps_file(image, mime, bytes, reader::copied_image(mime, bytes)),
        imaging::decoded_image(bytes, 32_768, 268_435_456) is None,
    ensures
        image is None,
{
}

/// Pixels from the clipboard are taken exactly if they make a valid image.
pub proof fn valid_pixels_are_taken(image: RawImage)
    ensures
        reader::is_valid_raw(image) <==> 1 <= image.width <= 32_768 && 1 <= image.height <= 32_768
            && image.bytes@.len() == image.width * image.height * 4 && image.bytes@.len()
            <= 268_435_456,
{
    crate::laws::images::accepted_images_have_all_their_pixels(
        image.width as u32,
        image.height as u32,
        image.bytes@.len(),
    );
}

/// An image is handed back to the clipboard only if someone else put it there as pixels and nothing
/// has changed since; what the application put there, what came as a file, and what has been
/// replaced are left alone.
pub proof fn images_are_handed_back_or_not(
    captured: u64,
    current: u64,
    source: Option<CapturedImageSource>,
    is_own: bool,
    owner_changed: bool,
)
    ensures
        ({
            let decision = clipboard::republish_decision(
                captured,
                current,
                source,
                is_own,
                owner_changed,
            );
            let is_newer = owner_changed || current != captured;
            &&& is_own <==> decision == RepublishDecision::SkipOwnEvent
            &&& !is_own && source == Some(CapturedImageSource::CopiedImageFile) ==> decision
                == RepublishDecision::SkipFilePayload
            &&& !is_own && source != Some(CapturedImageSource::CopiedImageFile) && is_newer
                ==> decision == RepublishDecision::SkipNewerClipboard
            &&& !is_own && source == Some(CapturedImageSource::ClipboardImage) && !is_newer
                ==> decision == RepublishDecision::Republish
            &&& !is_own && source is None && !is_newer ==> decision
                == RepublishDecision::SkipFilePayload
        }),
{
}

/// What the application puts on the clipboard is marked as its own, for any owner; what it fails to
/// put there leaves no mark.
pub proof fn own_writes_are_marked(guard: GuardView, now: u128, hash: Seq<char>, mark: MarkView)
    requires
        forall|k: int|
            0 <= k < guard.marks.len() ==> (#[trigger] guard.marks[k]).id != guard.id_after(),
    ensures
        ({
            let done = clipboard::guarded(guard, now, hash, true);
            let failed = clipboard::guarded(guard, now, hash, false);
            let new_mark = MarkView {
                id: guard.id_after(),
                hash,
                created_at: now,
                state: MarkState::Committed,
                origin: ClipboardEventOrigin::KitsuPin,
                expected_owner: None,
            };
            let young = guard.marks.contains(mark) && now - mark.created_at < 10_000_000_000;
            &&& done.marks.contains(mark) <==> young || mark == new_mark
            &&& failed.marks.contains(mark) <==> young
        }),
{
    let kept = guard.alive_marks(now);
    let id = guard.id_after();
    sequences::lemma_filter_members(guard.marks, |mark: MarkView| mark.alive(now));
    let marked = guard.marked(now, hash, ClipboardEventOrigin::KitsuPin, None);
    let n = kept.len() as int;
    assert forall|k: int| 0 <= k < n implies (#[trigger] kept[k]).id != id by {
        assert(kept.contains(kept[k]));
        let i = choose|i: int| 0 <= i < guard.marks.len() && guard.marks[i] == kept[k];
        assert(guard.marks[i].id != id);
    }
    assert forall|k: int| 0 <= k < n implies (#[trigger] marked.marks[k]).id != id by {
        assert(marked.marks[k] == kept[k]);
    }
    sequences::lemma_is_first_index(marked.marks, |mark: MarkView| mark.id == id, n);
    let done = marked.committed(id);
    let new_mark = done.marks[n];
    assert(done.marks =~= kept.push(new_mark));
    if kept.contains(mark) {
        let k = choose|k: int| 0 <= k < kept.len() && kept[k] == mark;
        assert(done.marks[k] == mark);
        assert(marked.marks[k] == mark);
    }
    assert(done.marks[n] == new_mark);
    if done.marks.contains(mark) {
        let k = choose|k: int| 0 <= k < done.marks.len() && done.marks[k] == mark;
        if k < n {
            assert(kept[k] == mark);
        }
    }
    let stays = |mark: MarkView| mark.id != id;
    sequences::lemma_filter_members(marked.marks, stays);
    if marked.marks.contains(mark) && mark.id != id {
        let k = choose|k: int| 0 <= k < marked.marks.len() && marked.marks[k] == mark;
        assert(kept[k] == mark);
    }
    if kept.contains(mark) {
        let k = choose|k: int| 0 <= k < kept.len() && kept[k] == mark;
        assert(kept[k].id != id);
        assert(marked.marks.contains(mark));
    }
}

/// Nothing is done with what is read while watching is paused, nor with what was seen before,
/// unless a notification told of a change.
pub proof fn what_was_seen_is_passed_over(
    look: Look,
    watcher: WatcherView,
    payload: ClipboardPayload,
)
    ensures
        look.passes_over(watcher, payload) <==> look.paused || (!look.from_event
            && watcher.last_fingerprint == payload.fingerprint_text()),
        watcher.having_seen(payload).last_fingerprint == payload.fingerprint_text(),
        watcher.having_seen(payload).mode == watcher.mode,
{
}

/// A pass begins with saving a text, or with looking for the report of an image; it ends at once
/// where there is nothing to do, as with a text of which nothing is left.
pub proof fn passes_begin_with_what_was_read(payload: ClipboardPayload, look: Look, is_idle: bool)
    ensures
        ({
            let begun = PassView::begun(payload, look, is_idle);
            let is_blank = payload matches ClipboardPayload::Text(content)
                && normalize::normalized_content(content@).len() == 0;
            &&& begun.payload == payload
            &&& begun.look == look
            &&& begun.failures == 0
            &&& begun.report is None
            &&& is_idle || is_blank ==> begun.pending() == PassAction::End
            &&& !is_idle && !is_blank && payload is Text ==> begun.pending() == PassAction::Save
            &&& !is_idle && payload is Image ==> begun.pending() == PassAction::FindReport(0)
        }),
{
}

/// The report of an image is looked for five times at most, with pauses of fifty milliseconds; then
/// the image is saved, with the report if one was found.
pub proof fn reports_of_images_are_looked_for(pass: PassView, report: Option<EventView>)
    requires
        pass.stage == PassStage::Report,
    ensures
        ({
            let next = pass.searched(report);
            &&& report is Some || pass.failures >= 4 ==> next.pending() == PassAction::Save
                && next.report == report
            &&& report is None && pass.failures < 4 ==> next.pending() == PassAction::FindReport(50)
                && next.failures == pass.failures + 1 && next.report == pass.report
            &&& next.payload == pass.payload
            &&& next.look == pass.look
        }),
{
}

/// What was saved is announced, and what could not be is warned of; then an image of someone else's
/// is handed back if nothing has changed since it was read, and the pass ends.
pub proof fn saved_copies_are_announced(
    pass: PassView,
    saved: bool,
    generation: u64,
    owner: Option<u32>,
)
    requires
        pass.stage == PassStage::Save,
    ensures
        ({
            let tried = pass.tried_to_save(saved);
            let told = tried.told_change(generation, owner);
            let came_as_pixels = pass.payload matches ClipboardPayload::Image(image)
                && image.image_source == CapturedImageSource::ClipboardImage;
            let a = pass.look.owner_before;
            let b = pass.look.owner_after;
            let has_changed = (a is Some && b is Some && a != b) || (b is Some && owner is Some && b
                != owner) || generation != pass.look.generation;
            &&& saved ==> tried.pending() == PassAction::Announce
            &&& !saved ==> tried.pending() == PassAction::Warn && told == tried
            &&& saved && came_as_pixels && !has_changed ==> told.pending() == PassAction::Republish
            &&& saved && !(came_as_pixels && !has_changed) ==> told.pending() == PassAction::End
            &&& told.payload == pass.payload
        }),
{
}

/// A pass that is not at the step of saving is not moved on by saving, and one that has saved
/// nothing is not moved on by a change.
pub proof fn passes_keep_their_order(
    pass: PassView,
    saved: bool,
    generation: u64,
    owner: Option<u32>,
)
    ensures
        pass.stage != PassStage::Save ==> pass.tried_to_save(saved) == pass,
        pass.stage != PassStage::Saved ==> pass.told_change(generation, owner) == pass,
        pass.saves_text() <==> pass.pending() == PassAction::Save && pass.payload is Text,
        pass.saves_image() <==> pass.pending() == PassAction::Save && pass.payload is Image,
        pass.stage == PassStage::HandBack <==> pass.pending() == PassAction::Republish,
{
}

/// A text with nothing in it is not saved and changes nothing.
pub proof fn blank_texts_change_nothing(
    buffer: BufferView,
    history: RepositoryView,
    buffer_after: BufferView,
    history_after: RepositoryView,
    content: Seq<char>,
    now: Moment,
    result: Result<Option<usize>, RepositoryError>,
)
    requires
        capture::text_captured(
            buffer,
            history,
            buffer_after,
            history_after,
            content,
            now,
            result,
        ),
        normalize::normalized_content(content).len() == 0,
    ensures
        result == Ok::<Option<usize>, RepositoryError>(None),
        buffer_after == buffer,
        history_after == history,
{
}

/// A text is saved with the domain and the title that its report names, if there is one; where no
/// waiting report is attached then, the history is what saving the text makes of it.
pub proof fn texts_are_saved_as_reported(
    buffer: BufferView,
    event: Option<EventView>,
    history: RepositoryView,
    buffer_after: BufferView,
    history_after: RepositoryView,
    content: Seq<char>,
    now: i64,
    new_id: Seq<char>,
    receipt_id: u128,
    result: Result<Option<usize>, RepositoryError>,
)
    requires
        capture::text_filed(
            buffer,
            event,
            history,
            buffer_after,
            history_after,
            content,
            now,
            new_id,
            receipt_id,
            result,
        ),
    ensures
        ({
            let saved = match event {
                Some(event) => history.text_saved(
                    content,
                    Some(event.domain),
                    Some(event.page_title),
                    now,
                    new_id,
                ),
                None => history.text_saved(content, None, None, now, new_id),
            };
            match result {
                Ok(attached) => attached is Some && saved is Ok && (attached == Some(0usize)
                    ==> history_after == saved->Ok_0.0),
                Err(error) => saved == Err::<(RepositoryView, int), RepositoryError>(error)
                    && history_after == history && buffer_after == buffer,
            }
        }),
{
    if let Ok(Some(attached)) = result {
        let normal = normalize::normalized_content(content);
        let domain = capture::reported_domain(event);
        let title = capture::reported_title(event);
        let (next, at) = history.text_saved(content, domain, title, now, new_id)->Ok_0;
        let copy = crate::persistence::upsert::CopyView::of_text(content, domain, title, now);
        let receipt = history.receipt_of(
            copy,
            text::utf8_len(normal),
            receipt_id,
            next.clips[at],
        );
        lemma_filed(
            buffer,
            next,
            buffer_after,
            history_after,
            normalize::hash_of(normal),
            text::utf8_len(normal) as usize,
            receipt,
            attached,
        );
    }
}

/// Keeping a receipt changes the history only by attaching reports.
proof fn lemma_filed(
    buffer: BufferView,
    history: RepositoryView,
    buffer_after: BufferView,
    history_after: RepositoryView,
    hash: Seq<char>,
    length: usize,
    receipt: Option<ReceiptView>,
    attached: usize,
)
    requires
        capture::receipt_filed(
            buffer,
            history,
            buffer_after,
            history_after,
            hash,
            length,
            receipt,
            attached,
        ),
    ensures
        attached == 0 ==> history_after == history,
        receipt is None ==> attached == 0 && buffer_after == buffer,
{
    if let Some(receipt) = receipt {
        let now_ms = choose|now_ms: i64|
            {
                let filed = #[trigger] buffer.with_receipt(hash, length, receipt, now_ms);
                crate::browser_metadata::reconcile::reconciles(
                    filed.receipts.len(),
                    filed,
                    history,
                    buffer_after,
                    history_after,
                    attached as int,
                )
            };
        let filed = buffer.with_receipt(hash, length, receipt, now_ms);
        reporting::without_pairs_nothing_is_attached(
            filed.receipts.len(),
            filed,
            history,
            buffer_after,
            history_after,
            attached as int,
        );
    }
}

/// A copy with a domain needs no receipt and awaits no report; the receipt of any other is kept.
pub proof fn receipts_of_copies_are_kept(
    buffer: BufferView,
    history: RepositoryView,
    buffer_after: BufferView,
    history_after: RepositoryView,
    hash: Seq<char>,
    length: usize,
    receipt: Option<ReceiptView>,
    attached: usize,
)
    requires
        capture::receipt_filed(
            buffer,
            history,
            buffer_after,
            history_after,
            hash,
            length,
            receipt,
            attached,
        ),
    ensures
        receipt is None ==> attached == 0 && buffer_after == buffer && history_after == history,
        receipt matches Some(kept) ==> exists|now_ms: i64|
            crate::browser_metadata::reconcile::reconciles(
                (#[trigger] buffer.with_receipt(hash, length, kept, now_ms)).receipts.len(),
                buffer.with_receipt(hash, length, kept, now_ms),
                history,
                buffer_after,
                history_after,
                attached as int,
            ),
{
}

/// Of several copied files, or of none in the list, only the text of the clipboard counts; without
/// a list of files an image comes before the text.
pub proof fn copied_files_stay_files<R: ClipboardReader>(
    source: &R,
    max_image_bytes: u64,
    files: Option<Vec<CopiedFile>>,
    payload: Option<ClipboardPayload>,
)
    requires
        reader::reads_payload(source, max_image_bytes, files, payload),
    ensures
        files is Some && files->0@.len() != 1 ==> reader::reads_text(source, payload),
        files is Some && files->0@.len() == 1 ==> reader::reads_text(source, payload) || exists|
            image: Option<ImagePayload>,
        |
            #[trigger] reader::reads_image(source, files->0@[0], max_image_bytes, image)
                && image is Some && payload == Some(ClipboardPayload::Image(image->0)),
        files is None ==> exists|raw: Option<RawImage>|
            {
                &&& #[trigger] call_ensures(R::get_image, (source,), raw)
                &&& raw is Some && reader::is_valid_raw(raw->0) ==> payload is Some && (
                payload->0 matches ClipboardPayload::Image(image) && image.width == raw->0.width
                    && image.height == raw->0.height && image.rgba@ == raw->0.bytes@
                    && image.source_mime is None && image.source_bytes is None
                    && image.image_source == CapturedImageSource::ClipboardImage)
                &&& raw is None || !reader::is_valid_raw(raw->0) ==> reader::reads_text(
                    source,
                    payload,
                )
            },
{
    if files is None {
        let raw = choose|raw: Option<RawImage>|
            {
                &&& #[trigger] call_ensures(R::get_image, (source,), raw)
                &&& match raw {
                    Some(image) if reader::is_valid_raw(image) => payload == Some(
                        ClipboardPayload::Image(
                            ImagePayload {
                                width: image.width as u32,
                                height: image.height as u32,
                                rgba: image.bytes,
                                source_mime: None,
                                source_bytes: None,
                                image_source: CapturedImageSource::ClipboardImage,
                            },
                        ),
                    ),
                    _ => reader::reads_text(source, payload),
                }
            };
        assert(call_ensures(R::get_image, (source,), raw));
    }
}

/// What is read as text is the text of the clipboard.
pub proof fn texts_are_read_as_they_are<R: ClipboardReader>(
    source: &R,
    payload: Option<ClipboardPayload>,
)
    requires
        reader::reads_text(source, payload),
    ensures
        exists|words: Option<String>|
            {
                &&& #[trigger] call_ensures(R::get_text, (source,), words)
                &&& words is Some ==> payload == Some(ClipboardPayload::Text(words->0))
                &&& words is None ==> payload is None
            },
{
}

/// A file whose name promises no image is not taken for one; any other is asked for its size, and
/// read only if that is allowed.
pub proof fn files_are_asked_before_they_are_read<R: ClipboardReader>(
    source: &R,
    file: CopiedFile,
    max_image_bytes: u64,
    image: Option<ImagePayload>,
)
    requires
        reader::reads_image(source, file, max_image_bytes, image),
    ensures
        reader::promised_mime(text::text_of(file.extension)) is None ==> image is None,
        image is Some ==> exists|path: &str, info: Option<FileInfo>|
            #[trigger] call_ensures(R::file_info, (source, path), info) && path@ == file.path@
                && info is Some && info->0.is_file && 0 < info->0.len <= max_image_bytes,
        image is Some ==> exists|path: &str, bytes: Option<Vec<u8>>|
            #[trigger] call_ensures(R::read_file, (source, path), bytes) && path@ == file.path@
                && bytes is Some && image->0.source_bytes is Some && image->0.source_bytes->0@
                == bytes->0@ && text::text_of(image->0.source_mime) == reader::promised_mime(
                text::text_of(file.extension),
            ),
{
}

/// A text that is copied uses up the last report of it that is wanted, and is saved with it at the
/// time of the copy.
pub proof fn copied_texts_use_up_their_report(
    buffer: BufferView,
    history: RepositoryView,
    buffer_after: BufferView,
    history_after: RepositoryView,
    content: Seq<char>,
    now: Moment,
    result: Result<Option<usize>, RepositoryError>,
)
    requires
        capture::text_captured(
            buffer,
            history,
            buffer_after,
            history_after,
            content,
            now,
            result,
        ),
        normalize::normalized_content(content).len() > 0,
    ensures
        ({
            let normal = normalize::normalized_content(content);
            let (rest, event) = buffer.taken(
                normalize::hash_of(normal),
                text::utf8_len(normal) as usize,
                now,
            );
            exists|id: u128, receipt_id: u128|
                {
                    let domain = match event {
                        Some(event) => Some(event.domain),
                        None => None,
                    };
                    let title = match event {
                        Some(event) => Some(event.page_title),
                        None => None,
                    };
                    let saved = history.text_saved(
                        content,
                        domain,
                        title,
                        now.millis() as i64,
                        crate::identity::uuid_text(id),
                    );
                    &&& id != 0
                    &&& #[trigger] capture::text_filed(
                        rest,
                        event,
                        history,
                        buffer_after,
                        history_after,
                        content,
                        now.millis() as i64,
                        crate::identity::uuid_text(id),
                        receipt_id,
                        result,
                    )
                    &&& match result {
                        Ok(attached) => attached is Some && saved is Ok && (attached == Some(0usize)
                            ==> history_after == saved->Ok_0.0),
                        Err(error) => saved == Err::<(RepositoryView, int), RepositoryError>(error)
                            && history_after == history && buffer_after == rest,
                    }
                }
        }),
{
    let normal = normalize::normalized_content(content);
    let (rest, event) = buffer.taken(
        normalize::hash_of(normal),
        text::utf8_len(normal) as usize,
        now,
    );
    let (id, receipt_id) = choose|id: u128, receipt_id: u128|
        id != 0 && receipt_id != 0 && #[trigger] capture::text_filed(
            rest,
            event,
            history,
            buffer_after,
            history_after,
            content,
            now.millis() as i64,
            crate::identity::uuid_text(id),
            receipt_id,
            result,
        );
    texts_are_saved_as_reported(
        rest,
        event,
        history,
        buffer_after,
        history_after,
        content,
        now.millis() as i64,
        crate::identity::uuid_text(id),
        receipt_id,
        result,
    );
}

/// An image is saved with the domain and the title that its report names, if there is one, once its
/// file is written; where it cannot be, nothing has changed.
pub proof fn images_are_saved_as_reported<F: FnOnce(&PreparedImage) -> bool>(
    buffer: BufferView,
    event: Option<EventView>,
    history: RepositoryView,
    buffer_after: BufferView,
    history_after: RepositoryView,
    image: ImagePayload,
    now: i64,
    limits: StorageLimits,
    size: ThumbnailSize,
    persist: F,
    new_id: Seq<char>,
    receipt_id: u128,
    result: Result<usize, RepositoryError>,
)
    requires
        capture::image_filed(
            buffer,
            event,
            history,
            buffer_after,
            history_after,
            image,
            now,
            limits,
            size,
            persist,
            new_id,
            receipt_id,
            result,
        ),
    ensures
        result is Err ==> history_after == history && buffer_after == buffer,
        result matches Ok(attached) ==> {
            let plan = history.image_plan(
                image,
                limits.max_image_bytes,
                limits.max_storage_bytes,
                size,
            );
            let saved = match event {
                Some(event) => history.image_saved(
                    image,
                    plan->Ok_0,
                    Some(event.domain),
                    Some(event.page_title),
                    now,
                    new_id,
                ),
                None => history.image_saved(image, plan->Ok_0, None, None, now, new_id),
            };
            &&& plan is Ok
            &&& saved is Ok
            &&& attached == 0 ==> history_after == saved->Ok_0.0
            &&& exists|prepared: &PreparedImage|
                #[trigger] call_ensures(persist, (prepared,), true) && prepared@ == plan->Ok_0
        },
{
    if let Ok(attached) = result {
        let domain = capture::reported_domain(event);
        let title = capture::reported_title(event);
        let plan = history.image_plan(
            image,
            limits.max_image_bytes,
            limits.max_storage_bytes,
            size,
        )->Ok_0;
        let (next, at) = history.image_saved(image, plan, domain, title, now, new_id)->Ok_0;
        let copy = crate::persistence::upsert::CopyView::of_image(image, plan, domain, title, now);
        lemma_filed(
            buffer,
            next,
            buffer_after,
            history_after,
            domain::image_hash(image.width, image.height, image.rgba@),
            image.rgba@.len() as usize,
            history.receipt_of(copy, image.rgba@.len(), receipt_id, next.clips[at]),
            attached,
        );
    }
}

/// The session is told from three variables of the environment, whatever looks them up.
pub proof fn sessions_are_told_by_the_environment<F: Fn(&str) -> Option<String>>(
    fetch_env: F,
    session: SessionType,
    declared: Option<Seq<char>>,
    wayland: bool,
    display: bool,
)
    requires
        session::detected_with(fetch_env, session),
        forall|value: Option<String>| #[trigger]
            call_ensures(fetch_env, ("XDG_SESSION_TYPE",), value) ==> text::text_of(value)
                == declared,
        forall|value: Option<String>| #[trigger]
            call_ensures(fetch_env, ("WAYLAND_DISPLAY",), value) ==> (value is Some) == wayland,
        forall|value: Option<String>| #[trigger]
            call_ensures(fetch_env, ("DISPLAY",), value) ==> (value is Some) == display,
    ensures
        ({
            let says_wayland = declared is Some && text::contains_text(
                text::lowered(declared->0),
                "wayland"@,
            );
            let says_x11 = declared is Some && text::contains_text(
                text::lowered(declared->0),
                "x11"@,
            );
            &&& says_wayland ==> session == SessionType::Wayland
            &&& !says_wayland && says_x11 ==> session == SessionType::X11
            &&& !says_wayland && !says_x11 && wayland ==> session == SessionType::Wayland
            &&& !says_wayland && !says_x11 && !wayland && display ==> session == SessionType::X11
            &&& !says_wayland && !says_x11 && !wayland && !display ==> session
                == SessionType::Unknown
        }),
{
}

/// A text that is copied from the history is handed to the clipboard as it is, and marked as the
/// application's own if it got there; else no mark is left.
pub proof fn copied_texts_are_handed_over<E, F: FnOnce(&ClipboardPayload) -> Result<(), E>>(
    content: Seq<char>,
    before: GuardView,
    after: GuardView,
    write: F,
    written: Result<(), E>,
)
    requires
        commands::text_written(content, before, after, write, written),
        forall|k: int|
            0 <= k < before.marks.len() ==> (#[trigger] before.marks[k]).id != before.id_after(),
    ensures
        exists|payload: &ClipboardPayload|
            {
                &&& #[trigger] call_ensures(write, (payload,), written)
                &&& *payload matches ClipboardPayload::Text(words) && words@ == content
            },
        written is Err ==> forall|mark: MarkView| #[trigger]
            after.marks.contains(mark) ==> before.marks.contains(mark),
        written is Ok ==> exists|mark: MarkView|
            {
                &&& #[trigger] after.marks.contains(mark)
                &&& mark.id == before.id_after()
                &&& mark.hash == normalize::hash_of("text:"@ + (if normalize::normalized_content(
                    content,
                ).len() == 0 {
                    "empty"@
                } else {
                    normalize::hash_of(normalize::normalized_content(content))
                }))
                &&& mark.state == MarkState::Committed
                &&& mark.origin == ClipboardEventOrigin::KitsuPin
                &&& mark.expected_owner is None
            },
{
    let (payload, now) = choose|payload: &ClipboardPayload, now: u128|
        {
            &&& #[trigger] call_ensures(write, (payload,), written)
            &&& *payload matches ClipboardPayload::Text(words) && words@ == content
            &&& after == #[trigger] clipboard::guarded(
                before,
                now,
                normalize::hash_of(payload.fingerprint_text()),
                written is Ok,
            )
        };
    let hash = normalize::hash_of(payload.fingerprint_text());
    let mark = MarkView {
        id: before.id_after(),
        hash,
        created_at: now,
        state: MarkState::Committed,
        origin: ClipboardEventOrigin::KitsuPin,
        expected_owner: None,
    };
    own_writes_are_marked(before, now, hash, mark);
    assert forall|other: MarkView| written is Err && #[trigger] after.marks.contains(
        other,
    ) implies before.marks.contains(other) by {
        own_writes_are_marked(before, now, hash, other);
    }
    if written is Ok {
        assert(after.marks.contains(mark));
    }
}

/// A pass that is begun leaves the guard as it was where what was read is passed over; else one
/// mark of the application's own write is used up, if there is one, and then nothing is saved.
pub proof fn own_copies_are_passed_over(
    watcher: WatcherView,
    guard: GuardView,
    watcher_after: WatcherView,
    guard_after: GuardView,
    payload: ClipboardPayload,
    look: Look,
    now: u128,
    pass: PassView,
)
    requires
        pass::pass_started(
            watcher,
            guard,
            watcher_after,
            guard_after,
            payload,
            look,
            now,
            pass,
        ),
    ensures
        ({
            let (checked, is_own) = guard.checked(
                now,
                normalize::hash_of(payload.fingerprint_text()),
                look.owner_before,
            );
            let is_blank = payload matches ClipboardPayload::Text(content)
                && normalize::normalized_content(content@).len() == 0;
            &&& watcher_after == watcher.having_seen(payload)
            &&& look.passes_over(watcher, payload) ==> guard_after == guard && pass.pending()
                == PassAction::End
            &&& !look.passes_over(watcher, payload) ==> guard_after == checked
            &&& !look.passes_over(watcher, payload) && is_own ==> pass.pending() == PassAction::End
            &&& !look.passes_over(watcher, payload) && !is_own && !is_blank ==> pass.pending() != (
            PassAction::End)
            &&& pass.payload == payload
            &&& pass.look == look
        }),
{
}

} // verus!
