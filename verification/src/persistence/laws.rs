//! What holds of the history whatever is done to it.

use crate::browser_metadata::{EventView, ReceiptView, MAX_TITLE_CHARS};
use crate::domain::normalize;
use crate::persistence::attach;
use crate::persistence::query;
use crate::persistence::query::{QueryView, MAX_LIMIT};
use crate::persistence::rows::{CategoryRowView, ClipRowView};
use crate::persistence::upsert;
use crate::persistence::upsert::CopyView;
use crate::persistence::{RepositoryError, RepositoryView};
use crate::ranking;
use crate::sequences;
use crate::text;
use vstd::prelude::*;

verus! {

/// Where a clip is found.
pub(crate) proof fn lemma_clip_found(repository: RepositoryView, at: int)
    requires
        repository.wf(),
        0 <= at < repository.clips.len(),
    ensures
        repository.clip_position(repository.clips[at].id) == at,
        repository.slot_position(
            repository.clips[at].content_hash,
            repository.clips[at].domain_key,
        ) == at,
{
    let row = repository.clips[at];
    sequences::lemma_is_first_index(repository.clips, |other: ClipRowView| other.id == row.id, at);
    assert forall|k: int| 0 <= k < at implies !((#[trigger] repository.clips[k]).content_hash
        == row.content_hash && repository.clips[k].domain_key == row.domain_key) by {
        assert(!super::same_slot(repository.clips[k], repository.clips[at]));
    }
    sequences::lemma_is_first_index(
        repository.clips,
        |other: ClipRowView|
            other.content_hash == row.content_hash && other.domain_key == row.domain_key,
        at,
    );
}

/// What the position of a clip with a hash and a domain is.
pub(crate) proof fn lemma_slot(repository: RepositoryView, hash: Seq<char>, key: Seq<char>)
    ensures
        0 <= repository.slot_position(hash, key) <= repository.clips.len(),
        repository.slot_position(hash, key) < repository.clips.len() ==> {
            let row = repository.clips[repository.slot_position(hash, key)];
            row.content_hash == hash && row.domain_key == key
        },
        repository.slot_position(hash, key) == repository.clips.len() ==> forall|k: int|
            0 <= k < repository.clips.len() ==> !((
            #[trigger] repository.clips[k]).content_hash == hash && repository.clips[k].domain_key
                == key),
{
    let pred = |row: ClipRowView| row.content_hash == hash && row.domain_key == key;
    sequences::lemma_first_index(repository.clips, pred);
    if repository.slot_position(hash, key) == repository.clips.len() {
        assert forall|k: int| 0 <= k < repository.clips.len() implies !((
        #[trigger] repository.clips[k]).content_hash == hash && repository.clips[k].domain_key
            == key) by {
            assert(!pred(repository.clips[k]));
        }
    }
}

/// Where a copy is saved, and what is there afterwards.
pub(crate) proof fn lemma_saved(repository: RepositoryView, copy: CopyView, new_id: Seq<char>)
    requires
        repository.wf(),
        !repository.has_clip(new_id) || repository.slot_position(
            copy.content_hash,
            upsert::key_of(copy.domain),
        ) < repository.clips.len(),
    ensures
        repository.saved(copy, new_id) matches Ok((next, at)) ==> {
            let slot = repository.slot_position(copy.content_hash, upsert::key_of(copy.domain));
            &&& at == slot
            &&& 0 <= at < next.clips.len()
            &&& next.clips[at].content_hash == copy.content_hash
            &&& next.clips[at].domain_key == upsert::key_of(copy.domain)
            &&& next.clip_position(next.clips[at].id) == at
            &&& next.slot_position(copy.content_hash, upsert::key_of(copy.domain)) == at
        },
{
    let key = upsert::key_of(copy.domain);
    let slot = repository.slot_position(copy.content_hash, key);
    lemma_slot(repository, copy.content_hash, key);
    if slot < repository.clips.len() {
        lemma_clip_found(repository, slot);
    } else {
        sequences::lemma_first_index(repository.clips, |row: ClipRowView| row.id == new_id);
        let at = repository.clip_position(new_id);
        assert(at == repository.clips.len()) by {
            if at < repository.clips.len() {
                assert(repository.clips[at].id == new_id);
            }
        }
    }
    if let Ok((next, at)) = repository.saved(copy, new_id) {
        assert(at == slot);
        assert forall|k: int| 0 <= k < at implies #[trigger] next.clips[k] == repository.clips[k]
            && next.clips[k].id != next.clips[at].id && !(next.clips[k].content_hash
            == copy.content_hash && next.clips[k].domain_key == key) by {
            if slot < repository.clips.len() {
                assert(repository.clips[k].id != repository.clips[slot].id);
                assert(!super::same_slot(repository.clips[k], repository.clips[slot]));
            } else {
                assert(repository.clips[k].id != new_id);
            }
        }
        let id = next.clips[at].id;
        sequences::lemma_is_first_index(next.clips, |row: ClipRowView| row.id == id, at);
        sequences::lemma_is_first_index(
            next.clips,
            |row: ClipRowView| row.content_hash == copy.content_hash && row.domain_key == key,
            at,
        );
    }
}

/// Copying the same text on the same domain again adds no clip: the one that is there is counted
/// once more, at the new time, unless it cannot be counted further.
pub proof fn copying_again_counts(
    repository: RepositoryView,
    content: Seq<char>,
    domain: Option<Seq<char>>,
    titles: (Option<Seq<char>>, Option<Seq<char>>),
    times: (i64, i64),
    ids: (Seq<char>, Seq<char>),
)
    requires
        repository.wf(),
        !repository.has_clip(ids.0),
        repository.text_saved(content, domain, titles.0, times.0, ids.0) is Ok,
    ensures
        ({
            let (once, at) = repository.text_saved(content, domain, titles.0, times.0, ids.0)->Ok_0;
            let row = once.clips[at];
            match once.text_saved(content, domain, titles.1, times.1, ids.1) {
                Ok((twice, again)) => {
                    &&& again == at
                    &&& twice.clips.len() == once.clips.len()
                    &&& twice.clips[at].id == row.id
                    &&& twice.clips[at].content == content
                    &&& twice.clips[at].copy_count == row.copy_count + 1
                    &&& twice.clips[at].last_copied_at == times.1
                    &&& twice.clips[at].created_at == row.created_at
                    &&& twice.clips[at].pinned == row.pinned
                },
                Err(error) => error == RepositoryError::CounterOverflow && (row.copy_count
                    == i64::MAX || row.sort_key == i64::MAX),
            }
        }),
{
    let first = CopyView::of_text(content, domain, titles.0, times.0);
    lemma_saved(repository, first, ids.0);
}

/// A copy changes no clip but the one that it is saved in, and no category, link or image file;
/// of that one it keeps the identifier, the domain, the pin and the time of the first copy.
pub proof fn saving_touches_one_clip(
    repository: RepositoryView,
    copy: CopyView,
    new_id: Seq<char>,
    k: int,
)
    requires
        repository.wf(),
        repository.saved(copy, new_id) is Ok,
        0 <= k < repository.clips.len(),
    ensures
        ({
            let (next, at) = repository.saved(copy, new_id)->Ok_0;
            &&& next.categories == repository.categories
            &&& next.links == repository.links
            &&& next.blobs == repository.blobs
            &&& next.clips[k].id == repository.clips[k].id
            &&& next.clips[k].domain == repository.clips[k].domain
            &&& next.clips[k].pinned == repository.clips[k].pinned
            &&& next.clips[k].created_at == repository.clips[k].created_at
            &&& k != at ==> next.clips[k] == repository.clips[k]
        }),
{
    let id = repository.target_of(copy, new_id);
    sequences::lemma_first_index(repository.clips, |row: ClipRowView| row.id == id);
}

/// A browser report about a text.
pub open spec fn is_about(event: EventView, content: Seq<char>) -> bool {
    let normal = normalize::normalized_content(content);
    event.content_hash == normalize::hash_of(normal) && event.content_length == text::utf8_len(
        normal,
    )
}

/// A text that was known without a domain is copied once more, and then the browser reports that
/// this copy was made on a domain: the clip without a domain is as it was before the copy, but
/// for the title; another clip, which is on the domain, has the copy with its text; and no third
/// clip has changed. That fails only where the clip on the domain cannot be counted further, or
/// where the identifier for a new one is taken.
pub proof fn report_moves_the_copy(
    repository: RepositoryView,
    content: Seq<char>,
    page_title: Option<Seq<char>>,
    now: i64,
    receipt: ReceiptView,
    event: EventView,
    event_ms: i64,
    unused_id: Seq<char>,
    new_id: Seq<char>,
)
    requires
        repository.wf(),
        repository.text_saved(content, None, page_title, now, unused_id) is Ok,
        ({
            let next = repository.text_saved(content, None, page_title, now, unused_id)->Ok_0.0;
            let copy = CopyView::of_text(content, None, page_title, now);
            let at = repository.slot_position(copy.content_hash, Seq::empty());
            let length = text::utf8_len(normalize::normalized_content(content));
            &&& at < repository.clips.len()
            &&& repository.clips[at].payload_kind is Text
            &&& repository.receipt_of(copy, length, receipt.receipt_id, next.clips[at]) == Some(
                receipt,
            )
        }),
        is_about(event, content),
        event.domain.len() > 0,
    ensures
        ({
            let (next, at) = repository.text_saved(
                content,
                None,
                page_title,
                now,
                unused_id,
            )->Ok_0;
            let slot = repository.slot_position(event.content_hash, event.domain);
            &&& at == repository.slot_position(event.content_hash, Seq::empty())
            &&& match next.attached(event, receipt, event_ms, new_id) {
                Ok((last, clip_id)) => {
                    &&& last.clips[at] == (ClipRowView {
                        page_title: next.clips[at].page_title,
                        ..repository.clips[at]
                    })
                    &&& clip_id is Some
                    &&& clip_id->0 != repository.clips[at].id
                    &&& last.clip_position(clip_id->0) == slot
                    &&& slot < last.clips.len()
                    &&& last.clips[slot].id == clip_id->0
                    &&& last.clips[slot].domain_key == event.domain
                    &&& is_tidy(repository.clips) ==> last.clips[slot].domain == Some(event.domain)
                    &&& last.clips[slot].content == content
                    &&& slot == repository.clips.len() || repository.clips[slot].payload_kind is Text
                        ==> last.text_of_clip(clip_id->0) == Ok::<Seq<char>, RepositoryError>(
                        content,
                    )
                    &&& slot < repository.clips.len() ==> last.clips.len()
                        == repository.clips.len() && last.clips[slot].copy_count
                        == repository.clips[slot].copy_count + 1
                    &&& slot == repository.clips.len() ==> last.clips.len()
                        == repository.clips.len() + 1 && last.clips[slot].copy_count == 1
                        && last.clips[slot].last_copied_at == event_ms && clip_id == Some(new_id)
                    &&& forall|k: int|
                        0 <= k < repository.clips.len() && k != at && k != slot
                            ==> #[trigger] last.clips[k] == repository.clips[k]
                },
                Err(error) => {
                    ||| error == RepositoryError::CounterOverflow && slot < repository.clips.len()
                        && repository.clips[slot].copy_count == i64::MAX
                    ||| error == RepositoryError::ConstraintViolation && slot
                        == repository.clips.len() && repository.has_clip(new_id)
                },
            }
        }),
{
    let copy = CopyView::of_text(content, None, page_title, now);
    assert(upsert::key_of(copy.domain) =~= Seq::empty());
    lemma_saved(repository, copy, unused_id);
    let (next, at) = repository.text_saved(content, None, page_title, now, unused_id)->Ok_0;
    let slot = repository.slot_position(event.content_hash, event.domain);
    lemma_slot(repository, event.content_hash, event.domain);
    assert(next.clips[at] == copy.repeated(repository.clips[at]));
    assert(next.clip_position(receipt.clip_id) == at);
    let pred = |row: ClipRowView|
        row.content_hash == event.content_hash && row.domain_key == event.domain;
    sequences::lemma_first_index(repository.clips, pred);
    assert forall|k: int| 0 <= k < next.clips.len() implies pred(#[trigger] next.clips[k]) == pred(
        repository.clips[k],
    ) by {}
    assert forall|k: int| 0 <= k < slot implies !pred(#[trigger] next.clips[k]) by {
        assert(!pred(repository.clips[k]));
    }
    sequences::lemma_is_first_index(next.clips, pred, slot);
    assert(next.slot_position(event.content_hash, event.domain) == slot);
    assert(next.receipt_is_current(at, event, receipt));
    assert(repository.clips[at].copy_count >= 1);
    assert(slot != at);
    assert(next.has_clip(new_id) ==> repository.has_clip(new_id)) by {
        if next.has_clip(new_id) {
            let k = choose|k: int| 0 <= k < next.clips.len() && (#[trigger] next.clips[k]).id
                == new_id;
            assert(repository.clips[k].id == new_id);
        }
    }
    assert(attach::rolled_back(next.clips[at], receipt) =~= (ClipRowView {
        page_title: next.clips[at].page_title,
        ..repository.clips[at]
    }));
    if let Ok((last, clip_id)) = next.attached(event, receipt, event_ms, new_id) {
        let id = clip_id->0;
        assert forall|k: int| 0 <= k < slot implies (#[trigger] last.clips[k]).id != id by {
            assert(last.clips[k].id == repository.clips[k].id);
            assert(next.clips[k].id == repository.clips[k].id);
            if slot < repository.clips.len() {
                assert(repository.clips[k].id != repository.clips[slot].id);
            }
        }
        sequences::lemma_is_first_index(last.clips, |row: ClipRowView| row.id == id, slot);
        if slot < repository.clips.len() {
            assert(repository.clips[slot].id != repository.clips[at].id) by {
                if slot < at {
                    assert(repository.clips[slot].id != repository.clips[at].id);
                } else {
                    assert(repository.clips[at].id != repository.clips[slot].id);
                }
            }
        } else {
            assert(next.clips[at].id == repository.clips[at].id);
        }
    }
}

/// A text that is copied for the first time is saved without a domain, and then the browser
/// reports that this copy was made on a domain: the clip gets that domain, or it goes and the
/// clip that has the domain already counts the copy.
pub proof fn report_settles_a_first_copy(
    repository: RepositoryView,
    content: Seq<char>,
    page_title: Option<Seq<char>>,
    now: i64,
    receipt: ReceiptView,
    event: EventView,
    event_ms: i64,
    new_id: Seq<char>,
)
    requires
        repository.wf(),
        !repository.has_clip(new_id),
        repository.text_saved(content, None, page_title, now, new_id) is Ok,
        ({
            let (next, at) = repository.text_saved(content, None, page_title, now, new_id)->Ok_0;
            let copy = CopyView::of_text(content, None, page_title, now);
            let length = text::utf8_len(normalize::normalized_content(content));
            &&& at == repository.clips.len()
            &&& repository.receipt_of(copy, length, receipt.receipt_id, next.clips[at]) == Some(
                receipt,
            )
        }),
        is_about(event, content),
        event.domain.len() > 0,
    ensures
        ({
            let (next, at) = repository.text_saved(content, None, page_title, now, new_id)->Ok_0;
            let slot = repository.slot_position(event.content_hash, event.domain);
            let existing = repository.clips[slot];
            next.attached(event, receipt, event_ms, new_id) matches Ok((last, clip_id)) && {
                &&& slot == repository.clips.len() ==> {
                    &&& last.clips.len() == next.clips.len()
                    &&& last.clips[at].domain == Some(event.domain)
                    &&& last.clips[at].copy_count == 1
                    &&& clip_id == Some(new_id)
                }
                &&& slot < repository.clips.len() ==> {
                    &&& !last.has_clip(new_id)
                    &&& last.clips.contains(
                        attach::merged(
                            existing,
                            next.clips[at],
                            attach::reported_title(event),
                            event_ms,
                        ),
                    )
                    &&& clip_id == Some(existing.id)
                }
            }
        }),
{
    let copy = CopyView::of_text(content, None, page_title, now);
    lemma_saved(repository, copy, new_id);
    let (next, at) = repository.text_saved(content, None, page_title, now, new_id)->Ok_0;
    let slot = repository.slot_position(event.content_hash, event.domain);
    lemma_slot(repository, event.content_hash, event.domain);
    sequences::lemma_first_index(repository.clips, |row: ClipRowView| row.id == new_id);
    assert(next.clips[at] == copy.first(new_id));
    let pred = |row: ClipRowView|
        row.content_hash == event.content_hash && row.domain_key == event.domain;
    sequences::lemma_first_index(repository.clips, pred);
    assert(!pred(next.clips[at]));
    assert forall|k: int| 0 <= k < slot implies !pred(#[trigger] next.clips[k]) by {
        assert(!pred(repository.clips[k]));
    }
    if slot < repository.clips.len() {
        assert(next.clips[slot] == repository.clips[slot]);
        sequences::lemma_is_first_index(next.clips, pred, slot);
        let row = attach::merged(
            repository.clips[slot],
            next.clips[at],
            attach::reported_title(event),
            event_ms,
        );
        let changed = next.clips.update(slot, row);
        let keep = |row: ClipRowView| row.id != new_id;
        sequences::lemma_filter_members(changed, keep);
        assert(changed[slot] == row);
        assert(row.id == repository.clips[slot].id);
        assert(changed.filter(keep).contains(row));
        let (last, _) = next.attached(event, receipt, event_ms, new_id)->Ok_0;
        assert(last.clips == changed.filter(keep));
        assert forall|k: int| 0 <= k < last.clips.len() implies (#[trigger] last.clips[k]).id
            != new_id by {
            assert(last.clips.contains(last.clips[k]));
        }
    } else {
        sequences::lemma_is_first_index(next.clips, pred, next.clips.len() as int);
    }
}

/// Once the clip has been copied again, the receipt of the copy before is of no use: a report
/// that comes with it changes nothing.
pub proof fn copied_again_makes_receipt_stale(
    repository: RepositoryView,
    content: Seq<char>,
    times: (i64, i64),
    receipt: ReceiptView,
    event: EventView,
    event_ms: i64,
    new_id: Seq<char>,
)
    requires
        repository.wf(),
        !repository.has_clip(new_id),
        repository.text_saved(content, None, None, times.0, new_id) is Ok,
        ({
            let (once, at) = repository.text_saved(content, None, None, times.0, new_id)->Ok_0;
            let copy = CopyView::of_text(content, None, None, times.0);
            let length = text::utf8_len(normalize::normalized_content(content));
            &&& repository.receipt_of(copy, length, receipt.receipt_id, once.clips[at]) == Some(
                receipt,
            )
            &&& once.text_saved(content, None, None, times.1, new_id) is Ok
        }),
    ensures
        ({
            let (once, at) = repository.text_saved(content, None, None, times.0, new_id)->Ok_0;
            let (twice, _) = once.text_saved(content, None, None, times.1, new_id)->Ok_0;
            twice.attached(event, receipt, event_ms, new_id) == Ok::<
                (RepositoryView, Option<Seq<char>>),
                RepositoryError,
            >((twice, None))
        }),
{
    let first = CopyView::of_text(content, None, None, times.0);
    let second = CopyView::of_text(content, None, None, times.1);
    lemma_saved(repository, first, new_id);
    let (once, at) = repository.text_saved(content, None, None, times.0, new_id)->Ok_0;
    let (twice, again) = once.text_saved(content, None, None, times.1, new_id)->Ok_0;
    assert(again == at);
    assert(twice.clips[at] == second.repeated(once.clips[at]));
    let pred = |row: ClipRowView| row.id == receipt.clip_id;
    sequences::lemma_first_index(once.clips, pred);
    assert forall|k: int| 0 <= k < at implies !pred(#[trigger] twice.clips[k]) by {
        assert(!pred(once.clips[k]));
    }
    sequences::lemma_is_first_index(twice.clips, pred, at);
}

/// A report is attached at most once: with the same receipt a second time nothing changes.
pub proof fn attaching_twice_is_attaching_once(
    repository: RepositoryView,
    event: EventView,
    receipt: ReceiptView,
    event_ms: i64,
    ids: (Seq<char>, Seq<char>),
)
    requires
        repository.wf(),
        receipt.previous_copy_count != receipt.resulting_copy_count,
        event.domain.len() > 0,
        repository.attached(event, receipt, event_ms, ids.0) is Ok,
    ensures
        ({
            let (once, _) = repository.attached(event, receipt, event_ms, ids.0)->Ok_0;
            once.attached(event, receipt, event_ms, ids.1) == Ok::<
                (RepositoryView, Option<Seq<char>>),
                RepositoryError,
            >((once, None))
        }),
{
    let (once, _) = repository.attached(event, receipt, event_ms, ids.0)->Ok_0;
    let t = repository.clip_position(receipt.clip_id);
    let e = repository.slot_position(event.content_hash, event.domain);
    let pred = |row: ClipRowView| row.id == receipt.clip_id;
    sequences::lemma_first_index(repository.clips, pred);
    lemma_slot(repository, event.content_hash, event.domain);
    let again = once.clip_position(receipt.clip_id);
    sequences::lemma_first_index(once.clips, pred);
    if repository.receipt_is_current(t, event, receipt) {
        let temporary = repository.clips[t];
        assert(temporary.id == receipt.clip_id);
        if receipt.previous_copy_count == 0 && e < repository.clips.len() {
            assert(e != t);
            let changed = repository.with_clip(
                e,
                attach::merged(
                    repository.clips[e],
                    temporary,
                    attach::reported_title(event),
                    event_ms,
                ),
            );
            let keep = |row: ClipRowView| row.id != temporary.id;
            assert(once.clips == changed.clips.filter(keep));
            sequences::lemma_filter_members(changed.clips, keep);
            if again < once.clips.len() {
                assert(once.clips.contains(once.clips[again]));
                assert(pred(once.clips[again]));
            }
        } else {
            assert forall|k: int| 0 <= k < t implies !pred(#[trigger] once.clips[k]) by {
                assert(!pred(repository.clips[k]));
            }
            assert(pred(once.clips[t]));
            sequences::lemma_is_first_index(once.clips, pred, t);
            assert(again == t);
        }
    }
}

/// Titles are short, and the key of a clip is its domain.
pub open spec fn is_tidy(clips: Seq<ClipRowView>) -> bool {
    forall|k: int|
        0 <= k < clips.len() ==> ((#[trigger] clips[k]).page_title is Some
            ==> clips[k].page_title->0.len() <= MAX_TITLE_CHARS) && clips[k].domain_key
            == upsert::key_of(clips[k].domain)
}

/// Saving a text keeps titles short and keys in step with domains.
pub proof fn saving_keeps_clips_tidy(
    repository: RepositoryView,
    content: Seq<char>,
    domain: Option<Seq<char>>,
    page_title: Option<Seq<char>>,
    now: i64,
    new_id: Seq<char>,
)
    requires
        is_tidy(repository.clips),
    ensures
        repository.text_saved(content, domain, page_title, now, new_id) matches Ok((next, _))
            ==> is_tidy(next.clips),
{
    let copy = CopyView::of_text(content, domain, page_title, now);
    let id = repository.target_of(copy, new_id);
    sequences::lemma_first_index(repository.clips, |row: ClipRowView| row.id == id);
    if let Ok((next, at)) = repository.text_saved(content, domain, page_title, now, new_id) {
        assert(copy.page_title is Some ==> copy.page_title->0.len() <= MAX_TITLE_CHARS);
        if at < repository.clips.len() {
            assert(next.clips[at] == copy.repeated(repository.clips[at]));
        } else {
            assert(next.clips[at] == copy.first(id));
        }
    }
}

/// Attaching a report keeps titles short and keys in step with domains.
pub proof fn attaching_keeps_clips_tidy(
    repository: RepositoryView,
    event: EventView,
    receipt: ReceiptView,
    event_ms: i64,
    new_id: Seq<char>,
)
    requires
        is_tidy(repository.clips),
    ensures
        repository.attached(event, receipt, event_ms, new_id) matches Ok((next, _)) ==> is_tidy(
            next.clips,
        ),
{
    if let Ok((next, _)) = repository.attached(event, receipt, event_ms, new_id) {
        let t = repository.clip_position(receipt.clip_id);
        let e = repository.slot_position(event.content_hash, event.domain);
        lemma_slot(repository, event.content_hash, event.domain);
        if repository.receipt_is_current(t, event, receipt) && receipt.previous_copy_count == 0
            && e < repository.clips.len() {
            let temporary = repository.clips[t];
            let changed = repository.with_clip(
                e,
                attach::merged(
                    repository.clips[e],
                    temporary,
                    attach::reported_title(event),
                    event_ms,
                ),
            );
            let keep = |row: ClipRowView| row.id != temporary.id;
            assert(next.clips == changed.clips.filter(keep));
            sequences::lemma_filter_members(changed.clips, keep);
            assert(is_tidy(changed.clips));
            assert forall|k: int| 0 <= k < next.clips.len() implies ((
            #[trigger] next.clips[k]).page_title is Some ==> next.clips[k].page_title->0.len()
                <= MAX_TITLE_CHARS) && next.clips[k].domain_key == upsert::key_of(
                next.clips[k].domain,
            ) by {
                assert(next.clips.contains(next.clips[k]));
            }
        }
    }
}

/// What the order of the clips is.
pub(crate) proof fn lemma_clip_order(repository: RepositoryView)
    ensures
        query::is_clip_ranking(repository.clips, repository.clip_order()),
        repository.clip_order().len() == repository.clips.len(),
        forall|at: int| #[trigger]
            repository.clip_order().contains(at) <==> 0 <= at < repository.clips.len(),
{
    let precedes = |i: int, j: int| query::clip_precedes(repository.clips, i, j);
    ranking::lemma_ranking(repository.clips.len(), precedes);
    let order = repository.clip_order();
    assert forall|at: int| #[trigger] order.contains(at) <==> 0 <= at < repository.clips.len() by {
        assert(order.to_set().contains(at) <==> 0 <= at < repository.clips.len());
    }
}

/// A page holds no more clips than asked for, and never more than the limit.
pub proof fn pages_are_bounded(
    repository: RepositoryView,
    query: QueryView,
    indexed: spec_fn(int) -> bool,
)
    ensures
        repository.listed(query, indexed).len() <= query.page_limit(),
        1 <= query.page_limit() <= MAX_LIMIT,
{
}

/// Every listed clip was asked for.
pub proof fn listed_clips_are_asked_for(
    repository: RepositoryView,
    query: QueryView,
    indexed: spec_fn(int) -> bool,
    k: int,
)
    requires
        0 <= k < repository.listed(query, indexed).len(),
    ensures
        0 <= repository.listed(query, indexed)[k] < repository.clips.len(),
        repository.is_asked_for(query, repository.listed(query, indexed)[k], indexed),
{
    lemma_clip_order(repository);
    let wanted = |at: int| repository.is_asked_for(query, at, indexed);
    let found = repository.clip_order().filter(wanted);
    sequences::lemma_filter_members(repository.clip_order(), wanted);
    let at = repository.listed(query, indexed)[k];
    assert(found.contains(at));
}

/// Listed clips are in order, the one copied last first, and none is listed twice.
pub proof fn listed_clips_are_in_order(
    repository: RepositoryView,
    query: QueryView,
    indexed: spec_fn(int) -> bool,
    a: int,
    b: int,
)
    requires
        0 <= a < b < repository.listed(query, indexed).len(),
    ensures
        query::clip_precedes(
            repository.clips,
            repository.listed(query, indexed)[a],
            repository.listed(query, indexed)[b],
        ),
        repository.listed(query, indexed)[a] != repository.listed(query, indexed)[b],
{
    lemma_clip_order(repository);
    let order = repository.clip_order();
    let precedes = |i: int, j: int| query::clip_precedes(repository.clips, i, j);
    let wanted = |at: int| repository.is_asked_for(query, at, indexed);
    sequences::lemma_filter_pairs(order, wanted, precedes);
}

/// Every clip that is asked for is on the page that begins with it.
pub proof fn asked_clips_are_listed(
    repository: RepositoryView,
    query: QueryView,
    indexed: spec_fn(int) -> bool,
    at: int,
) -> (offset: int)
    requires
        repository.clips.len() <= u32::MAX,
        0 <= at < repository.clips.len(),
        repository.is_asked_for(query, at, indexed),
    ensures
        0 <= offset < repository.clips.len(),
        ({
            let page = repository.listed(
                QueryView { offset: Some(offset as u32), ..query },
                indexed,
            );
            page.len() > 0 && page[0] == at
        }),
{
    lemma_clip_order(repository);
    let order = repository.clip_order();
    let wanted = |i: int| repository.is_asked_for(query, i, indexed);
    let found = order.filter(wanted);
    sequences::lemma_filter_members(order, wanted);
    assert(order.contains(at));
    assert(found.contains(at));
    let offset = choose|k: int| 0 <= k < found.len() && found[k] == at;
    let turned = QueryView { offset: Some(offset as u32), ..query };
    let same = |i: int| repository.is_asked_for(turned, i, indexed);
    assert forall|i: int| #[trigger]
        repository.is_asked_for(query, i, indexed) == repository.is_asked_for(
            turned,
            i,
            indexed,
        ) by {
        assert(turned.sought() == query.sought());
        assert(turned.expression() == query.expression());
        assert(turned.wanted_kind() == query.wanted_kind());
        assert forall|row: CategoryRowView|
            #![trigger query.names(row)]
            #![trigger turned.names(row)]
            query.names(row) == turned.names(row) by {}
        assert(repository.is_found(query, i, indexed) == repository.is_found(turned, i, indexed));
        assert(query.admits(repository.clips[i]) == turned.admits(repository.clips[i]));
    }
    assert(wanted =~= same);
    offset
}

} // verus!
