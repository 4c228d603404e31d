//! What saving a copy does to the history.

use crate::blob_store;
use crate::blob_store::{PreparedImage, PreparedView, ThumbnailSize};
use crate::browser_metadata::ClipUpsertReceipt;
use crate::domain;
use crate::domain::{classification, normalize};
use crate::domain::{ClipSummary, ContentType, ImagePayload, NewClip, NewImageClip};
use crate::persistence::laws;
use crate::persistence::rows::{BlobRowView, ClipRowView};
use crate::persistence::upsert;
use crate::persistence::upsert::CopyView;
use crate::persistence::{RepositoryError, RepositoryView};
use crate::sequences;
use crate::text;
use vstd::prelude::*;

verus! {

/// The hash by which a text is found again.
pub open spec fn hash_of_text(content: Seq<char>) -> Seq<char> {
    normalize::hash_of(normalize::normalized_content(content))
}

/// The domain of a copy, as it is compared: in normal form, empty if there is none.
pub open spec fn domain_of_copy(domain: Option<Seq<char>>) -> Seq<char> {
    match domain {
        Some(name) => match normalize::normalized_domain(name) {
            Some(name) => name,
            None => Seq::empty(),
        },
        None => Seq::empty(),
    }
}

/// The title of a copy is kept without white space at its ends, up to 500 characters; none is
/// kept if nothing else is in it.
pub open spec fn is_kept_title(given: Option<Seq<char>>, kept: Option<Seq<char>>) -> bool {
    match given {
        None => kept is None,
        Some(title) => {
            let inner = text::trimmed(title);
            &&& inner.len() == 0 ==> kept is None
            &&& 0 < inner.len() <= 500 ==> kept == Some(inner)
            &&& inner.len() > 500 ==> kept == Some(inner.subrange(0, 500))
        },
    }
}

/// The clip at this position has this hash and this domain.
pub open spec fn is_slot(
    history: RepositoryView,
    at: int,
    hash: Seq<char>,
    domain: Seq<char>,
) -> bool {
    &&& 0 <= at < history.clips.len()
    &&& history.clips[at].content_hash == hash
    &&& history.clips[at].domain_key == domain
}

proof fn lemma_title(given: Option<Seq<char>>)
    ensures
        is_kept_title(given, upsert::kept_title(given)),
{
    if let Some(title) = given {
        let inner = text::trimmed(title);
        if inner.len() > 500 {
            assert(inner.take(500) =~= inner.subrange(0, 500));
        }
    }
}

proof fn lemma_empty_slot(history: RepositoryView, hash: Seq<char>, domain: Seq<char>)
    requires
        forall|k: int| 0 <= k < history.clips.len() ==> !is_slot(history, k, hash, domain),
    ensures
        history.slot_position(hash, domain) == history.clips.len(),
{
    laws::lemma_slot(history, hash, domain);
    let at = history.slot_position(hash, domain);
    if at < history.clips.len() {
        assert(is_slot(history, at, hash, domain));
    }
}

/// A text is saved only if something is left of it in normal form, and that takes no more than a
/// million bytes; each refusal comes for its reason only: one of these, or a clip that cannot be
/// counted further or shown.
pub proof fn texts_are_refused_for_their_size(
    history: RepositoryView,
    content: Seq<char>,
    domain: Option<Seq<char>>,
    title: Option<Seq<char>>,
    now: i64,
    new_id: Seq<char>,
)
    requires
        history.wf(),
        !history.has_clip(new_id),
    ensures
        ({
            let normal = normalize::normalized_content(content);
            match history.text_saved(content, domain, title, now, new_id) {
                Ok(_) => 0 < normal.len() && text::utf8_len(normal) <= 1_000_000,
                Err(RepositoryError::EmptyContent) => normal.len() == 0,
                Err(RepositoryError::ContentTooLarge) => text::utf8_len(normal) > 1_000_000,
                Err(RepositoryError::CounterOverflow) => exists|k: int|
                    is_slot(
                        history,
                        k,
                        hash_of_text(content),
                        domain_of_copy(domain),
                    ) && ((#[trigger] history.clips[k]).copy_count == i64::MAX
                        || history.clips[k].sort_key == i64::MAX),
                Err(RepositoryError::MissingBlob) => exists|k: int|
                    is_slot(
                        history,
                        k,
                        hash_of_text(content),
                        domain_of_copy(domain),
                    ) && (#[trigger] history.clips[k]).payload_kind is Image,
                Err(_) => false,
            }
        }),
{
    let copy = CopyView::of_text(content, domain, title, now);
    let hash = hash_of_text(content);
    let key = domain_of_copy(domain);
    assert(upsert::key_of(copy.domain) == key);
    laws::lemma_slot(history, hash, key);
    let slot = history.slot_position(hash, key);
    if slot < history.clips.len() {
        laws::lemma_clip_found(history, slot);
        assert(is_slot(history, slot, hash, key));
    } else {
        sequences::lemma_first_index(history.clips, |row: ClipRowView| row.id == new_id);
        let at = history.clip_position(new_id);
        if at < history.clips.len() {
            assert(history.clips[at].id == new_id);
        }
    }
}

/// The first copy of a text on a domain is added to the history as a clip with that text, its
/// hash, its type, the domain and the title; it has been copied once, now, and is not pinned. No
/// other clip changes.
pub proof fn first_copies_are_added(
    history: RepositoryView,
    content: Seq<char>,
    domain: Option<Seq<char>>,
    title: Option<Seq<char>>,
    now: i64,
    new_id: Seq<char>,
)
    requires
        history.wf(),
        !history.has_clip(new_id),
        0 < normalize::normalized_content(content).len(),
        text::utf8_len(normalize::normalized_content(content)) <= 1_000_000,
        forall|k: int|
            0 <= k < history.clips.len() ==> !is_slot(
                history,
                k,
                hash_of_text(content),
                domain_of_copy(domain),
            ),
    ensures
        history.text_saved(content, domain, title, now, new_id) matches Ok((next, at)) && {
            let row = next.clips[at];
            &&& at == history.clips.len()
            &&& next.clips.len() == history.clips.len() + 1
            &&& forall|k: int|
                0 <= k < history.clips.len() ==> #[trigger] next.clips[k] == history.clips[k]
            &&& next.categories == history.categories
            &&& next.links == history.links
            &&& next.blobs == history.blobs
            &&& next.blob_root == history.blob_root
            &&& row.id == new_id
            &&& row.content == content
            &&& row.content_hash == hash_of_text(content)
            &&& row.content_type == classification::content_type_of(
                normalize::normalized_content(content),
            )
            &&& row.domain_key == domain_of_copy(domain)
            &&& match domain {
                Some(name) => row.domain == normalize::normalized_domain(name),
                None => row.domain is None,
            }
            &&& is_kept_title(title, row.page_title)
            &&& row.created_at == now
            &&& row.last_copied_at == now
            &&& row.copy_count == 1
            &&& !row.pinned
            &&& row.sort_key == 0
            &&& row.payload_kind is Text
            &&& row.blob_hash is None
        },
{
    let copy = CopyView::of_text(content, domain, title, now);
    assert(upsert::key_of(copy.domain) == domain_of_copy(domain));
    lemma_empty_slot(history, hash_of_text(content), domain_of_copy(domain));
    lemma_title(title);
    sequences::lemma_first_index(history.clips, |row: ClipRowView| row.id == new_id);
    let at = history.clip_position(new_id);
    if at < history.clips.len() {
        assert(history.clips[at].id == new_id);
    }
}

/// A further copy of a text on a domain is counted in the clip that is there: it has the text as it
/// was copied now, one copy and one step of the sort key more, the present time, and the new title
/// if there is one. Nothing else of it changes, and no other clip.
pub proof fn further_copies_are_counted(
    history: RepositoryView,
    content: Seq<char>,
    domain: Option<Seq<char>>,
    title: Option<Seq<char>>,
    now: i64,
    new_id: Seq<char>,
    slot: int,
)
    requires
        history.wf(),
        0 < normalize::normalized_content(content).len(),
        text::utf8_len(normalize::normalized_content(content)) <= 1_000_000,
        is_slot(history, slot, hash_of_text(content), domain_of_copy(domain)),
        history.clips[slot].copy_count < i64::MAX,
        history.clips[slot].sort_key < i64::MAX,
        history.clips[slot].payload_kind is Text,
    ensures
        history.text_saved(content, domain, title, now, new_id) matches Ok((next, at)) && {
            let old_row = history.clips[slot];
            let row = next.clips[at];
            &&& at == slot
            &&& next.clips.len() == history.clips.len()
            &&& forall|k: int|
                0 <= k < history.clips.len() && k != at ==> #[trigger] next.clips[k]
                    == history.clips[k]
            &&& next.categories == history.categories
            &&& next.links == history.links
            &&& next.blobs == history.blobs
            &&& next.blob_root == history.blob_root
            &&& row.content == content
            &&& row.copy_count == old_row.copy_count + 1
            &&& row.sort_key == old_row.sort_key + 1
            &&& row.last_copied_at == now
            &&& title is None || text::trimmed(title->0).len() == 0 ==> row.page_title
                == old_row.page_title
            &&& title is Some && text::trimmed(title->0).len() > 0 ==> is_kept_title(
                title,
                row.page_title,
            )
            &&& row.id == old_row.id
            &&& row.content_hash == old_row.content_hash
            &&& row.content_type == old_row.content_type
            &&& row.domain == old_row.domain
            &&& row.domain_key == old_row.domain_key
            &&& row.created_at == old_row.created_at
            &&& row.pinned == old_row.pinned
            &&& row.payload_kind == old_row.payload_kind
            &&& row.blob_hash == old_row.blob_hash
        },
{
    let copy = CopyView::of_text(content, domain, title, now);
    assert(upsert::key_of(copy.domain) == domain_of_copy(domain));
    laws::lemma_clip_found(history, slot);
    lemma_title(title);
    assert(copy.repeated(history.clips[slot]).payload_kind is Text);
    assert(is_kept_title(title, upsert::kept_title(title)));
}

/// The receipt of a copy without a domain names the clip and says how it was before and how it is
/// now; a copy with a domain gets none.
pub proof fn receipts_tell_before_and_after(
    history: RepositoryView,
    content: Seq<char>,
    domain: Option<Seq<char>>,
    title: Option<Seq<char>>,
    now: i64,
    length: nat,
    receipt_id: u128,
    saved: ClipRowView,
    slot: int,
)
    requires
        history.wf(),
        length <= usize::MAX,
    ensures
        ({
            let copy = CopyView::of_text(content, domain, title, now);
            let receipt = history.receipt_of(copy, length, receipt_id, saved);
            let hash = hash_of_text(content);
            &&& domain_of_copy(domain).len() > 0 ==> receipt is None
            &&& domain_of_copy(domain).len() == 0 ==> receipt is Some && {
                let receipt = receipt->0;
                &&& receipt.receipt_id == receipt_id
                &&& receipt.clip_id == saved.id
                &&& receipt.content_hash == hash
                &&& receipt.normalized_length_bytes == length
                &&& receipt.resulting_last_copied_at == now
                &&& receipt.copy_timestamp == now
                &&& receipt.resulting_copy_count == saved.copy_count
                &&& is_slot(history, slot, hash, Seq::empty()) && history.clips[slot].sort_key
                    < i64::MAX ==> {
                    let row = history.clips[slot];
                    &&& receipt.previous_copy_count == row.copy_count
                    &&& receipt.previous_last_copied_at == Some(row.last_copied_at)
                    &&& receipt.previous_sort_key == Some(row.sort_key)
                    &&& receipt.previous_content == Some(row.content)
                    &&& receipt.resulting_sort_key == row.sort_key + 1
                }
                &&& (forall|k: int|
                    0 <= k < history.clips.len() ==> !is_slot(history, k, hash, Seq::empty())) ==> {
                    &&& receipt.previous_copy_count == 0
                    &&& receipt.previous_last_copied_at is None
                    &&& receipt.previous_sort_key is None
                    &&& receipt.previous_content is None
                    &&& receipt.resulting_sort_key == 0
                }
            }
        }),
{
    let copy = CopyView::of_text(content, domain, title, now);
    let hash = hash_of_text(content);
    assert(upsert::key_of(copy.domain) == domain_of_copy(domain));
    laws::lemma_slot(history, hash, Seq::empty());
    if is_slot(history, slot, hash, Seq::empty()) {
        laws::lemma_clip_found(history, slot);
    }
    if forall|k: int| 0 <= k < history.clips.len() ==> !is_slot(history, k, hash, Seq::empty()) {
        lemma_empty_slot(history, hash, Seq::empty());
    }
}

/// The size of the store is the sum of the sizes of its files.
pub proof fn sizes_add_up(files: Seq<BlobRowView>, file: BlobRowView)
    ensures
        upsert::total_bytes(Seq::empty()) == 0,
        upsert::total_bytes(files.push(file)) == upsert::total_bytes(files) + file.size_bytes,
{
    assert(files.push(file).drop_last() =~= files);
}

/// An image is refused without a store, for what is wrong with it, for the size of its file, or
/// for lack of room for a file that is not there yet; else it is prepared.
pub proof fn images_are_refused_for_their_size(
    history: RepositoryView,
    image: ImagePayload,
    max_image_bytes: u64,
    max_storage_bytes: u64,
    size: ThumbnailSize,
)
    ensures
        ({
            let plan = history.image_plan(image, max_image_bytes, max_storage_bytes, size);
            let room = max_storage_bytes - upsert::total_bytes(history.blobs);
            match blob_store::prepared(image, max_image_bytes, size) {
                _ if history.blob_root is None => plan == Err::<PreparedView, RepositoryError>(
                    RepositoryError::BlobStoreUnavailable,
                ),
                Err(error) => plan == Err::<PreparedView, RepositoryError>(error),
                Ok(prepared) => {
                    &&& history.has_blob(prepared.hash) ==> plan == Ok::<
                        PreparedView,
                        RepositoryError,
                    >(prepared)
                    &&& !history.has_blob(prepared.hash) && upsert::total_bytes(history.blobs)
                        <= i64::MAX ==> {
                        &&& prepared.size_bytes <= room ==> plan == Ok::<
                            PreparedView,
                            RepositoryError,
                        >(prepared)
                        &&& prepared.size_bytes > room ==> plan == Err::<
                            PreparedView,
                            RepositoryError,
                        >(RepositoryError::StorageFull { limit_mb: max_storage_bytes / 1_048_576 })
                    }
                    &&& !history.has_blob(prepared.hash) && upsert::total_bytes(history.blobs)
                        > i64::MAX ==> plan == Err::<PreparedView, RepositoryError>(
                        RepositoryError::SizeOverflow,
                    )
                },
            }
        }),
{
}

/// The file of a saved image is among the files exactly once, as it was prepared, and every other
/// file is left as it is.
pub proof fn saved_images_have_their_file(
    history: RepositoryView,
    image: ImagePayload,
    prepared: PreparedView,
    domain: Option<Seq<char>>,
    title: Option<Seq<char>>,
    now: i64,
    new_id: Seq<char>,
)
    requires
        history.image_saved(image, prepared, domain, title, now, new_id) is Ok,
    ensures
        ({
            let (next, _) = history.image_saved(
                image,
                prepared,
                domain,
                title,
                now,
                new_id,
            )->Ok_0;
            let known = exists|b: int|
                0 <= b < history.blobs.len() && (#[trigger] history.blobs[b]).hash == prepared.hash;
            &&& known ==> next.blobs == history.blobs
            &&& !known ==> {
                let file = next.blobs.last();
                &&& next.blobs.len() == history.blobs.len() + 1
                &&& next.blobs.drop_last() == history.blobs
                &&& file.hash == prepared.hash
                &&& file.relative_path == prepared.relative_path
                &&& file.mime_type == prepared.mime_type
                &&& file.width == prepared.width
                &&& file.height == prepared.height
                &&& file.size_bytes == prepared.size_bytes
                &&& file.thumbnail_data_url == prepared.thumbnail_data_url
                &&& file.created_at == now
            }
            &&& next.categories == history.categories
            &&& next.links == history.links
        }),
{
    let (next, _) = history.image_saved(image, prepared, domain, title, now, new_id)->Ok_0;
    if !history.has_blob(prepared.hash) {
        assert(next.blobs.drop_last() =~= history.blobs);
    }
}

/// The first copy of an image on a domain is added to the history as a clip without text that
/// shows the file; a further one is counted in the clip that is there.
pub proof fn copied_images_are_counted(
    history: RepositoryView,
    image: ImagePayload,
    prepared: PreparedView,
    domain: Option<Seq<char>>,
    title: Option<Seq<char>>,
    now: i64,
    new_id: Seq<char>,
    slot: int,
)
    requires
        history.wf(),
        !history.has_clip(new_id),
        history.image_saved(image, prepared, domain, title, now, new_id) is Ok,
    ensures
        ({
            let hash = domain::image_hash(image.width, image.height, image.rgba@);
            let key = domain_of_copy(domain);
            let (next, at) = history.image_saved(
                image,
                prepared,
                domain,
                title,
                now,
                new_id,
            )->Ok_0;
            let row = next.clips[at];
            &&& row.blob_hash == Some(prepared.hash)
            &&& row.payload_kind is Image
            &&& row.content_hash == hash
            &&& row.domain_key == key
            &&& row.last_copied_at == now
            &&& forall|k: int|
                0 <= k < history.clips.len() && k != at ==> #[trigger] next.clips[k]
                    == history.clips[k]
            &&& is_slot(history, slot, hash, key) ==> {
                let old_row = history.clips[slot];
                &&& at == slot
                &&& next.clips.len() == history.clips.len()
                &&& row.id == old_row.id
                &&& row.content == old_row.content
                &&& row.content_type == old_row.content_type
                &&& row.domain == old_row.domain
                &&& row.copy_count == old_row.copy_count + 1
                &&& row.sort_key == old_row.sort_key + 1
                &&& row.created_at == old_row.created_at
                &&& row.pinned == old_row.pinned
                &&& title is None || text::trimmed(title->0).len() == 0 ==> row.page_title
                    == old_row.page_title
                &&& title is Some && text::trimmed(title->0).len() > 0 ==> is_kept_title(
                    title,
                    row.page_title,
                )
            }
            &&& (forall|k: int| 0 <= k < history.clips.len() ==> !is_slot(history, k, hash, key))
                ==> {
                &&& at == history.clips.len()
                &&& next.clips.len() == history.clips.len() + 1
                &&& row.id == new_id
                &&& row.content.len() == 0
                &&& row.content_type == ContentType::Text
                &&& match domain {
                    Some(name) => row.domain == normalize::normalized_domain(name),
                    None => row.domain is None,
                }
                &&& is_kept_title(title, row.page_title)
                &&& row.copy_count == 1
                &&& row.sort_key == 0
                &&& row.created_at == now
                &&& !row.pinned
            }
        }),
{
    let hash = domain::image_hash(image.width, image.height, image.rgba@);
    let key = domain_of_copy(domain);
    let copy = CopyView::of_image(image, prepared, domain, title, now);
    let stored = history.with_blob_of(prepared, now);
    assert(upsert::key_of(copy.domain) == key);
    lemma_title(title);
    laws::lemma_slot(history, hash, key);
    assert(stored.slot_position(hash, key) == history.slot_position(hash, key));
    let found = history.slot_position(hash, key);
    if found < history.clips.len() {
        laws::lemma_clip_found(history, found);
        assert(stored.clip_position(history.clips[found].id) == found);
        assert(is_slot(history, found, hash, key));
    } else {
        sequences::lemma_first_index(history.clips, |row: ClipRowView| row.id == new_id);
        let at = history.clip_position(new_id);
        if at < history.clips.len() {
            assert(history.clips[at].id == new_id);
        }
    }
    if is_slot(history, slot, hash, key) {
        laws::lemma_clip_found(history, slot);
    }
}

/// An image is refused, once it is prepared, only for a file of its name that is not its own, or
/// for a clip that cannot be counted further.
pub proof fn prepared_images_are_saved(
    history: RepositoryView,
    image: ImagePayload,
    prepared: PreparedView,
    domain: Option<Seq<char>>,
    title: Option<Seq<char>>,
    now: i64,
    new_id: Seq<char>,
)
    requires
        history.wf(),
        forall|k: int|
            0 <= k < history.clips.len() ==> (#[trigger] history.clips[k]).copy_count < i64::MAX
                && history.clips[k].sort_key < i64::MAX,
        forall|b: int|
            0 <= b < history.blobs.len() ==> (#[trigger] history.blobs[b]).relative_path
                != prepared.relative_path || history.blobs[b].hash == prepared.hash,
    ensures
        history.image_saved(image, prepared, domain, title, now, new_id) is Ok,
{
    let copy = CopyView::of_image(image, prepared, domain, title, now);
    let stored = history.with_blob_of(prepared, now);
    if !history.has_blob(prepared.hash) && history.has_path(prepared.relative_path) {
        let b = choose|b: int|
            0 <= b < history.blobs.len() && (#[trigger] history.blobs[b]).relative_path
                == prepared.relative_path;
        assert(history.blobs[b].hash == prepared.hash);
    }
    let id = stored.target_of(copy, new_id);
    sequences::lemma_first_index(history.clips, |row: ClipRowView| row.id == id);
    let hash = prepared.hash;
    let same = |row: BlobRowView| row.hash == hash;
    sequences::lemma_first_index(stored.blobs, same);
    assert(stored.blob_position(hash) < stored.blobs.len()) by {
        if history.has_blob(hash) {
            let b = choose|b: int|
                0 <= b < history.blobs.len() && (#[trigger] history.blobs[b]).hash == hash;
            assert(same(stored.blobs[b]));
        } else {
            assert(same(stored.blobs[history.blobs.len() as int]));
        }
    }
}

/// What saving a text returns is what is then in the history: the clip as it is shown, and the
/// receipt; and where it fails, nothing has changed.
pub proof fn saved_texts_are_returned(
    before: RepositoryView,
    after: RepositoryView,
    input: NewClip<'_>,
    new_id: Seq<char>,
    receipt_id: u128,
    result: Result<(ClipSummary, Option<ClipUpsertReceipt>), RepositoryError>,
)
    requires
        upsert::clip_upserted(before, after, input, new_id, receipt_id, result),
    ensures
        ({
            let domain = text::slice_of(input.domain);
            let title = text::slice_of(input.page_title);
            match result {
                Ok((summary, receipt)) => exists|at: int|
                    {
                        &&& 0 <= at < after.clips.len()
                        &&& before.text_saved(input.content@, domain, title, input.now, new_id)
                            == Ok::<(RepositoryView, int), RepositoryError>((after, at))
                        &&& summary@ == after.summary_of(#[trigger] after.clips[at])
                        &&& receipt is Some ==> domain_of_copy(domain).len() == 0
                            && receipt->0.clip_id@ == after.clips[at].id && receipt->0.receipt_id
                            == receipt_id
                        &&& receipt is None ==> domain_of_copy(domain).len() > 0
                    },
                Err(error) => after == before && before.text_saved(
                    input.content@,
                    domain,
                    title,
                    input.now,
                    new_id,
                ) == Err::<(RepositoryView, int), RepositoryError>(error),
            }
        }),
{
    let domain = text::slice_of(input.domain);
    let title = text::slice_of(input.page_title);
    let copy = CopyView::of_text(input.content@, domain, title, input.now);
    assert(upsert::key_of(copy.domain) == domain_of_copy(domain));
    if let Ok((summary, receipt)) = result {
        let (next, at) = before.text_saved(input.content@, domain, title, input.now, new_id)->Ok_0;
        assert(next.clips[at] == after.clips[at]);
        if receipt is Some {
            assert(upsert::receipt_view(receipt) == Some(receipt->0@));
        }
    }
}

/// An image is saved only once its file is written; where it is not, or anything else fails,
/// nothing has changed.
pub proof fn images_are_saved_once_written<F: FnOnce(&PreparedImage) -> bool>(
    before: RepositoryView,
    after: RepositoryView,
    input: NewImageClip<'_>,
    size: ThumbnailSize,
    persist: F,
    new_id: Seq<char>,
    receipt_id: u128,
    result: Result<(ClipSummary, Option<ClipUpsertReceipt>), RepositoryError>,
)
    requires
        upsert::image_upserted(before, after, input, size, persist, new_id, receipt_id, result),
    ensures
        result is Err ==> after == before,
        result matches Ok((summary, _)) ==> {
            let plan = before.image_plan(
                *input.image,
                input.max_image_bytes,
                input.max_storage_bytes,
                size,
            );
            &&& plan is Ok
            &&& exists|prepared: &PreparedImage|
                #[trigger] call_ensures(persist, (prepared,), true) && prepared@ == plan->Ok_0
            &&& exists|at: int|
                0 <= at < after.clips.len() && before.image_saved(
                    *input.image,
                    plan->Ok_0,
                    text::slice_of(input.domain),
                    text::slice_of(input.page_title),
                    input.now,
                    new_id,
                ) == Ok::<(RepositoryView, int), RepositoryError>((after, at)) && summary@
                    == after.summary_of(#[trigger] after.clips[at])
        },
{
    if let Ok((summary, _)) = result {
        let plan = before.image_plan(
            *input.image,
            input.max_image_bytes,
            input.max_storage_bytes,
            size,
        )->Ok_0;
        let (next, at) = before.image_saved(
            *input.image,
            plan,
            text::slice_of(input.domain),
            text::slice_of(input.page_title),
            input.now,
            new_id,
        )->Ok_0;
        assert(next.clips[at] == after.clips[at]);
    }
}

/// The receipt of a copied image is like that of a text, under the hash of the image.
pub proof fn receipts_of_images_tell_before_and_after(
    history: RepositoryView,
    image: ImagePayload,
    prepared: PreparedView,
    domain: Option<Seq<char>>,
    title: Option<Seq<char>>,
    now: i64,
    receipt_id: u128,
    saved: ClipRowView,
    slot: int,
)
    requires
        history.wf(),
        image.rgba@.len() <= usize::MAX,
    ensures
        ({
            let copy = CopyView::of_image(image, prepared, domain, title, now);
            let receipt = history.receipt_of(copy, image.rgba@.len(), receipt_id, saved);
            let hash = domain::image_hash(image.width, image.height, image.rgba@);
            &&& domain_of_copy(domain).len() > 0 ==> receipt is None
            &&& domain_of_copy(domain).len() == 0 ==> receipt is Some && {
                let receipt = receipt->0;
                &&& receipt.receipt_id == receipt_id
                &&& receipt.clip_id == saved.id
                &&& receipt.content_hash == hash
                &&& receipt.normalized_length_bytes == image.rgba@.len()
                &&& receipt.resulting_last_copied_at == now
                &&& receipt.copy_timestamp == now
                &&& receipt.resulting_copy_count == saved.copy_count
                &&& is_slot(history, slot, hash, Seq::empty()) ==> {
                    let row = history.clips[slot];
                    &&& receipt.previous_copy_count == row.copy_count
                    &&& receipt.previous_last_copied_at == Some(row.last_copied_at)
                    &&& receipt.previous_sort_key == Some(row.sort_key)
                    &&& receipt.previous_content == Some(row.content)
                }
            }
        }),
{
    let copy = CopyView::of_image(image, prepared, domain, title, now);
    let hash = domain::image_hash(image.width, image.height, image.rgba@);
    assert(upsert::key_of(copy.domain) == domain_of_copy(domain));
    if is_slot(history, slot, hash, Seq::empty()) {
        laws::lemma_clip_found(history, slot);
    }
}

/// A file that another image has keeps an image from being stored.
pub proof fn taken_paths_are_refused(
    history: RepositoryView,
    image: ImagePayload,
    prepared: PreparedView,
    domain: Option<Seq<char>>,
    title: Option<Seq<char>>,
    now: i64,
    new_id: Seq<char>,
    b: int,
)
    requires
        !history.has_blob(prepared.hash),
        0 <= b < history.blobs.len(),
        history.blobs[b].relative_path == prepared.relative_path,
    ensures
        history.image_saved(image, prepared, domain, title, now, new_id) == Err::<
            (RepositoryView, int),
            RepositoryError,
        >(RepositoryError::ConstraintViolation),
{
}

/// An empty history holds nothing.
pub proof fn new_histories_are_empty()
    ensures
        RepositoryView::empty().clips.len() == 0,
        RepositoryView::empty().categories.len() == 0,
        RepositoryView::empty().links.len() == 0,
        RepositoryView::empty().blobs.len() == 0,
        RepositoryView::empty().blob_root is None,
{
}

} // verus!
