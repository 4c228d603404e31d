//! Saving a copy: a clip that is there already is brought up to date, else a new one is added.

use crate::blob_store;
use crate::blob_store::{PreparedImage, PreparedView, ThumbnailSize};
use crate::browser_metadata::{ClipUpsertReceipt, ReceiptView, MAX_TITLE_CHARS};
use crate::domain;
use crate::domain::{classification, normalize};
use crate::domain::{classify, content_hash, normalize_content, normalize_domain, ClipSummary,
    ContentType, ImagePayload, NewClip, NewImageClip, PayloadKind};
use crate::identity;
use crate::identity::{random_uuid, uuid_to_text};
use crate::persistence::rows;
use crate::persistence::rows::{BlobRow, BlobRowView, ClipRow, ClipRowView};
use crate::persistence::{Repository, RepositoryError, RepositoryView};
use crate::text;
use crate::text::{byte_len, char_len, same_text, take_chars, trim};
use vstd::prelude::*;

verus! {

/// The largest normalized text that is saved, in bytes.
pub const MAX_TEXT_BYTES: usize = 1_000_000;

/// What is saved of one copy.
struct NewCopy {
    content_hash: String,
    content: Option<String>,
    content_type: ContentType,
    domain: Option<String>,
    page_title: Option<String>,
    now: i64,
    blob_hash: Option<String>,
}

/// What is saved of one copy: its text or the hash of its image file.
#[verifier::ext_equal]
pub struct CopyView {
    pub content_hash: Seq<char>,
    pub content: Option<Seq<char>>,
    pub content_type: ContentType,
    pub domain: Option<Seq<char>>,
    pub page_title: Option<Seq<char>>,
    pub now: i64,
    pub blob_hash: Option<Seq<char>>,
}

impl View for NewCopy {
    type V = CopyView;

    closed spec fn view(&self) -> CopyView {
        CopyView {
            content_hash: self.content_hash@,
            content: text::text_of(self.content),
            content_type: self.content_type,
            domain: text::text_of(self.domain),
            page_title: text::text_of(self.page_title),
            now: self.now,
            blob_hash: text::text_of(self.blob_hash),
        }
    }
}

/// A page title as it is kept: trimmed, not empty, cut to its first characters.
pub open spec fn kept_title(title: Option<Seq<char>>) -> Option<Seq<char>> {
    match title {
        Some(title) => if text::trimmed(title).len() == 0 {
            None
        } else {
            Some(text::prefix(text::trimmed(title), MAX_TITLE_CHARS as int))
        },
        None => None,
    }
}

/// A domain as it is kept: in normal form, or not at all.
pub open spec fn kept_domain(domain: Option<Seq<char>>) -> Option<Seq<char>> {
    match domain {
        Some(domain) => normalize::normalized_domain(domain),
        None => None,
    }
}

/// The key of a domain; an absent one has the empty key.
pub open spec fn key_of(domain: Option<Seq<char>>) -> Seq<char> {
    match domain {
        Some(domain) => domain,
        None => Seq::empty(),
    }
}

/// The first that is there.
pub open spec fn or_else<A>(first: Option<A>, second: Option<A>) -> Option<A> {
    if first is Some {
        first
    } else {
        second
    }
}

impl CopyView {
    /// The clip after one more copy.
    pub open spec fn repeated(self, row: ClipRowView) -> ClipRowView {
        ClipRowView {
            content: match self.content {
                Some(content) => content,
                None => row.content,
            },
            last_copied_at: self.now,
            copy_count: (row.copy_count + 1) as i64,
            page_title: or_else(self.page_title, row.page_title),
            sort_key: (row.sort_key + 1) as i64,
            payload_kind: if self.blob_hash is Some {
                PayloadKind::Image
            } else {
                row.payload_kind
            },
            blob_hash: or_else(self.blob_hash, row.blob_hash),
            ..row
        }
    }

    /// The clip of a first copy.
    pub open spec fn first(self, id: Seq<char>) -> ClipRowView {
        ClipRowView {
            id,
            content: match self.content {
                Some(content) => content,
                None => Seq::empty(),
            },
            content_hash: self.content_hash,
            content_type: self.content_type,
            domain: self.domain,
            domain_key: key_of(self.domain),
            page_title: self.page_title,
            created_at: self.now,
            last_copied_at: self.now,
            copy_count: 1,
            pinned: false,
            sort_key: 0,
            payload_kind: if self.blob_hash is Some {
                PayloadKind::Image
            } else {
                PayloadKind::Text
            },
            blob_hash: self.blob_hash,
        }
    }

    /// A copied text.
    pub open spec fn of_text(
        content: Seq<char>,
        domain: Option<Seq<char>>,
        page_title: Option<Seq<char>>,
        now: i64,
    ) -> CopyView {
        let normal = normalize::normalized_content(content);
        CopyView {
            content_hash: normalize::hash_of(normal),
            content: Some(content),
            content_type: classification::content_type_of(normal),
            domain: kept_domain(domain),
            page_title: kept_title(page_title),
            now,
            blob_hash: None,
        }
    }

    /// A copied image with its prepared file.
    pub open spec fn of_image(
        image: ImagePayload,
        prepared: PreparedView,
        domain: Option<Seq<char>>,
        page_title: Option<Seq<char>>,
        now: i64,
    ) -> CopyView {
        CopyView {
            content_hash: domain::image_hash(image.width, image.height, image.rgba@),
            content: None,
            content_type: ContentType::Text,
            domain: kept_domain(domain),
            page_title: kept_title(page_title),
            now,
            blob_hash: Some(prepared.hash),
        }
    }
}

impl RepositoryView {
    /// The clip that a copy is saved in: the one with its hash and domain, else a new one.
    pub open spec fn target_of(self, copy: CopyView, new_id: Seq<char>) -> Seq<char> {
        let slot = self.slot_position(copy.content_hash, key_of(copy.domain));
        if slot < self.clips.len() {
            self.clips[slot].id
        } else {
            new_id
        }
    }

    /// The history after a copy, and the position of its clip; or why it cannot be saved.
    pub open spec fn saved(self, copy: CopyView, new_id: Seq<char>) -> Result<
        (RepositoryView, int),
        RepositoryError,
    > {
        let id = self.target_of(copy, new_id);
        let at = self.clip_position(id);
        if at >= self.clips.len() {
            Ok((self.with_new_clip(copy.first(id)), self.clips.len() as int))
        } else if self.clips[at].copy_count == i64::MAX || self.clips[at].sort_key == i64::MAX {
            Err(RepositoryError::CounterOverflow)
        } else if !self.is_showable(copy.repeated(self.clips[at])) {
            Err(RepositoryError::MissingBlob)
        } else {
            Ok((self.with_clip(at, copy.repeated(self.clips[at])), at))
        }
    }

    /// The receipt for a copy that was saved without a domain.
    pub open spec fn receipt_of(
        self,
        copy: CopyView,
        length: nat,
        receipt_id: u128,
        saved: ClipRowView,
    ) -> Option<ReceiptView> {
        let slot = self.slot_position(copy.content_hash, Seq::empty());
        let known = slot < self.clips.len();
        let row = self.clips[slot];
        if key_of(copy.domain).len() > 0 {
            None
        } else {
            Some(
                ReceiptView {
                    receipt_id,
                    clip_id: saved.id,
                    content_hash: copy.content_hash,
                    normalized_length_bytes: length as usize,
                    previous_last_copied_at: if known {
                        Some(row.last_copied_at)
                    } else {
                        None
                    },
                    previous_sort_key: if known {
                        Some(row.sort_key)
                    } else {
                        None
                    },
                    previous_copy_count: if known {
                        row.copy_count
                    } else {
                        0
                    },
                    previous_content: if known {
                        Some(row.content)
                    } else {
                        None
                    },
                    resulting_last_copied_at: copy.now,
                    resulting_sort_key: if known {
                        (row.sort_key + 1) as i64
                    } else {
                        0
                    },
                    resulting_copy_count: saved.copy_count,
                    copy_timestamp: copy.now,
                },
            )
        }
    }

    /// Why a text is not saved at all, if so.
    pub open spec fn text_problem(content: Seq<char>) -> Option<RepositoryError> {
        let normal = normalize::normalized_content(content);
        if normal.len() == 0 {
            Some(RepositoryError::EmptyContent)
        } else if text::utf8_len(normal) > MAX_TEXT_BYTES {
            Some(RepositoryError::ContentTooLarge)
        } else {
            None
        }
    }

    /// The history after a copied text, and the position of its clip; or why it cannot be saved.
    pub open spec fn text_saved(
        self,
        content: Seq<char>,
        domain: Option<Seq<char>>,
        page_title: Option<Seq<char>>,
        now: i64,
        new_id: Seq<char>,
    ) -> Result<(RepositoryView, int), RepositoryError> {
        match Self::text_problem(content) {
            Some(problem) => Err(problem),
            None => self.saved(CopyView::of_text(content, domain, page_title, now), new_id),
        }
    }
}

/// The bytes that all image files take.
pub open spec fn total_bytes(blobs: Seq<BlobRowView>) -> int
    decreases blobs.len(),
{
    if blobs.len() == 0 {
        0
    } else {
        total_bytes(blobs.drop_last()) + blobs.last().size_bytes
    }
}

impl RepositoryView {
    /// The prepared image, if it may be stored; else why not.
    pub open spec fn image_plan(
        self,
        image: ImagePayload,
        max_image_bytes: u64,
        max_storage_bytes: u64,
        size: ThumbnailSize,
    ) -> Result<PreparedView, RepositoryError> {
        if self.blob_root is None {
            Err(RepositoryError::BlobStoreUnavailable)
        } else {
            match blob_store::prepared(image, max_image_bytes, size) {
                Err(error) => Err(error),
                Ok(prepared) => if self.has_blob(prepared.hash) {
                    Ok(prepared)
                } else if total_bytes(self.blobs) > i64::MAX {
                    Err(RepositoryError::SizeOverflow)
                } else if total_bytes(self.blobs) + prepared.size_bytes > max_storage_bytes {
                    Err(RepositoryError::StorageFull { limit_mb: max_storage_bytes / 1_048_576 })
                } else {
                    Ok(prepared)
                },
            }
        }
    }

    pub open spec fn has_path(self, relative_path: Seq<char>) -> bool {
        exists|i: int|
            0 <= i < self.blobs.len() && (#[trigger] self.blobs[i]).relative_path == relative_path
    }

    /// With the file of a prepared image among the files.
    pub open spec fn with_blob_of(self, prepared: PreparedView, now: i64) -> RepositoryView {
        if self.has_blob(prepared.hash) {
            self
        } else {
            RepositoryView {
                blobs: self.blobs.push(
                    BlobRowView {
                        hash: prepared.hash,
                        relative_path: prepared.relative_path,
                        mime_type: prepared.mime_type,
                        width: prepared.width,
                        height: prepared.height,
                        size_bytes: prepared.size_bytes,
                        thumbnail_data_url: prepared.thumbnail_data_url,
                        created_at: now,
                    },
                ),
                ..self
            }
        }
    }

    /// The history after a copied image, and the position of its clip; or why it cannot be saved.
    pub open spec fn image_saved(
        self,
        image: ImagePayload,
        prepared: PreparedView,
        domain: Option<Seq<char>>,
        page_title: Option<Seq<char>>,
        now: i64,
        new_id: Seq<char>,
    ) -> Result<(RepositoryView, int), RepositoryError> {
        if !self.has_blob(prepared.hash) && self.has_path(prepared.relative_path) {
            Err(RepositoryError::ConstraintViolation)
        } else {
            self.with_blob_of(prepared, now).saved(
                CopyView::of_image(image, prepared, domain, page_title, now),
                new_id,
            )
        }
    }
}

/// A page title as it is kept.
fn title_to_keep(title: Option<&str>) -> (kept: Option<String>)
    ensures
        text::text_of(kept) == kept_title(text::slice_of(title)),
{
    match title {
        Some(title) => {
            let inner = trim(title);
            if char_len(inner.as_str()) == 0 {
                None
            } else {
                Some(take_chars(inner.as_str(), MAX_TITLE_CHARS))
            }
        },
        None => None,
    }
}

fn domain_to_keep(domain: Option<&str>) -> (kept: Option<String>)
    ensures
        text::text_of(kept) == kept_domain(text::slice_of(domain)),
{
    match domain {
        Some(domain) => normalize_domain(domain),
        None => None,
    }
}

fn key_for(domain: &Option<String>) -> (key: String)
    ensures
        key@ == key_of(text::text_of(*domain)),
{
    match domain {
        Some(domain) => domain.clone(),
        None => String::new(),
    }
}

impl Repository {
    /// Saves a copy and tells the position of its clip.
    fn save_copy(&mut self, copy: NewCopy, new_id: &str) -> (result: Result<usize, RepositoryError>)
        requires
            old(self)@.wf(),
            copy@.blob_hash is Some ==> old(self)@.has_blob(copy@.blob_hash->0),
        ensures
            match old(self)@.saved(copy@, new_id@) {
                Ok((next, at)) => result matches Ok(found) && found == at && final(self)@ == next
                    && at < next.clips.len() && next.is_showable(next.clips[at]),
                Err(error) => result == Err::<usize, RepositoryError>(error) && final(self)@ == old(
                    self,
                )@,
            },
            final(self)@.wf(),
    {
        let key = key_for(&copy.domain);
        let slot = self.find_slot(copy.content_hash.as_str(), key.as_str());
        let id = if slot < self.clips.len() {
            self.clips[slot].id.clone()
        } else {
            new_id.to_owned()
        };
        proof {
            assert(self@.clips.len() == self.clips@.len());
            if slot < self.clips@.len() {
                assert(self@.clips[slot as int] == self.clips@[slot as int]@);
            }
            assert(id@ == self@.target_of(copy@, new_id@));
        }
        let at = self.find_clip(id.as_str());
        if at >= self.clips.len() {
            let row = ClipRow {
                id,
                content: match copy.content {
                    Some(content) => content,
                    None => String::new(),
                },
                content_hash: copy.content_hash,
                content_type: copy.content_type,
                domain: copy.domain,
                domain_key: key,
                page_title: copy.page_title,
                created_at: copy.now,
                last_copied_at: copy.now,
                copy_count: 1,
                pinned: false,
                sort_key: 0,
                payload_kind: if copy.blob_hash.is_some() {
                    PayloadKind::Image
                } else {
                    PayloadKind::Text
                },
                blob_hash: copy.blob_hash,
            };
            let ghost before = self@;
            self.clips.push(row);
            proof {
                assert(row@ =~= copy@.first(row.id@));
                assert(slot == before.clips.len());
                assert forall|k: int| 0 <= k < before.clips.len() implies !super::same_slot(
                    #[trigger] before.clips[k],
                    row@,
                ) by {}
                super::lemma_with_new_clip_wf(before, row@);
                assert(self@ =~= before.with_new_clip(row@));
                lemma_blob_position(self@, copy@.blob_hash);
            }
            return Ok(at);
        }
        proof {
            assert(self@.clips[at as int] == self.clips@[at as int]@);
        }
        if self.clips[at].copy_count == i64::MAX || self.clips[at].sort_key == i64::MAX {
            return Err(RepositoryError::CounterOverflow);
        }
        proof {
            lemma_blob_position(self@, copy@.blob_hash);
            lemma_blob_position(self@, self@.clips[at as int].blob_hash);
        }
        if copy.blob_hash.is_none() && self.clips[at].blob_hash.is_none() && matches!(
            self.clips[at].payload_kind,
            PayloadKind::Image
        ) {
            return Err(RepositoryError::MissingBlob);
        }
        let ghost before = self@;
        let ghost updated = copy@.repeated(self@.clips[at as int]);
        proof {
            assert forall|k: int|
                0 <= k < before.clips.len() && k != at implies !super::same_slot(
                #[trigger] before.clips[k],
                updated,
            ) by {
                if k < at {
                    assert(!super::same_slot(before.clips[k], before.clips[at as int]));
                } else {
                    assert(!super::same_slot(before.clips[at as int], before.clips[k]));
                }
            }
            assert(before.clips[at as int].copy_count >= 1);
            super::lemma_with_clip_wf(before, at as int, updated);
        }
        let row = &mut self.clips[at];
        if let Some(content) = copy.content {
            row.content = content;
        }
        row.last_copied_at = copy.now;
        row.copy_count = row.copy_count + 1;
        if copy.page_title.is_some() {
            row.page_title = copy.page_title;
        }
        row.sort_key = row.sort_key + 1;
        if copy.blob_hash.is_some() {
            row.payload_kind = PayloadKind::Image;
            row.blob_hash = copy.blob_hash;
        }
        proof {
            assert(self.clips@[at as int]@ =~= updated);
            assert(self@ =~= before.with_clip(at as int, updated));
            assert(self@.blobs == before.blobs);
        }
        Ok(at)
    }

    /// What was at the slot of a copy without a domain.
    fn receipt_for(
        &self,
        hash: &str,
        domain: &Option<String>,
    ) -> (prior: Option<ClipUpsertReceipt>)
        requires
            self@.wf(),
        ensures
            match prior {
                Some(receipt) => {
                    let slot = self@.slot_position(hash@, Seq::empty());
                    let known = slot < self@.clips.len();
                    let row = self@.clips[slot];
                    &&& key_of(text::text_of(*domain)).len() == 0
                    &&& receipt@.content_hash == hash@
                    &&& receipt@.previous_last_copied_at == (if known {
                        Some(row.last_copied_at)
                    } else {
                        None
                    })
                    &&& receipt@.previous_sort_key == (if known {
                        Some(row.sort_key)
                    } else {
                        None
                    })
                    &&& receipt@.previous_copy_count == (if known {
                        row.copy_count
                    } else {
                        0
                    })
                    &&& receipt@.previous_content == (if known {
                        Some(row.content)
                    } else {
                        None
                    })
                },
                None => key_of(text::text_of(*domain)).len() > 0,
            },
    {
        let key = key_for(domain);
        if char_len(key.as_str()) > 0 {
            return None;
        }
        let empty = String::new();
        let slot = self.find_slot(hash, empty.as_str());
        let mut receipt = ClipUpsertReceipt {
            receipt_id: 0,
            clip_id: String::new(),
            content_hash: hash.to_owned(),
            normalized_length_bytes: 0,
            previous_last_copied_at: None,
            previous_sort_key: None,
            previous_copy_count: 0,
            previous_content: None,
            resulting_last_copied_at: 0,
            resulting_sort_key: 0,
            resulting_copy_count: 0,
            copy_timestamp: 0,
        };
        if slot < self.clips.len() {
            let row = &self.clips[slot];
            proof {
                assert(self@.clips[slot as int] == row@);
            }
            receipt.previous_last_copied_at = Some(row.last_copied_at);
            receipt.previous_sort_key = Some(row.sort_key);
            receipt.previous_copy_count = row.copy_count;
            receipt.previous_content = Some(row.content.clone());
        }
        proof {
            assert(empty@ =~= Seq::empty());
        }
        Some(receipt)
    }

    /// Saves a copy, and tells what is shown of its clip and the receipt.
    fn save_with_receipt(
        &mut self,
        copy: NewCopy,
        length: usize,
        new_id: &str,
        receipt_id: u128,
    ) -> (result: Result<(ClipSummary, Option<ClipUpsertReceipt>), RepositoryError>)
        requires
            old(self)@.wf(),
            copy@.blob_hash is Some ==> old(self)@.has_blob(copy@.blob_hash->0),
        ensures
            match old(self)@.saved(copy@, new_id@) {
                Ok((next, at)) => final(self)@ == next && 0 <= at < next.clips.len() && (
                result matches Ok((summary, receipt)) && summary@ == next.summary_of(next.clips[at])
                    && receipt_view(receipt) == old(self)@.receipt_of(
                    copy@,
                    length as nat,
                    receipt_id,
                    next.clips[at],
                )),
                Err(error) => result == Err::<
                    (ClipSummary, Option<ClipUpsertReceipt>),
                    RepositoryError,
                >(error) && final(self)@ == old(self)@,
            },
            final(self)@.wf(),
    {
        let prior = self.receipt_for(copy.content_hash.as_str(), &copy.domain);
        let now = copy.now;
        let ghost wanted = copy@;
        proof {
            crate::sequences::lemma_first_index(
                self@.clips,
                |row: ClipRowView|
                    row.content_hash == wanted.content_hash && row.domain_key == Seq::<
                        char,
                    >::empty(),
            );
            crate::sequences::lemma_first_index(
                self@.clips,
                |row: ClipRowView| row.id == self@.target_of(wanted, new_id@),
            );
            if key_of(wanted.domain).len() == 0 {
                assert(key_of(wanted.domain) =~= Seq::empty());
            }
        }
        let at = match self.save_copy(copy, new_id) {
            Ok(at) => at,
            Err(error) => return Err(error),
        };
        let summary = match self.load_clip_summary(at) {
            Ok(summary) => summary,
            Err(error) => return Err(error),
        };
        let receipt = match prior {
            Some(prior) => {
                let mut receipt = prior;
                receipt.receipt_id = receipt_id;
                receipt.clip_id = summary.id.clone();
                receipt.normalized_length_bytes = length;
                receipt.resulting_last_copied_at = now;
                receipt.resulting_sort_key = match receipt.previous_sort_key {
                    Some(sort_key) => {
                        proof {
                            lemma_slot_is_target(old(self)@, wanted, new_id@);
                        }
                        sort_key + 1
                    },
                    None => 0,
                };
                receipt.resulting_copy_count = summary.copy_count;
                receipt.copy_timestamp = now;
                Some(receipt)
            },
            None => None,
        };
        Ok((summary, receipt))
    }

    /// [`Self::upsert_clip`] with the identifiers to use.
    pub fn upsert_clip_as(&mut self, input: NewClip<'_>, new_id: &str, receipt_id: u128) -> (result:
        Result<(ClipSummary, Option<ClipUpsertReceipt>), RepositoryError>)
        requires
            old(self)@.wf(),
        ensures
            clip_upserted(old(self)@, final(self)@, input, new_id@, receipt_id, result),
            final(self)@.wf(),
    {
        let normalized = normalize_content(input.content);
        if char_len(normalized.as_str()) == 0 {
            return Err(RepositoryError::EmptyContent);
        }
        let length = byte_len(normalized.as_str());
        if length > MAX_TEXT_BYTES {
            return Err(RepositoryError::ContentTooLarge);
        }
        let copy = NewCopy {
            content_hash: content_hash(normalized.as_str()),
            content: Some(input.content.to_owned()),
            content_type: classify(normalized.as_str()),
            domain: domain_to_keep(input.domain),
            page_title: title_to_keep(input.page_title),
            now: input.now,
            blob_hash: None,
        };
        proof {
            assert(copy@ =~= CopyView::of_text(
                input.content@,
                text::slice_of(input.domain),
                text::slice_of(input.page_title),
                input.now,
            ));
        }
        self.save_with_receipt(copy, length, new_id, receipt_id)
    }

    /// Saves a copied text.
    pub fn upsert_clip(&mut self, input: NewClip<'_>) -> (result: Result<
        (ClipSummary, Option<ClipUpsertReceipt>),
        RepositoryError,
    >)
        requires
            old(self)@.wf(),
        ensures
            exists|id: u128, receipt_id: u128|
                id != 0 && receipt_id != 0 && #[trigger] clip_upserted(
                    old(self)@,
                    final(self)@,
                    input,
                    identity::uuid_text(id),
                    receipt_id,
                    result,
                ),
            final(self)@.wf(),
    {
        let id = random_uuid();
        let new_id = uuid_to_text(id);
        let receipt_id = random_uuid();
        self.upsert_clip_as(input, new_id.as_str(), receipt_id)
    }

    /// The bytes that all image files take, if a database can tell the number.
    pub(crate) fn blob_bytes(&self) -> (total: Option<u64>)
        ensures
            match total {
                Some(total) => total == total_bytes(self@.blobs) && total <= i64::MAX,
                None => total_bytes(self@.blobs) > i64::MAX,
            },
    {
        let mut total: u64 = 0;
        let mut i: usize = 0;
        while i < self.blobs.len()
            invariant
                i <= self.blobs@.len(),
                total == total_bytes(self@.blobs.take(i as int)),
                total <= i64::MAX,
            decreases self.blobs@.len() - i,
        {
            let size: u64 = self.blobs[i].size_bytes;
            proof {
                assert(self@.blobs[i as int] == self.blobs@[i as int]@);
                assert(self@.blobs.take(i + 1).drop_last() =~= self@.blobs.take(i as int));
                lemma_total_grows(self@.blobs, i + 1);
            }
            if size > i64::MAX as u64 - total {
                return None;
            }
            total = total + size;
            i += 1;
        }
        proof {
            assert(self@.blobs.take(i as int) =~= self@.blobs);
        }
        Some(total)
    }

    /// Prepares an image, if there is room for it.
    pub fn plan_image(&self, input: &NewImageClip<'_>, size: ThumbnailSize) -> (result: Result<
        PreparedImage,
        RepositoryError,
    >)
        requires
            size.fits(),
        ensures
            match self@.image_plan(
                *input.image,
                input.max_image_bytes,
                input.max_storage_bytes,
                size,
            ) {
                Ok(plan) => result matches Ok(prepared) && prepared@ == plan,
                Err(error) => result == Err::<PreparedImage, RepositoryError>(error),
            },
    {
        let store = match &self.blob_store {
            Some(store) => store,
            None => return Err(RepositoryError::BlobStoreUnavailable),
        };
        let prepared = match store.prepare(input.image, input.max_image_bytes, size) {
            Ok(prepared) => prepared,
            Err(error) => return Err(error),
        };
        if self.find_blob(prepared.hash.as_str()) < self.blobs.len() {
            return Ok(prepared);
        }
        let current = match self.blob_bytes() {
            Some(current) => current,
            None => return Err(RepositoryError::SizeOverflow),
        };
        if prepared.size_bytes > input.max_storage_bytes || current > input.max_storage_bytes
            - prepared.size_bytes {
            return Err(
                RepositoryError::StorageFull { limit_mb: input.max_storage_bytes / 1_048_576 },
            );
        }
        Ok(prepared)
    }

    fn path_is_taken(&self, relative_path: &str) -> (answer: bool)
        ensures
            answer == self@.has_path(relative_path@),
    {
        let mut i: usize = 0;
        while i < self.blobs.len()
            invariant
                i <= self.blobs@.len(),
                forall|k: int|
                    0 <= k < i ==> (#[trigger] self@.blobs[k]).relative_path != relative_path@,
            decreases self.blobs@.len() - i,
        {
            proof {
                assert(self@.blobs[i as int] == self.blobs@[i as int]@);
            }
            if same_text(self.blobs[i].relative_path.as_str(), relative_path) {
                return true;
            }
            i += 1;
        }
        false
    }

    /// Saves a copied image whose file has been written.
    pub fn commit_image_as(
        &mut self,
        input: &NewImageClip<'_>,
        prepared: &PreparedImage,
        new_id: &str,
        receipt_id: u128,
    ) -> (result: Result<(ClipSummary, Option<ClipUpsertReceipt>), RepositoryError>)
        requires
            old(self)@.wf(),
        ensures
            image_committed(
                old(self)@,
                final(self)@,
                *input,
                prepared@,
                new_id@,
                receipt_id,
                result,
            ),
            final(self)@.wf(),
    {
        let known = self.find_blob(prepared.hash.as_str()) < self.blobs.len();
        if !known && self.path_is_taken(prepared.relative_path.as_str()) {
            return Err(RepositoryError::ConstraintViolation);
        }
        let (hash, length) = input.image.match_key();
        let copy = NewCopy {
            content_hash: hash,
            content: None,
            content_type: ContentType::Text,
            domain: domain_to_keep(input.domain),
            page_title: title_to_keep(input.page_title),
            now: input.now,
            blob_hash: Some(prepared.hash.clone()),
        };
        proof {
            assert(copy@ =~= CopyView::of_image(
                *input.image,
                prepared@,
                text::slice_of(input.domain),
                text::slice_of(input.page_title),
                input.now,
            ));
        }
        if !known {
            let row = BlobRow {
                hash: prepared.hash.clone(),
                relative_path: prepared.relative_path.clone(),
                mime_type: prepared.mime_type.clone(),
                width: prepared.width,
                height: prepared.height,
                size_bytes: prepared.size_bytes,
                thumbnail_data_url: prepared.thumbnail_data_url.clone(),
                created_at: input.now,
            };
            let ghost before = self@;
            self.blobs.push(row);
            proof {
                assert(self@ =~= before.with_blob_of(prepared@, input.now));
                lemma_with_blob_wf(before, prepared@, input.now);
            }
        }
        let ghost stocked = self@;
        let result = self.save_with_receipt(copy, length, new_id, receipt_id);
        if result.is_err() && !known {
            let ghost filled = self.blobs@;
            let _ = self.blobs.pop();
            proof {
                assert(rows::blob_views(self.blobs@) =~= rows::blob_views(filled).drop_last());
                assert(rows::blob_views(filled) == stocked.blobs);
                assert(stocked.blobs.drop_last() =~= old(self)@.blobs);
                assert(self@ =~= old(self)@);
            }
        }
        result
    }

    /// [`Self::upsert_image`] with the identifiers to use.
    pub fn upsert_image_as<F: FnOnce(&PreparedImage) -> bool>(
        &mut self,
        input: NewImageClip<'_>,
        size: ThumbnailSize,
        persist: F,
        new_id: &str,
        receipt_id: u128,
    ) -> (result: Result<(ClipSummary, Option<ClipUpsertReceipt>), RepositoryError>)
        requires
            old(self)@.wf(),
            size.fits(),
            forall|prepared: &PreparedImage| #[trigger] call_requires(persist, (prepared,)),
        ensures
            image_upserted(
                old(self)@,
                final(self)@,
                input,
                size,
                persist,
                new_id@,
                receipt_id,
                result,
            ),
            final(self)@.wf(),
    {
        let prepared = match self.plan_image(&input, size) {
            Ok(prepared) => prepared,
            Err(error) => return Err(error),
        };
        if !persist(&prepared) {
            return Err(RepositoryError::BlobUnwritable);
        }
        self.commit_image_as(&input, &prepared, new_id, receipt_id)
    }

    /// Saves a copied image. `persist` writes the prepared file and tells whether it is there.
    pub fn upsert_image<F: FnOnce(&PreparedImage) -> bool>(
        &mut self,
        input: NewImageClip<'_>,
        size: ThumbnailSize,
        persist: F,
    ) -> (result: Result<(ClipSummary, Option<ClipUpsertReceipt>), RepositoryError>)
        requires
            old(self)@.wf(),
            size.fits(),
            forall|prepared: &PreparedImage| #[trigger] call_requires(persist, (prepared,)),
        ensures
            exists|id: u128, receipt_id: u128|
                id != 0 && receipt_id != 0 && #[trigger] image_upserted(
                    old(self)@,
                    final(self)@,
                    input,
                    size,
                    persist,
                    identity::uuid_text(id),
                    receipt_id,
                    result,
                ),
            final(self)@.wf(),
    {
        let id = random_uuid();
        let new_id = uuid_to_text(id);
        let receipt_id = random_uuid();
        self.upsert_image_as(input, size, persist, new_id.as_str(), receipt_id)
    }
}

/// What saving a copied image with its prepared file does and returns.
pub open spec fn image_committed(
    before: RepositoryView,
    after: RepositoryView,
    input: NewImageClip<'_>,
    prepared: PreparedView,
    new_id: Seq<char>,
    receipt_id: u128,
    result: Result<(ClipSummary, Option<ClipUpsertReceipt>), RepositoryError>,
) -> bool {
    let domain = text::slice_of(input.domain);
    let title = text::slice_of(input.page_title);
    match before.image_saved(*input.image, prepared, domain, title, input.now, new_id) {
        Ok((next, at)) => after == next && 0 <= at < next.clips.len() && (
        result matches Ok((summary, receipt)) && summary@ == next.summary_of(next.clips[at])
            && receipt_view(receipt) == before.receipt_of(
            CopyView::of_image(*input.image, prepared, domain, title, input.now),
            input.image.rgba@.len(),
            receipt_id,
            next.clips[at],
        )),
        Err(error) => after == before && result == Err::<
            (ClipSummary, Option<ClipUpsertReceipt>),
            RepositoryError,
        >(error),
    }
}

/// What saving a copied image does and returns.
pub open spec fn image_upserted<F: FnOnce(&PreparedImage) -> bool>(
    before: RepositoryView,
    after: RepositoryView,
    input: NewImageClip<'_>,
    size: ThumbnailSize,
    persist: F,
    new_id: Seq<char>,
    receipt_id: u128,
    result: Result<(ClipSummary, Option<ClipUpsertReceipt>), RepositoryError>,
) -> bool {
    match before.image_plan(*input.image, input.max_image_bytes, input.max_storage_bytes, size) {
        Err(error) => after == before && result == Err::<
            (ClipSummary, Option<ClipUpsertReceipt>),
            RepositoryError,
        >(error),
        Ok(plan) => exists|prepared: &PreparedImage, written: bool|
            {
                &&& #[trigger] call_ensures(persist, (prepared,), written)
                &&& prepared@ == plan
                &&& if written {
                    image_committed(before, after, input, plan, new_id, receipt_id, result)
                } else {
                    after == before && result == Err::<
                        (ClipSummary, Option<ClipUpsertReceipt>),
                        RepositoryError,
                    >(RepositoryError::BlobUnwritable)
                }
            },
    }
}

proof fn lemma_total_grows(blobs: Seq<BlobRowView>, count: int)
    requires
        0 <= count <= blobs.len(),
    ensures
        0 <= total_bytes(blobs.take(count)) <= total_bytes(blobs),
    decreases blobs.len() - count,
{
    lemma_total_is_natural(blobs.take(count));
    if count < blobs.len() {
        lemma_total_grows(blobs, count + 1);
        assert(blobs.take(count + 1).drop_last() =~= blobs.take(count));
    } else {
        assert(blobs.take(count) =~= blobs);
    }
}

proof fn lemma_total_is_natural(blobs: Seq<BlobRowView>)
    ensures
        total_bytes(blobs) >= 0,
    decreases blobs.len(),
{
    if blobs.len() > 0 {
        lemma_total_is_natural(blobs.drop_last());
    }
}

/// Adding a file keeps the rules.
proof fn lemma_with_blob_wf(repository: RepositoryView, prepared: PreparedView, now: i64)
    requires
        repository.wf(),
        repository.has_blob(prepared.hash) || !repository.has_path(prepared.relative_path),
    ensures
        repository.with_blob_of(prepared, now).wf(),
        repository.with_blob_of(prepared, now).has_blob(prepared.hash),
{
    let next = repository.with_blob_of(prepared, now);
    if !repository.has_blob(prepared.hash) {
        let last = repository.blobs.len() as int;
        assert(next.blobs[last].hash == prepared.hash);
        assert forall|i: int, j: int| 0 <= i < j < next.blobs.len() implies (
        #[trigger] next.blobs[i]).hash != (#[trigger] next.blobs[j]).hash
            && next.blobs[i].relative_path != next.blobs[j].relative_path by {
            if j == last {
                assert(repository.blobs[i].hash != prepared.hash);
                assert(repository.blobs[i].relative_path != prepared.relative_path);
            } else {
                assert(repository.blobs[i].hash != repository.blobs[j].hash);
            }
        }
        assert forall|i: int| 0 <= i < next.links.len() implies next.has_clip(
            (#[trigger] next.links[i]).clip_id,
        ) && next.has_category(next.links[i].category_id) by {
            assert(repository.has_clip(repository.links[i].clip_id));
            let k = choose|k: int|
                0 <= k < repository.clips.len() && (#[trigger] repository.clips[k]).id
                    == repository.links[i].clip_id;
            assert(next.clips[k].id == repository.clips[k].id);
            assert(repository.has_category(repository.links[i].category_id));
            let c = choose|c: int|
                0 <= c < repository.categories.len() && (
                #[trigger] repository.categories[c]).category.id
                    == repository.links[i].category_id;
            assert(next.categories[c].category.id == repository.links[i].category_id);
        }
        assert forall|i: int|
            0 <= i < next.clips.len() && (
            #[trigger] next.clips[i]).blob_hash is Some implies next.has_blob(
            next.clips[i].blob_hash->0,
        ) by {
            assert(repository.clips[i].blob_hash is Some);
            assert(repository.has_blob(repository.clips[i].blob_hash->0));
            let b = choose|b: int|
                0 <= b < repository.blobs.len() && (#[trigger] repository.blobs[b]).hash
                    == repository.clips[i].blob_hash->0;
            assert(next.blobs[b].hash == repository.blobs[b].hash);
        }
    }
}

pub open spec fn receipt_view(receipt: Option<ClipUpsertReceipt>) -> Option<ReceiptView> {
    match receipt {
        Some(receipt) => Some(receipt@),
        None => None,
    }
}

/// What saving a copied text does and returns.
pub open spec fn clip_upserted(
    before: RepositoryView,
    after: RepositoryView,
    input: NewClip<'_>,
    new_id: Seq<char>,
    receipt_id: u128,
    result: Result<(ClipSummary, Option<ClipUpsertReceipt>), RepositoryError>,
) -> bool {
    let domain = text::slice_of(input.domain);
    let title = text::slice_of(input.page_title);
    match before.text_saved(input.content@, domain, title, input.now, new_id) {
        Ok((next, at)) => after == next && 0 <= at < next.clips.len() && (
        result matches Ok((summary, receipt)) && summary@ == next.summary_of(next.clips[at])
            && receipt_view(receipt) == before.receipt_of(
            CopyView::of_text(input.content@, domain, title, input.now),
            text::utf8_len(normalize::normalized_content(input.content@)),
            receipt_id,
            next.clips[at],
        )),
        Err(error) => after == before && result == Err::<
            (ClipSummary, Option<ClipUpsertReceipt>),
            RepositoryError,
        >(error),
    }
}

/// A clip found by its hash and domain is the one that a copy is saved in.
proof fn lemma_slot_is_target(repository: RepositoryView, copy: CopyView, new_id: Seq<char>)
    requires
        repository.wf(),
        key_of(copy.domain).len() == 0,
        repository.slot_position(copy.content_hash, Seq::empty()) < repository.clips.len(),
        repository.saved(copy, new_id) is Ok,
    ensures
        repository.clips[repository.slot_position(copy.content_hash, Seq::empty())].sort_key
            < i64::MAX,
{
    assert(key_of(copy.domain) =~= Seq::empty());
    let slot = repository.slot_position(copy.content_hash, Seq::empty());
    let id = repository.clips[slot].id;
    crate::sequences::lemma_first_index(
        repository.clips,
        |row: ClipRowView|
            row.content_hash == copy.content_hash && row.domain_key == Seq::<char>::empty(),
    );
    crate::sequences::lemma_first_index(repository.clips, |row: ClipRowView| row.id == id);
    let at = repository.clip_position(id);
    if at < slot {
        assert(repository.clips[at].id != repository.clips[slot].id);
    }
}

/// A file that exists is found.
proof fn lemma_blob_position(repository: RepositoryView, hash: Option<Seq<char>>)
    ensures
        hash is Some && repository.has_blob(hash->0) ==> repository.blob_position(hash->0)
            < repository.blobs.len(),
{
    if hash is Some {
        crate::sequences::lemma_first_index(
            repository.blobs,
            |row: BlobRowView| row.hash == hash->0,
        );
        if repository.has_blob(hash->0) {
            let i = choose|i: int|
                0 <= i < repository.blobs.len() && (#[trigger] repository.blobs[i]).hash == hash->0;
        }
    }
}

} // verus!
