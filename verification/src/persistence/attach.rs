//! Attaching the browser's report to a clip that was saved before the report came.

use crate::browser_metadata::{BrowserCopyEvent, ClipUpsertReceipt, EventView, ReceiptView,
    MAX_TITLE_CHARS};
use crate::clock::now_millis;
use crate::domain::normalize;
use crate::domain::{normalize_content, PayloadKind};
use crate::identity;
use crate::identity::{random_uuid, uuid_to_text};
use crate::persistence::rows;
use crate::persistence::rows::{ClipRow, ClipRowView, LinkRow, LinkRowView};
use crate::persistence::upsert;
use crate::persistence::{Repository, RepositoryError, RepositoryView};
use crate::text;
use crate::text::{byte_len, char_len, same_text, take_chars};
use vstd::prelude::*;

verus! {

/// The title in a report, if there is one.
pub open spec fn reported_title(event: EventView) -> Option<Seq<char>> {
    if event.page_title.len() == 0 {
        None
    } else {
        Some(text::prefix(event.page_title, MAX_TITLE_CHARS as int))
    }
}

/// When the reported copy was made, in milliseconds; `now` if the report does not say.
pub open spec fn reported_millis(event: EventView, now: i64) -> i64 {
    match event.moment() {
        Some(at) => at.millis() as i64,
        None => now,
    }
}

pub open spec fn larger(a: i64, b: i64) -> i64 {
    if a < b {
        b
    } else {
        a
    }
}

pub open spec fn smaller(a: i64, b: i64) -> i64 {
    if a < b {
        a
    } else {
        b
    }
}

/// A copy of every link of one clip for another, unless that one has it already.
pub open spec fn links_copied(links: Seq<LinkRowView>, from: Seq<char>, to: Seq<char>) -> Seq<
    LinkRowView,
> {
    links + links.filter(|row: LinkRowView| is_to_copy(links, row, from, to)).map_values(
        |row: LinkRowView| LinkRowView { clip_id: to, ..row },
    )
}

/// A link of `from` to a category that `to` has no link to.
pub open spec fn is_to_copy(
    links: Seq<LinkRowView>,
    row: LinkRowView,
    from: Seq<char>,
    to: Seq<char>,
) -> bool {
    row.clip_id == from && forall|i: int|
        0 <= i < links.len() ==> !((#[trigger] links[i]).clip_id == to && links[i].category_id
            == row.category_id)
}

/// The clip of a domain after it has taken over the first copy of a clip without a domain.
pub open spec fn merged(
    existing: ClipRowView,
    temporary: ClipRowView,
    title: Option<Seq<char>>,
    event_ms: i64,
) -> ClipRowView {
    ClipRowView {
        copy_count: if existing.copy_count == i64::MAX {
            i64::MAX
        } else {
            (existing.copy_count + 1) as i64
        },
        sort_key: larger(existing.sort_key, temporary.sort_key),
        pinned: existing.pinned || temporary.pinned,
        created_at: smaller(existing.created_at, temporary.created_at),
        page_title: upsert::or_else(title, existing.page_title),
        last_copied_at: larger(existing.last_copied_at, event_ms),
        content: temporary.content,
        ..existing
    }
}

/// The clip without a domain after its last copy has been taken back.
pub open spec fn rolled_back(temporary: ClipRowView, receipt: ReceiptView) -> ClipRowView {
    ClipRowView {
        copy_count: receipt.previous_copy_count,
        sort_key: match receipt.previous_sort_key {
            Some(sort_key) => sort_key,
            None => temporary.sort_key,
        },
        last_copied_at: match receipt.previous_last_copied_at {
            Some(at) => at,
            None => temporary.last_copied_at,
        },
        content: match receipt.previous_content {
            Some(content) => content,
            None => temporary.content,
        },
        ..temporary
    }
}

/// The clip of a domain after one more copy, taken over from a clip without a domain.
pub open spec fn taken_over(
    existing: ClipRowView,
    temporary: ClipRowView,
    title: Option<Seq<char>>,
    event_ms: i64,
) -> ClipRowView {
    ClipRowView {
        copy_count: (existing.copy_count + 1) as i64,
        sort_key: larger(existing.sort_key, temporary.sort_key),
        last_copied_at: larger(existing.last_copied_at, event_ms),
        page_title: upsert::or_else(title, existing.page_title),
        content: temporary.content,
        ..existing
    }
}

/// A new clip for the domain, with the copy taken over from a clip without a domain.
pub open spec fn split_off(
    temporary: ClipRowView,
    event: EventView,
    event_ms: i64,
    new_id: Seq<char>,
) -> ClipRowView {
    ClipRowView {
        id: new_id,
        content: temporary.content,
        content_hash: event.content_hash,
        content_type: temporary.content_type,
        domain: Some(event.domain),
        domain_key: event.domain,
        page_title: reported_title(event),
        created_at: temporary.created_at,
        last_copied_at: event_ms,
        copy_count: 1,
        pinned: false,
        sort_key: temporary.sort_key,
        payload_kind: PayloadKind::Text,
        blob_hash: None,
    }
}

impl RepositoryView {
    /// The receipt still describes the clip at this position, and the report is about it.
    pub open spec fn receipt_is_current(
        self,
        at: int,
        event: EventView,
        receipt: ReceiptView,
    ) -> bool {
        &&& 0 <= at < self.clips.len()
        &&& self.clips[at].content_hash == event.content_hash
        &&& self.clips[at].domain_key.len() == 0
        &&& self.clips[at].copy_count == receipt.resulting_copy_count
        &&& self.clips[at].last_copied_at == receipt.resulting_last_copied_at
        &&& event.content_length == match self.clips[at].payload_kind {
            PayloadKind::Image => receipt.normalized_length_bytes as int,
            PayloadKind::Text => text::utf8_len(
                normalize::normalized_content(self.clips[at].content),
            ) as int,
        }
    }

    /// With the links of one clip copied for another.
    pub open spec fn with_links_copied(self, from: Seq<char>, to: Seq<char>) -> RepositoryView {
        RepositoryView { links: links_copied(self.links, from, to), ..self }
    }

    /// The history after a report has been attached, and the clip that it is now attached to;
    /// nothing changes if the receipt is no longer current.
    ///
    /// If the receipt is of a first copy, the clip gets the domain, or is merged into the clip
    /// that has it. Else the copy is taken back from the clip without a domain and counted for
    /// the clip of the domain.
    pub open spec fn attached(
        self,
        event: EventView,
        receipt: ReceiptView,
        event_ms: i64,
        new_id: Seq<char>,
    ) -> Result<(RepositoryView, Option<Seq<char>>), RepositoryError> {
        let t = self.clip_position(receipt.clip_id);
        let e = self.slot_position(event.content_hash, event.domain);
        let title = reported_title(event);
        let temporary = self.clips[t];
        let known = e < self.clips.len();
        if !self.receipt_is_current(t, event, receipt) {
            Ok((self, None))
        } else if receipt.previous_copy_count == 0 {
            if known {
                let existing = self.clips[e];
                Ok(
                    (
                        self.with_clip(
                            e,
                            merged(existing, temporary, title, event_ms),
                        ).with_links_copied(temporary.id, existing.id).without_clip(temporary.id),
                        Some(existing.id),
                    ),
                )
            } else {
                Ok(
                    (
                        self.with_clip(
                            t,
                            ClipRowView {
                                domain: Some(event.domain),
                                domain_key: event.domain,
                                page_title: upsert::or_else(title, temporary.page_title),
                                ..temporary
                            },
                        ),
                        Some(temporary.id),
                    ),
                )
            }
        } else if receipt.previous_copy_count < 0 {
            Err(RepositoryError::ConstraintViolation)
        } else {
            let restored = self.with_clip(t, rolled_back(temporary, receipt));
            if known {
                let existing = restored.clips[e];
                if existing.copy_count == i64::MAX {
                    Err(RepositoryError::CounterOverflow)
                } else {
                    Ok(
                        (
                            restored.with_clip(
                                e,
                                taken_over(existing, temporary, title, event_ms),
                            ),
                            Some(existing.id),
                        ),
                    )
                }
            } else if self.has_clip(new_id) {
                Err(RepositoryError::ConstraintViolation)
            } else {
                Ok(
                    (
                        restored.with_new_clip(split_off(temporary, event, event_ms, new_id)),
                        Some(new_id),
                    ),
                )
            }
        }
    }
}

/// What attaching a report does and returns.
pub open spec fn metadata_attached(
    before: RepositoryView,
    after: RepositoryView,
    event: EventView,
    receipt: ReceiptView,
    event_ms: i64,
    new_id: Seq<char>,
    result: Result<Option<String>, RepositoryError>,
) -> bool {
    match before.attached(event, receipt, event_ms, new_id) {
        Ok((next, clip_id)) => after == next && (result matches Ok(found) && text::text_of(found)
            == clip_id),
        Err(error) => after == before && result == Err::<Option<String>, RepositoryError>(error),
    }
}

fn title_in(event: &BrowserCopyEvent) -> (title: Option<String>)
    ensures
        text::text_of(title) == reported_title(event@),
{
    if char_len(event.page_title.as_str()) == 0 {
        None
    } else {
        Some(take_chars(event.page_title.as_str(), MAX_TITLE_CHARS))
    }
}

fn larger_of(a: i64, b: i64) -> (largest: i64)
    ensures
        largest == larger(a, b),
{
    if a < b {
        b
    } else {
        a
    }
}

fn smaller_of(a: i64, b: i64) -> (smallest: i64)
    ensures
        smallest == smaller(a, b),
{
    if a < b {
        a
    } else {
        b
    }
}

impl Repository {
    /// Copies the links of one clip for another.
    fn copy_links(&mut self, from: &str, to: &str)
        requires
            old(self)@.wf(),
            old(self)@.has_clip(to@),
        ensures
            final(self)@ == old(self)@.with_links_copied(from@, to@),
            final(self)@.wf(),
    {
        let ghost all = self@.links;
        let ghost wanted = |row: LinkRowView| is_to_copy(all, row, from@, to@);
        let ghost moved = |row: LinkRowView| LinkRowView { clip_id: to@, ..row };
        let mut copies: Vec<LinkRow> = Vec::new();
        let mut i: usize = 0;
        proof {
            reveal(Seq::filter);
            assert(rows::link_views(copies@) =~= all.take(0).filter(wanted).map_values(moved));
        }
        while i < self.links.len()
            invariant
                *self == *old(self),
                all == self@.links,
                i <= self.links@.len(),
                wanted == (|row: LinkRowView| is_to_copy(all, row, from@, to@)),
                moved == (|row: LinkRowView| LinkRowView { clip_id: to@, ..row }),
                rows::link_views(copies@) == all.take(i as int).filter(wanted).map_values(moved),
            decreases self.links@.len() - i,
        {
            let row = &self.links[i];
            proof {
                assert(all[i as int] == row@);
                crate::sequences::lemma_filter_take(all, wanted, i as int);
            }
            if same_text(row.clip_id.as_str(), from) && !self.is_linked(
                to,
                row.category_id.as_str(),
            ) {
                let ghost before = copies@;
                let ghost chosen = all.take(i as int).filter(wanted);
                let copy = LinkRow {
                    clip_id: to.to_owned(),
                    category_id: row.category_id.clone(),
                    created_at: row.created_at,
                };
                copies.push(copy);
                proof {
                    assert(wanted(row@));
                    assert(rows::link_views(copies@) =~= rows::link_views(before).push(copy@));
                    assert(chosen.push(row@).map_values(moved) =~= chosen.map_values(moved).push(
                        moved(row@),
                    ));
                }
            } else {
                proof {
                    assert(!wanted(row@));
                }
            }
            i += 1;
        }
        proof {
            assert(all.take(i as int) =~= all);
        }
        let ghost links = self.links@;
        let ghost added = copies@;
        self.links.append(&mut copies);
        proof {
            assert(rows::link_views(self.links@) =~= rows::link_views(links) + rows::link_views(
                added,
            ));
            lemma_links_copied_wf(old(self)@, from@, to@);
        }
    }

    /// Changes the clip at a position.
    pub(crate) fn set_clip(&mut self, at: usize, row: ClipRow)
        requires
            old(self)@.wf(),
            at < old(self)@.clips.len(),
            row@.id == old(self)@.clips[at as int].id,
            forall|k: int|
                0 <= k < old(self)@.clips.len() && k != at ==> !super::same_slot(
                    #[trigger] old(self)@.clips[k],
                    row@,
                ),
            row@.copy_count >= 1,
            row@.blob_hash is Some ==> old(self)@.has_blob(row@.blob_hash->0),
        ensures
            final(self)@ == old(self)@.with_clip(at as int, row@),
            final(self)@.wf(),
    {
        let ghost before = self@;
        self.clips.set(at, row);
        proof {
            assert(self@ =~= before.with_clip(at as int, row@));
            super::lemma_with_clip_wf(before, at as int, row@);
        }
    }

    /// [`Self::attach_metadata_with_receipt`] at a given time, with the identifier for a new clip.
    pub fn attach_metadata_with_receipt_as(
        &mut self,
        event: &BrowserCopyEvent,
        receipt: ClipUpsertReceipt,
        now: i64,
        new_id: &str,
    ) -> (result: Result<Option<String>, RepositoryError>)
        requires
            old(self)@.wf(),
        ensures
            metadata_attached(
                old(self)@,
                final(self)@,
                event@,
                receipt@,
                reported_millis(event@, now),
                new_id@,
                result,
            ),
            final(self)@.wf(),
    {
        let event_ms = match event.timestamp_millis() {
            Ok(millis) => millis,
            Err(_) => now,
        };
        let title = title_in(event);
        let t = self.find_clip(receipt.clip_id.as_str());
        if t >= self.clips.len() {
            return Ok(None);
        }
        let temporary = self.clips[t].clone();
        proof {
            assert(self@.clips[t as int] == temporary@);
        }
        if !same_text(temporary.content_hash.as_str(), event.content_hash.as_str()) || char_len(
            temporary.domain_key.as_str(),
        ) != 0 || temporary.copy_count != receipt.resulting_copy_count || temporary.last_copied_at
            != receipt.resulting_last_copied_at {
            return Ok(None);
        }
        let length = match temporary.payload_kind {
            PayloadKind::Image => receipt.normalized_length_bytes,
            PayloadKind::Text => byte_len(
                normalize_content(temporary.content.as_str()).as_str(),
            ),
        };
        if length != event.content_length {
            return Ok(None);
        }
        proof {
            assert(self@.receipt_is_current(t as int, event@, receipt@));
            assert forall|k: int|
                0 <= k < self@.clips.len() && k != t implies !super::same_slot(
                #[trigger] self@.clips[k],
                temporary@,
            ) by {
                if k < t {
                    assert(!super::same_slot(self@.clips[k], self@.clips[t as int]));
                } else {
                    assert(!super::same_slot(self@.clips[t as int], self@.clips[k]));
                }
            }
        }
        let e = self.find_slot(event.content_hash.as_str(), event.domain.as_str());
        let known = e < self.clips.len();
        if receipt.previous_copy_count == 0 {
            if known {
                let existing = self.clips[e].clone();
                proof {
                    assert(self@.clips[e as int] == existing@);
                    lemma_others_differ(self@, e as int);
                }
                let existing_id = existing.id.clone();
                let mut row = existing;
                row.copy_count = if row.copy_count == i64::MAX {
                    i64::MAX
                } else {
                    row.copy_count + 1
                };
                row.sort_key = larger_of(row.sort_key, temporary.sort_key);
                row.pinned = row.pinned || temporary.pinned;
                row.created_at = smaller_of(row.created_at, temporary.created_at);
                if title.is_some() {
                    row.page_title = title;
                }
                row.last_copied_at = larger_of(row.last_copied_at, event_ms);
                row.content = temporary.content.clone();
                proof {
                    assert(row@ =~= merged(
                        self@.clips[e as int],
                        temporary@,
                        reported_title(event@),
                        event_ms,
                    ));
                    assert(self@.clips[e as int].copy_count >= 1);
                }
                self.set_clip(e, row);
                proof {
                    assert(self@.clips[e as int].id == existing_id@);
                }
                self.copy_links(temporary.id.as_str(), existing_id.as_str());
                proof {
                    super::lemma_without_clip_wf(self@, temporary.id@);
                }
                self.remove_clip_row(temporary.id.as_str());
                Ok(Some(existing_id))
            } else {
                let id = temporary.id.clone();
                let ghost before = temporary@;
                let mut row = temporary;
                row.domain = Some(event.domain.clone());
                row.domain_key = event.domain.clone();
                if title.is_some() {
                    row.page_title = title;
                }
                proof {
                    assert(row@ =~= ClipRowView {
                        domain: Some(event.domain@),
                        domain_key: event.domain@,
                        page_title: upsert::or_else(reported_title(event@), before.page_title),
                        ..before
                    });
                    assert(self@.clips[t as int].copy_count >= 1);
                }
                self.set_clip(t, row);
                Ok(Some(id))
            }
        } else if receipt.previous_copy_count < 0 {
            Err(RepositoryError::ConstraintViolation)
        } else {
            // Nothing is changed before all that can fail has been looked at.
            if known {
                let count = if e == t {
                    receipt.previous_copy_count
                } else {
                    self.clips[e].copy_count
                };
                proof {
                    assert(self@.clips[e as int] == self.clips@[e as int]@);
                }
                if count == i64::MAX {
                    return Err(RepositoryError::CounterOverflow);
                }
            } else if self.find_clip(new_id) < self.clips.len() {
                return Err(RepositoryError::ConstraintViolation);
            }
            let mut row = temporary.clone();
            row.copy_count = receipt.previous_copy_count;
            if let Some(sort_key) = receipt.previous_sort_key {
                row.sort_key = sort_key;
            }
            if let Some(at) = receipt.previous_last_copied_at {
                row.last_copied_at = at;
            }
            if let Some(content) = &receipt.previous_content {
                row.content = content.clone();
            }
            proof {
                assert(row@ =~= rolled_back(temporary@, receipt@));
            }
            let ghost before = self@;
            self.set_clip(t, row);
            if known {
                let existing = self.clips[e].clone();
                proof {
                    assert(self@.clips[e as int] == existing@);
                    lemma_others_differ(self@, e as int);
                }
                let existing_id = existing.id.clone();
                let mut row = existing;
                row.copy_count = row.copy_count + 1;
                row.sort_key = larger_of(row.sort_key, temporary.sort_key);
                row.last_copied_at = larger_of(row.last_copied_at, event_ms);
                if title.is_some() {
                    row.page_title = title;
                }
                row.content = temporary.content.clone();
                proof {
                    assert(row@ =~= taken_over(
                        self@.clips[e as int],
                        temporary@,
                        reported_title(event@),
                        event_ms,
                    ));
                    assert(self@.clips[e as int].copy_count >= 1);
                }
                self.set_clip(e, row);
                Ok(Some(existing_id))
            } else {
                let row = ClipRow {
                    id: new_id.to_owned(),
                    content: temporary.content.clone(),
                    content_hash: event.content_hash.clone(),
                    content_type: temporary.content_type,
                    domain: Some(event.domain.clone()),
                    domain_key: event.domain.clone(),
                    page_title: title,
                    created_at: temporary.created_at,
                    last_copied_at: event_ms,
                    copy_count: 1,
                    pinned: false,
                    sort_key: temporary.sort_key,
                    payload_kind: PayloadKind::Text,
                    blob_hash: None,
                };
                let ghost restored = self@;
                self.clips.push(row);
                proof {
                    assert(row@ =~= split_off(temporary@, event@, event_ms, new_id@));
                    assert(self@ =~= restored.with_new_clip(row@));
                    assert forall|k: int| 0 <= k < restored.clips.len() implies !super::same_slot(
                        #[trigger] restored.clips[k],
                        row@,
                    ) by {
                        assert(restored.clips[k].content_hash == before.clips[k].content_hash);
                        assert(restored.clips[k].domain_key == before.clips[k].domain_key);
                    }
                    assert(!restored.has_clip(new_id@)) by {
                        assert forall|k: int| 0 <= k < restored.clips.len() implies (
                        #[trigger] restored.clips[k]).id != new_id@ by {
                            assert(before.clips[k].id == restored.clips[k].id);
                        }
                    }
                    super::lemma_with_new_clip_wf(restored, row@);
                }
                Ok(Some(new_id.to_owned()))
            }
        }
    }

    /// Attaches the browser's report to a clip that was saved shortly before, by its receipt.
    pub fn attach_metadata_with_receipt(
        &mut self,
        event: &BrowserCopyEvent,
        receipt: ClipUpsertReceipt,
    ) -> (result: Result<Option<String>, RepositoryError>)
        requires
            old(self)@.wf(),
        ensures
            exists|now: i64, id: u128|
                now >= 0 && id != 0 && #[trigger] metadata_attached(
                    old(self)@,
                    final(self)@,
                    event@,
                    receipt@,
                    reported_millis(event@, now),
                    identity::uuid_text(id),
                    result,
                ),
            final(self)@.wf(),
    {
        let id = random_uuid();
        let new_id = uuid_to_text(id);
        let now = now_millis();
        self.attach_metadata_with_receipt_as(event, receipt, now, new_id.as_str())
    }
}

/// All other clips have another hash or domain.
pub(crate) proof fn lemma_others_differ(repository: RepositoryView, at: int)
    requires
        repository.wf(),
        0 <= at < repository.clips.len(),
    ensures
        forall|k: int|
            0 <= k < repository.clips.len() && k != at ==> !super::same_slot(
                #[trigger] repository.clips[k],
                repository.clips[at],
            ),
{
    assert forall|k: int| 0 <= k < repository.clips.len() && k != at implies !super::same_slot(
        #[trigger] repository.clips[k],
        repository.clips[at],
    ) by {
        if k < at {
            assert(!super::same_slot(repository.clips[k], repository.clips[at]));
        } else {
            assert(!super::same_slot(repository.clips[at], repository.clips[k]));
        }
    }
}

/// Copying links to a clip that exists keeps the rules.
proof fn lemma_links_copied_wf(repository: RepositoryView, from: Seq<char>, to: Seq<char>)
    requires
        repository.wf(),
        repository.has_clip(to),
    ensures
        repository.with_links_copied(from, to).wf(),
{
    let links = repository.links;
    let next = repository.with_links_copied(from, to);
    let wanted = |row: LinkRowView| is_to_copy(links, row, from, to);
    let moved = |row: LinkRowView| LinkRowView { clip_id: to, ..row };
    let chosen = links.filter(wanted);
    crate::sequences::lemma_filter_members(links, wanted);
    crate::sequences::lemma_filter_pairs(
        links,
        wanted,
        |a: LinkRowView, b: LinkRowView| !super::same_link(a, b),
    );
    let copied = chosen.map_values(moved);
    assert(next.links == links + copied);
    assert forall|i: int| 0 <= i < chosen.len() implies wanted(#[trigger] chosen[i])
        && links.contains(chosen[i]) by {
        assert(chosen.contains(chosen[i]));
    }
    assert forall|i: int, j: int| 0 <= i < j < next.links.len() implies !super::same_link(
        #[trigger] next.links[i],
        #[trigger] next.links[j],
    ) by {
        if j < links.len() {
            assert(!super::same_link(links[i], links[j]));
        } else {
            let b = chosen[j - links.len()];
            assert(wanted(b));
            if i < links.len() {
                assert(next.links[i] == links[i]);
            } else {
                let a = chosen[i - links.len()];
                assert(wanted(a));
                assert(!super::same_link(a, b));
            }
        }
    }
    assert forall|i: int| 0 <= i < next.links.len() implies next.has_clip(
        (#[trigger] next.links[i]).clip_id,
    ) && next.has_category(next.links[i].category_id) by {
        let source = if i < links.len() {
            links[i]
        } else {
            chosen[i - links.len()]
        };
        if i >= links.len() {
            assert(wanted(chosen[i - links.len()]));
        }
        assert(links.contains(source)) by {
            if i < links.len() {
                assert(links[i] == source);
            }
        }
        let m = choose|m: int| 0 <= m < links.len() && links[m] == source;
        assert(repository.has_clip(links[m].clip_id));
        assert(repository.has_category(links[m].category_id));
        assert(repository.has_clip(next.links[i].clip_id));
        let k = choose|k: int|
            0 <= k < repository.clips.len() && (#[trigger] repository.clips[k]).id
                == next.links[i].clip_id;
        assert(next.clips[k].id == next.links[i].clip_id);
        let c = choose|c: int|
            0 <= c < repository.categories.len() && (
            #[trigger] repository.categories[c]).category.id == links[m].category_id;
        assert(next.categories[c].category.id == next.links[i].category_id);
    }
    assert forall|i: int|
        0 <= i < next.clips.len() && (
        #[trigger] next.clips[i]).blob_hash is Some implies next.has_blob(
        next.clips[i].blob_hash->0,
    ) by {
        assert(repository.clips[i].blob_hash is Some);
        let b = choose|b: int|
            0 <= b < repository.blobs.len() && (#[trigger] repository.blobs[b]).hash
                == repository.clips[i].blob_hash->0;
        assert(next.blobs[b].hash == next.clips[i].blob_hash->0);
    }
}

} // verus!
