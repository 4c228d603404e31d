//! What a browser's report does to the history.

use crate::browser_metadata::{EventView, ReceiptView};
use crate::domain::normalize;
use crate::persistence::attach;
use crate::persistence::laws;
use crate::persistence::rows::{ClipRowView, LinkRowView};
use crate::persistence::{RepositoryError, RepositoryView};
use crate::sequences;
use crate::text;
use vstd::prelude::*;

verus! {

/// The report is about the clip at this position, which is still as the receipt says.
pub open spec fn is_awaited(
    before: RepositoryView,
    at: int,
    event: EventView,
    receipt: ReceiptView,
) -> bool {
    &&& 0 <= at < before.clips.len()
    &&& before.clips[at].id == receipt.clip_id
    &&& before.clips[at].content_hash == event.content_hash
    &&& before.clips[at].domain_key.len() == 0
    &&& before.clips[at].copy_count == receipt.resulting_copy_count
    &&& before.clips[at].last_copied_at == receipt.resulting_last_copied_at
    &&& before.clips[at].payload_kind is Image ==> event.content_length
        == receipt.normalized_length_bytes
    &&& before.clips[at].payload_kind is Text ==> event.content_length == text::utf8_len(
        normalize::normalized_content(before.clips[at].content),
    )
}

/// No clip has this text on this domain.
pub open spec fn is_unknown(before: RepositoryView, event: EventView) -> bool {
    forall|k: int|
        0 <= k < before.clips.len() ==> !((#[trigger] before.clips[k]).content_hash
            == event.content_hash && before.clips[k].domain_key == event.domain)
}

/// The clip at this position has this text on this domain.
pub open spec fn is_known_at(before: RepositoryView, k: int, event: EventView) -> bool {
    &&& 0 <= k < before.clips.len()
    &&& before.clips[k].content_hash == event.content_hash
    &&& before.clips[k].domain_key == event.domain
}

proof fn lemma_awaited(before: RepositoryView, at: int, event: EventView, receipt: ReceiptView)
    requires
        before.wf(),
        is_awaited(before, at, event, receipt),
    ensures
        before.clip_position(receipt.clip_id) == at,
        before.receipt_is_current(at, event, receipt),
{
    laws::lemma_clip_found(before, at);
}

proof fn lemma_known(before: RepositoryView, k: int, event: EventView)
    requires
        before.wf(),
    ensures
        is_known_at(before, k, event) ==> before.slot_position(event.content_hash, event.domain)
            == k,
        is_unknown(before, event) ==> before.slot_position(event.content_hash, event.domain)
            == before.clips.len(),
{
    laws::lemma_slot(before, event.content_hash, event.domain);
    if is_known_at(before, k, event) {
        laws::lemma_clip_found(before, k);
    }
}

/// A report that no clip awaits changes nothing: the clip is gone, has another text, is on a
/// domain already, or has been copied since.
pub proof fn stale_reports_change_nothing(
    before: RepositoryView,
    event: EventView,
    receipt: ReceiptView,
    event_ms: i64,
    new_id: Seq<char>,
)
    requires
        forall|k: int|
            0 <= k < before.clips.len() ==> !is_awaited(before, k, event, receipt),
    ensures
        before.attached(event, receipt, event_ms, new_id) == Ok::<
            (RepositoryView, Option<Seq<char>>),
            RepositoryError,
        >((before, None)),
{
    let id = receipt.clip_id;
    sequences::lemma_first_index(before.clips, |row: ClipRowView| row.id == id);
    let t = before.clip_position(receipt.clip_id);
    if before.receipt_is_current(t, event, receipt) {
        assert(is_awaited(before, t, event, receipt));
    }
}

/// A report that a clip awaits is attached to a clip, unless there is no number or no identifier
/// left for the copy.
pub proof fn awaited_reports_are_attached(
    before: RepositoryView,
    at: int,
    event: EventView,
    receipt: ReceiptView,
    event_ms: i64,
    new_id: Seq<char>,
)
    requires
        before.wf(),
        is_awaited(before, at, event, receipt),
        event.domain.len() > 0,
        receipt.previous_copy_count >= 0,
        !before.has_clip(new_id),
        forall|k: int| 0 <= k < before.clips.len() ==> (#[trigger] before.clips[k]).copy_count < i64::MAX,
    ensures
        before.attached(event, receipt, event_ms, new_id) matches Ok((_, Some(_))),
{
    lemma_awaited(before, at, event, receipt);
    laws::lemma_slot(before, event.content_hash, event.domain);
}

/// Whenever a report is attached, the clip whose identifier is returned is there, and it is the
/// only one; it has the hash of the text, the text that was copied, and the domain; if the report
/// has a title, its first 500 characters are the title of the clip.
#[verifier::rlimit(30)]
pub proof fn reports_are_kept(
    before: RepositoryView,
    at: int,
    event: EventView,
    receipt: ReceiptView,
    event_ms: i64,
    new_id: Seq<char>,
)
    requires
        before.wf(),
        is_awaited(before, at, event, receipt),
        event.domain.len() > 0,
    ensures
        before.attached(event, receipt, event_ms, new_id) matches Ok((after, Some(id))) ==> {
            &&& after.has_clip(id)
            &&& forall|k: int|
                0 <= k < after.clips.len() && (#[trigger] after.clips[k]).id == id ==> {
                    let row = after.clips[k];
                    &&& row.content == before.clips[at].content
                    &&& row.content_hash == before.clips[at].content_hash
                    &&& row.domain_key == event.domain
                    &&& 0 < event.page_title.len() <= 500 ==> row.page_title == Some(
                        event.page_title,
                    )
                    &&& event.page_title.len() > 500 ==> row.page_title == Some(
                        event.page_title.subrange(0, 500),
                    )
                }
        },
{
    lemma_awaited(before, at, event, receipt);
    let slot = before.slot_position(event.content_hash, event.domain);
    laws::lemma_slot(before, event.content_hash, event.domain);
    assert(slot != at);
    if let Ok((after, Some(id))) = before.attached(event, receipt, event_ms, new_id) {
        if receipt.previous_copy_count == 0 && slot < before.clips.len() {
            let row = attach::merged(
                before.clips[slot],
                before.clips[at],
                attach::reported_title(event),
                event_ms,
            );
            let changed = before.clips.update(slot, row);
            let gone = before.clips[at].id;
            let keep = |row: ClipRowView| row.id != gone;
            sequences::lemma_filter_members(changed, keep);
            assert(changed[slot] == row);
            assert(before.clips[slot].id != before.clips[at].id) by {
                if slot < at {
                    assert(before.clips[slot].id != before.clips[at].id);
                } else {
                    assert(before.clips[at].id != before.clips[slot].id);
                }
            }
            assert(changed.contains(row));
            assert(after.clips.contains(row));
            let n = choose|n: int| 0 <= n < after.clips.len() && after.clips[n] == row;
            assert(after.clips[n].id == id);
            assert forall|k: int|
                0 <= k < after.clips.len() && (#[trigger] after.clips[k]).id == id implies after.clips[k]
                == row by {
                assert(after.clips.contains(after.clips[k]));
                let m = choose|m: int| 0 <= m < changed.len() && changed[m] == after.clips[k];
                assert(changed[m].id == id);
                if m < slot {
                    assert(before.clips[m].id != before.clips[slot].id);
                } else if m > slot {
                    assert(before.clips[slot].id != before.clips[m].id);
                }
            }
        } else if receipt.previous_copy_count == 0 {
            assert(after.clips[at].id == id);
            assert forall|k: int|
                0 <= k < after.clips.len() && (#[trigger] after.clips[k]).id == id implies k
                == at by {
                if k < at {
                    assert(before.clips[k].id != before.clips[at].id);
                } else if k > at {
                    assert(before.clips[at].id != before.clips[k].id);
                }
            }
        } else if slot < before.clips.len() {
            assert(after.clips[slot].id == id);
            assert forall|k: int|
                0 <= k < after.clips.len() && (#[trigger] after.clips[k]).id == id implies k
                == slot by {
                assert(after.clips[k].id == before.clips[k].id);
                if k < slot {
                    assert(before.clips[k].id != before.clips[slot].id);
                } else if k > slot {
                    assert(before.clips[slot].id != before.clips[k].id);
                }
            }
        } else {
            let n = before.clips.len() as int;
            assert(after.clips[n].id == id);
            assert forall|k: int|
                0 <= k < after.clips.len() && (#[trigger] after.clips[k]).id == id implies k
                == n by {
                if k < n {
                    assert(after.clips[k].id == before.clips[k].id);
                    assert(before.clips[k].id != new_id);
                }
            }
        }
        assert(event.page_title.take(500) =~= event.page_title.subrange(0, 500)
            || event.page_title.len() < 500);
    }
}

/// The first copy of a text gets its domain and its title from the report, and nothing else
/// changes: not its type, times, count or pin, no other clip, no link.
pub proof fn first_copies_get_the_domain(
    before: RepositoryView,
    at: int,
    event: EventView,
    receipt: ReceiptView,
    event_ms: i64,
    new_id: Seq<char>,
)
    requires
        before.wf(),
        is_awaited(before, at, event, receipt),
        receipt.previous_copy_count == 0,
        is_unknown(before, event),
    ensures
        before.attached(event, receipt, event_ms, new_id) matches Ok((after, id)) && {
            &&& id == Some(before.clips[at].id)
            &&& after.clips.len() == before.clips.len()
            &&& after.clips[at].domain == Some(event.domain)
            &&& after.clips[at].domain_key == event.domain
            &&& event.page_title.len() == 0 ==> after.clips[at].page_title
                == before.clips[at].page_title
            &&& (ClipRowView {
                domain: before.clips[at].domain,
                domain_key: before.clips[at].domain_key,
                page_title: before.clips[at].page_title,
                ..after.clips[at]
            }) == before.clips[at]
            &&& forall|k: int|
                0 <= k < before.clips.len() && k != at ==> #[trigger] after.clips[k]
                    == before.clips[k]
            &&& after.links == before.links
            &&& after.categories == before.categories
            &&& after.blobs == before.blobs
        },
{
    lemma_awaited(before, at, event, receipt);
    lemma_known(before, at, event);
}

/// The first copy of a text that a clip has on the reported domain already goes, and that clip
/// counts one copy more; it is pinned if either was, and has the earlier of the two times of the
/// first copy, the later of its own time and that of the report, and the larger sort key. No
/// other clip goes or changes.
#[verifier::rlimit(30)]
pub proof fn first_copies_are_merged(
    before: RepositoryView,
    at: int,
    slot: int,
    event: EventView,
    receipt: ReceiptView,
    event_ms: i64,
    new_id: Seq<char>,
    other: ClipRowView,
)
    requires
        before.wf(),
        is_awaited(before, at, event, receipt),
        event.domain.len() > 0,
        receipt.previous_copy_count == 0,
        is_known_at(before, slot, event),
        other.id != before.clips[at].id,
        other.id != before.clips[slot].id,
    ensures
        before.attached(event, receipt, event_ms, new_id) matches Ok((after, id)) && {
            let temporary = before.clips[at];
            let existing = before.clips[slot];
            &&& id == Some(existing.id)
            &&& !after.has_clip(temporary.id)
            &&& after.clips.len() == before.clips.len() - 1
            &&& after.clips.contains(other) <==> before.clips.contains(other)
            &&& after.categories == before.categories
            &&& after.blobs == before.blobs
            &&& exists|k: int|
                0 <= k < after.clips.len() && {
                    let row = #[trigger] after.clips[k];
                    &&& row.id == existing.id
                    &&& existing.copy_count < i64::MAX ==> row.copy_count == existing.copy_count + 1
                    &&& existing.copy_count == i64::MAX ==> row.copy_count == i64::MAX
                    &&& row.pinned <==> existing.pinned || temporary.pinned
                    &&& row.created_at == existing.created_at || row.created_at
                        == temporary.created_at
                    &&& row.created_at <= existing.created_at && row.created_at
                        <= temporary.created_at
                    &&& row.last_copied_at == existing.last_copied_at || row.last_copied_at
                        == event_ms
                    &&& row.last_copied_at >= existing.last_copied_at && row.last_copied_at
                        >= event_ms
                    &&& row.sort_key == existing.sort_key || row.sort_key == temporary.sort_key
                    &&& row.sort_key >= existing.sort_key && row.sort_key >= temporary.sort_key
                    &&& row.content == temporary.content
                    &&& row.content_type == existing.content_type
                    &&& row.domain == existing.domain
                    &&& row.payload_kind == existing.payload_kind
                    &&& row.blob_hash == existing.blob_hash
                    &&& event.page_title.len() == 0 ==> row.page_title == existing.page_title
                }
        },
{
    lemma_awaited(before, at, event, receipt);
    lemma_known(before, slot, event);
    let temporary = before.clips[at];
    let existing = before.clips[slot];
    let (after, _) = before.attached(event, receipt, event_ms, new_id)->Ok_0;
    let row = attach::merged(existing, temporary, attach::reported_title(event), event_ms);
    let changed = before.clips.update(slot, row);
    let gone = temporary.id;
    let keep = |row: ClipRowView| row.id != gone;
    assert(slot != at);
    assert(forall|k: int|
        0 <= k < before.clips.len() && k != at ==> (#[trigger] before.clips[k]).id != gone) by {
        assert forall|k: int| 0 <= k < before.clips.len() && k != at implies (
        #[trigger] before.clips[k]).id != gone by {
            if k < at {
                assert(before.clips[k].id != before.clips[at].id);
            } else {
                assert(before.clips[at].id != before.clips[k].id);
            }
        }
    }
    sequences::lemma_filter_members(changed, keep);
    assert(after.clips == changed.filter(keep));
    assert(changed[slot] == row);
    assert(changed.contains(row));
    assert(after.clips.contains(row));
    let n = choose|n: int| 0 <= n < after.clips.len() && after.clips[n] == row;
    assert(after.clips[n].id == existing.id);
    assert forall|k: int| 0 <= k < after.clips.len() implies (#[trigger] after.clips[k]).id
        != gone by {
        assert(after.clips.contains(after.clips[k]));
    }
    lemma_filter_drops_one(changed, keep, at);
    if before.clips.contains(other) {
        let m = choose|m: int| 0 <= m < before.clips.len() && before.clips[m] == other;
        assert(changed[m] == other);
        assert(changed.contains(other));
    }
    if after.clips.contains(other) {
        let m = choose|m: int| 0 <= m < changed.len() && changed[m] == other;
        assert(before.clips[m] == other);
    }
}

/// A filter that refuses one item only.
proof fn lemma_filter_drops_one<A>(items: Seq<A>, keep: spec_fn(A) -> bool, at: int)
    requires
        0 <= at < items.len(),
        !keep(items[at]),
        forall|k: int| 0 <= k < items.len() && k != at ==> keep(#[trigger] items[k]),
    ensures
        items.filter(keep).len() == items.len() - 1,
    decreases items.len(),
{
    reveal(Seq::filter);
    let head = items.drop_last();
    if at == items.len() - 1 {
        lemma_filter_drops_none(head, keep);
    } else {
        assert forall|k: int| 0 <= k < head.len() && k != at implies keep(#[trigger] head[k]) by {
            assert(keep(items[k]));
        }
        lemma_filter_drops_one(head, keep, at);
        assert(keep(items[items.len() - 1]));
    }
}

/// A filter that refuses no item.
proof fn lemma_filter_drops_none<A>(items: Seq<A>, keep: spec_fn(A) -> bool)
    requires
        forall|k: int| 0 <= k < items.len() ==> keep(#[trigger] items[k]),
    ensures
        items.filter(keep).len() == items.len(),
    decreases items.len(),
{
    reveal(Seq::filter);
    if items.len() > 0 {
        let head = items.drop_last();
        assert forall|k: int| 0 <= k < head.len() implies keep(#[trigger] head[k]) by {
            assert(keep(items[k]));
        }
        lemma_filter_drops_none(head, keep);
        assert(keep(items[items.len() - 1]));
    }
}

/// The clip that a first copy is merged into is in its own categories and in those of the copy,
/// and in no other.
pub proof fn merged_clips_keep_their_categories(
    before: RepositoryView,
    at: int,
    slot: int,
    event: EventView,
    receipt: ReceiptView,
    event_ms: i64,
    new_id: Seq<char>,
    clip_id: Seq<char>,
    category_id: Seq<char>,
)
    requires
        before.wf(),
        is_awaited(before, at, event, receipt),
        event.domain.len() > 0,
        receipt.previous_copy_count == 0,
        is_known_at(before, slot, event),
        clip_id != before.clips[at].id,
    ensures
        before.attached(event, receipt, event_ms, new_id) matches Ok((after, _)) && {
            &&& clip_id == before.clips[slot].id ==> (after.has_link(clip_id, category_id) <==> (
            before.has_link(clip_id, category_id) || before.has_link(
                before.clips[at].id,
                category_id,
            )))
            &&& clip_id != before.clips[slot].id ==> (after.has_link(clip_id, category_id)
                <==> before.has_link(clip_id, category_id))
            &&& !after.has_link(before.clips[at].id, category_id)
        },
{
    lemma_awaited(before, at, event, receipt);
    lemma_known(before, slot, event);
    let (after, _) = before.attached(event, receipt, event_ms, new_id)->Ok_0;
    let from = before.clips[at].id;
    let to = before.clips[slot].id;
    assert(from != to) by {
        if slot < at {
            assert(before.clips[slot].id != before.clips[at].id);
        } else {
            assert(before.clips[at].id != before.clips[slot].id);
        }
    }
    let links = before.links;
    let wanted = |row: LinkRowView| attach::is_to_copy(links, row, from, to);
    let moved = |row: LinkRowView| LinkRowView { clip_id: to, ..row };
    let chosen = links.filter(wanted);
    let copied = chosen.map_values(moved);
    let all = links + copied;
    let stays = |row: LinkRowView| row.clip_id != from;
    sequences::lemma_filter_members(links, wanted);
    sequences::lemma_filter_members(all, stays);
    assert(after.links == all.filter(stays));
    if after.has_link(from, category_id) {
        let k = choose|k: int|
            0 <= k < after.links.len() && (#[trigger] after.links[k]).clip_id == from
                && after.links[k].category_id == category_id;
        assert(after.links.contains(after.links[k]));
    }
    if after.has_link(clip_id, category_id) {
        let k = choose|k: int|
            0 <= k < after.links.len() && (#[trigger] after.links[k]).clip_id == clip_id
                && after.links[k].category_id == category_id;
        assert(after.links.contains(after.links[k]));
        let m = choose|m: int| 0 <= m < all.len() && all[m] == after.links[k];
        if m < links.len() {
            assert(links[m].clip_id == clip_id && links[m].category_id == category_id);
        } else {
            let source = chosen[m - links.len()];
            assert(chosen.contains(source));
            let s = choose|s: int| 0 <= s < links.len() && links[s] == source;
            assert(links[s].clip_id == from && links[s].category_id == category_id);
            assert(before.has_link(from, category_id));
        }
    }
    if before.has_link(clip_id, category_id) {
        let m = choose|m: int|
            0 <= m < links.len() && (#[trigger] links[m]).clip_id == clip_id
                && links[m].category_id == category_id;
        lemma_link_stays(all, stays, m, clip_id, category_id);
    }
    if clip_id == to && before.has_link(from, category_id) && !before.has_link(to, category_id) {
        let m = choose|m: int|
            0 <= m < links.len() && (#[trigger] links[m]).clip_id == from && links[m].category_id
                == category_id;
        assert(wanted(links[m]));
        assert(links.contains(links[m]));
        assert(chosen.contains(links[m]));
        let c = choose|c: int| 0 <= c < chosen.len() && chosen[c] == links[m];
        assert(copied[c].clip_id == to);
        assert(all[links.len() + c] == copied[c]);
        lemma_link_stays(all, stays, links.len() + c, clip_id, category_id);
    }
}

proof fn lemma_link_stays(
    all: Seq<LinkRowView>,
    stays: spec_fn(LinkRowView) -> bool,
    m: int,
    clip_id: Seq<char>,
    category_id: Seq<char>,
)
    requires
        0 <= m < all.len(),
        stays(all[m]),
        all[m].clip_id == clip_id,
        all[m].category_id == category_id,
    ensures
        exists|k: int|
            0 <= k < all.filter(stays).len() && (#[trigger] all.filter(stays)[k]).clip_id == clip_id
                && all.filter(stays)[k].category_id == category_id,
{
    sequences::lemma_filter_members(all, stays);
    let kept = all.filter(stays);
    assert(all.contains(all[m]));
    assert(kept.contains(all[m]));
    let k = choose|k: int| 0 <= k < kept.len() && kept[k] == all[m];
    assert(kept[k].clip_id == clip_id);
}

/// A later copy is taken back from the clip without a domain, which is then as it was before that
/// copy, and is counted for a clip on the domain: one that is there counts one copy more, else a
/// new one of the same type counts its first.
pub proof fn later_copies_move_to_the_domain(
    before: RepositoryView,
    at: int,
    event: EventView,
    receipt: ReceiptView,
    event_ms: i64,
    new_id: Seq<char>,
    slot: int,
)
    requires
        before.wf(),
        is_awaited(before, at, event, receipt),
        event.domain.len() > 0,
        receipt.previous_copy_count > 0,
        slot == before.clips.len() && is_unknown(before, event) || is_known_at(before, slot, event),
    ensures
        match before.attached(event, receipt, event_ms, new_id) {
            Ok((after, id)) => {
                let temporary = before.clips[at];
                let rest = after.clips[at];
                let row = after.clips[slot];
                &&& rest.copy_count == receipt.previous_copy_count
                &&& receipt.previous_content is Some ==> rest.content
                    == receipt.previous_content->0
                &&& receipt.previous_sort_key is Some ==> rest.sort_key
                    == receipt.previous_sort_key->0
                &&& receipt.previous_last_copied_at is Some ==> rest.last_copied_at
                    == receipt.previous_last_copied_at->0
                &&& receipt.previous_content is None ==> rest.content == temporary.content
                &&& receipt.previous_sort_key is None ==> rest.sort_key == temporary.sort_key
                &&& receipt.previous_last_copied_at is None ==> rest.last_copied_at
                    == temporary.last_copied_at
                &&& rest.id == temporary.id
                &&& rest.content_hash == temporary.content_hash
                &&& rest.content_type == temporary.content_type
                &&& rest.domain == temporary.domain
                &&& rest.domain_key == temporary.domain_key
                &&& rest.page_title == temporary.page_title
                &&& rest.created_at == temporary.created_at
                &&& rest.pinned == temporary.pinned
                &&& rest.payload_kind == temporary.payload_kind
                &&& rest.blob_hash == temporary.blob_hash
                &&& id == Some(row.id)
                &&& row.content == temporary.content
                &&& slot < before.clips.len() ==> {
                    let existing = before.clips[slot];
                    &&& after.clips.len() == before.clips.len()
                    &&& row.id == existing.id
                    &&& row.copy_count == existing.copy_count + 1
                    &&& row.last_copied_at == existing.last_copied_at || row.last_copied_at
                        == event_ms
                    &&& row.last_copied_at >= existing.last_copied_at && row.last_copied_at
                        >= event_ms
                    &&& row.sort_key == existing.sort_key || row.sort_key == temporary.sort_key
                    &&& row.sort_key >= existing.sort_key && row.sort_key >= temporary.sort_key
                    &&& row.content_type == existing.content_type
                    &&& row.domain == existing.domain
                    &&& row.created_at == existing.created_at
                    &&& row.pinned == existing.pinned
                    &&& row.payload_kind == existing.payload_kind
                    &&& row.blob_hash == existing.blob_hash
                    &&& event.page_title.len() == 0 ==> row.page_title == existing.page_title
                }
                &&& slot == before.clips.len() ==> {
                    &&& after.clips.len() == before.clips.len() + 1
                    &&& row.id == new_id
                    &&& row.copy_count == 1
                    &&& row.last_copied_at == event_ms
                    &&& row.created_at == temporary.created_at
                    &&& row.sort_key == temporary.sort_key
                    &&& row.content_type == temporary.content_type
                    &&& row.content_hash == temporary.content_hash
                    &&& row.domain == Some(event.domain)
                    &&& row.domain_key == event.domain
                    &&& !row.pinned
                    &&& row.payload_kind is Text
                    &&& row.blob_hash is None
                    &&& event.page_title.len() == 0 ==> row.page_title is None
                }
                &&& forall|k: int|
                    0 <= k < before.clips.len() && k != at && k != slot ==> #[trigger] after.clips[k]
                        == before.clips[k]
                &&& after.links == before.links
                &&& after.categories == before.categories
                &&& after.blobs == before.blobs
            },
            Err(RepositoryError::CounterOverflow) => slot < before.clips.len()
                && before.clips[slot].copy_count == i64::MAX,
            Err(RepositoryError::ConstraintViolation) => slot == before.clips.len()
                && before.has_clip(new_id),
            Err(_) => false,
        },
{
    lemma_awaited(before, at, event, receipt);
    lemma_known(before, slot, event);
    assert(slot != at);
}

/// A report is dated by its own time, to the millisecond, or by the time at which it came.
pub proof fn reports_are_dated(event: EventView, now: i64)
    ensures
        match event.moment() {
            Some(moment) => i64::MIN <= moment.millis() <= i64::MAX ==> attach::reported_millis(
                event,
                now,
            ) == moment.secs * 1000 + moment.nanos as int / 1_000_000,
            None => attach::reported_millis(event, now) == now,
        },
{
}

} // verus!
