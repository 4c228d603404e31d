//! What deleting takes away, and what it leaves.

use crate::persistence::cleanup;
use crate::persistence::cleanup::{Doomed, Swept};
use crate::persistence::rows::{BlobRowView, ClipRowView, LinkRowView};
use crate::persistence::RepositoryView;
use crate::sequences;
use crate::text;
use vstd::prelude::*;

verus! {

/// After everything that is not pinned is cleared, a clip is in the history exactly if it was
/// there before and is pinned.
pub proof fn clearing_leaves_pinned_clips(before: RepositoryView, row: ClipRowView)
    ensures
        before.swept(Doomed::Unpinned).clips.contains(row) <==> before.clips.contains(row)
            && row.pinned,
{
    let doomed = Doomed::Unpinned;
    sequences::lemma_filter_members(before.clips, |row: ClipRowView| !doomed.hits(row));
}

/// After the images that are not pinned are cleared, a clip is in the history exactly if it was
/// there before and is a text or pinned.
pub proof fn clearing_images_leaves_texts_and_pinned_clips(
    before: RepositoryView,
    row: ClipRowView,
)
    ensures
        before.swept(Doomed::UnpinnedImages).clips.contains(row) <==> before.clips.contains(row)
            && (row.pinned || row.payload_kind is Text),
{
    let doomed = Doomed::UnpinnedImages;
    sequences::lemma_filter_members(before.clips, |row: ClipRowView| !doomed.hits(row));
}

/// After a clip is deleted, another is in the history exactly if it was there before and has
/// another identifier.
pub proof fn deleting_takes_one_identifier(before: RepositoryView, id: &str, row: ClipRowView)
    ensures
        before.swept(Doomed::Clip(id)).clips.contains(row) <==> before.clips.contains(row)
            && row.id != id@,
{
    let doomed = Doomed::Clip(id);
    sequences::lemma_filter_members(before.clips, |row: ClipRowView| !doomed.hits(row));
}

/// After a cleanup, a clip is in the history exactly if it was there before and is pinned or was
/// copied within the days for which clips are kept.
pub proof fn cleaning_up_leaves_recent_and_pinned_clips(
    before: RepositoryView,
    days: u32,
    now_ms: i64,
    row: ClipRowView,
)
    ensures
        before.swept(Doomed::Older(cleanup::cutoff(days, now_ms))).clips.contains(row)
            <==> before.clips.contains(row) && (row.pinned || now_ms - row.last_copied_at <= days
            * 86_400_000),
{
    let doomed = Doomed::Older(cleanup::cutoff(days, now_ms));
    sequences::lemma_filter_members(before.clips, |row: ClipRowView| !doomed.hits(row));
}

/// Whatever is deleted, the clips that stay keep their order.
pub proof fn the_rest_keeps_its_order(before: RepositoryView, doomed: Doomed<'_>, i: int, j: int)
    requires
        before.wf(),
        0 <= i < j < before.swept(doomed).clips.len(),
    ensures
        exists|a: int, b: int|
            0 <= a < b < before.clips.len() && before.clips[a] == before.swept(doomed).clips[i]
                && before.clips[b] == before.swept(doomed).clips[j],
{
    let keep = |row: ClipRowView| !doomed.hits(row);
    lemma_order_is_kept(before.clips, keep, i, j);
}

/// What a filter lets through is in the order in which it stood.
proof fn lemma_order_is_kept<A>(items: Seq<A>, keep: spec_fn(A) -> bool, i: int, j: int)
    requires
        0 <= i < j < items.filter(keep).len(),
    ensures
        exists|a: int, b: int|
            0 <= a < b < items.len() && items[a] == items.filter(keep)[i] && items[b]
                == items.filter(keep)[j],
    decreases items.len(),
{
    reveal(Seq::filter);
    let head = items.drop_last();
    let kept = head.filter(keep);
    let all = items.filter(keep);
    if j < kept.len() {
        lemma_order_is_kept(head, keep, i, j);
        let (a, b) = choose|a: int, b: int|
            0 <= a < b < head.len() && head[a] == kept[i] && head[b] == kept[j];
        assert(items[a] == all[i] && items[b] == all[j]);
    } else {
        sequences::lemma_filter_members(head, keep);
        assert(all[i] == kept[i]);
        assert(kept.contains(kept[i]));
        let a = choose|a: int| 0 <= a < head.len() && head[a] == kept[i];
        let b = items.len() - 1;
        assert(items[a] == all[i] && items[b] == all[j]);
    }
}

/// Whatever is deleted, a link stays exactly if its clip stays, and every category stays.
pub proof fn links_go_with_their_clips(before: RepositoryView, doomed: Doomed<'_>, row: LinkRowView)
    ensures
        before.swept(doomed).links.contains(row) <==> before.links.contains(row) && before.swept(
            doomed,
        ).has_clip(row.clip_id),
        before.swept(doomed).categories == before.categories,
        before.swept(doomed).blob_root == before.blob_root,
{
    let after = before.swept(doomed);
    sequences::lemma_filter_members(before.clips, |row: ClipRowView| !doomed.hits(row));
    sequences::lemma_filter_members(
        before.links,
        |row: LinkRowView| before.survives(doomed, row.clip_id),
    );
    if before.survives(doomed, row.clip_id) {
        let i = choose|i: int|
            0 <= i < before.clips.len() && (#[trigger] before.clips[i]).id == row.clip_id
                && !doomed.hits(before.clips[i]);
        assert(after.clips.contains(before.clips[i]));
        let k = choose|k: int| 0 <= k < after.clips.len() && after.clips[k] == before.clips[i];
        assert(after.clips[k].id == row.clip_id);
    }
    if after.has_clip(row.clip_id) {
        let k = choose|k: int|
            0 <= k < after.clips.len() && (#[trigger] after.clips[k]).id == row.clip_id;
        assert(after.clips.contains(after.clips[k]));
        let i = choose|i: int| 0 <= i < before.clips.len() && before.clips[i] == after.clips[k];
        assert(before.clips[i].id == row.clip_id && !doomed.hits(before.clips[i]));
    }
}

/// Some clip shows this image file.
pub open spec fn is_used(history: RepositoryView, hash: Seq<char>) -> bool {
    exists|i: int| 0 <= i < history.clips.len() && (#[trigger] history.clips[i]).blob_hash == Some(hash)
}

/// Whatever is deleted, an image file is dropped exactly if it was used before and is not used
/// any more, and its path is then handed out to be removed.
pub proof fn unused_files_are_dropped(before: RepositoryView, doomed: Doomed<'_>, row: BlobRowView)
    ensures
        ({
            let after = before.swept(doomed);
            let dropped = is_used(before, row.hash) && !is_used(after, row.hash);
            &&& after.blobs.contains(row) <==> before.blobs.contains(row) && !dropped
            &&& before.blobs.contains(row) && dropped ==> before.orphan_paths(doomed).contains(
                row.relative_path,
            )
        }),
{
    let after = before.swept(doomed);
    let goes = |row: BlobRowView| before.is_orphaned(doomed, row.hash);
    sequences::lemma_filter_members(before.clips, |row: ClipRowView| !doomed.hits(row));
    sequences::lemma_filter_members(
        before.blobs,
        |row: BlobRowView| !before.is_orphaned(doomed, row.hash),
    );
    sequences::lemma_filter_members(before.blobs, goes);
    lemma_orphaned(before, doomed, row.hash);
    if before.blobs.contains(row) && before.is_orphaned(doomed, row.hash) {
        let gone = before.blobs.filter(goes);
        assert(gone.contains(row));
        let n = choose|n: int| 0 <= n < gone.len() && gone[n] == row;
        assert(before.orphan_paths(doomed)[n] == row.relative_path);
    }
}

/// A file is orphaned if it was used and is not used any more.
proof fn lemma_orphaned(before: RepositoryView, doomed: Doomed<'_>, hash: Seq<char>)
    ensures
        before.is_orphaned(doomed, hash) <==> is_used(before, hash) && !is_used(
            before.swept(doomed),
            hash,
        ),
{
    let after = before.swept(doomed);
    sequences::lemma_filter_members(before.clips, |row: ClipRowView| !doomed.hits(row));
    if is_used(after, hash) {
        let k = choose|k: int|
            0 <= k < after.clips.len() && (#[trigger] after.clips[k]).blob_hash == Some(hash);
        assert(after.clips.contains(after.clips[k]));
        let i = choose|i: int| 0 <= i < before.clips.len() && before.clips[i] == after.clips[k];
        assert(before.clips[i].blob_hash == Some(hash) && !doomed.hits(before.clips[i]));
    }
    if is_used(before, hash) && !before.is_orphaned(doomed, hash) {
        let i = choose|i: int|
            0 <= i < before.clips.len() && (#[trigger] before.clips[i]).blob_hash == Some(hash)
                && !doomed.hits(before.clips[i]);
        assert(after.clips.contains(before.clips[i]));
        let k = choose|k: int| 0 <= k < after.clips.len() && after.clips[k] == before.clips[i];
        assert(after.clips[k].blob_hash == Some(hash));
    }
}

/// Only files that are not used any more are handed out to be removed.
pub proof fn used_files_are_not_removed(before: RepositoryView, doomed: Doomed<'_>, path: Seq<char>)
    requires
        before.orphan_paths(doomed).contains(path),
    ensures
        exists|k: int|
            0 <= k < before.blobs.len() && (#[trigger] before.blobs[k]).relative_path == path
                && !is_used(before.swept(doomed), before.blobs[k].hash),
{
    let goes = |row: BlobRowView| before.is_orphaned(doomed, row.hash);
    sequences::lemma_filter_members(before.blobs, goes);
    let gone = before.blobs.filter(goes);
    let paths = before.orphan_paths(doomed);
    let n = choose|n: int| 0 <= n < paths.len() && paths[n] == path;
    assert(gone.contains(gone[n]));
    let k = choose|k: int| 0 <= k < before.blobs.len() && before.blobs[k] == gone[n];
    lemma_orphaned(before, doomed, before.blobs[k].hash);
    assert(before.blobs[k].relative_path == path);
}

/// As many clips are reported removed as are gone.
pub proof fn removed_clips_are_counted(
    before: RepositoryView,
    after: RepositoryView,
    doomed: Doomed<'_>,
    result: Swept,
)
    requires
        before.was_swept(after, doomed, result),
    ensures
        result.removed + after.clips.len() == before.clips.len(),
        result.orphans@.len() + after.blobs.len() == before.blobs.len(),
        forall|k: int|
            0 <= k < result.orphans@.len() ==> before.orphan_paths(doomed).contains(
                (#[trigger] result.orphans@[k])@,
            ),
{
    lemma_split_by_filter(
        before.blobs,
        |row: BlobRowView| before.is_orphaned(doomed, row.hash),
        |row: BlobRowView| !before.is_orphaned(doomed, row.hash),
    );
    assert(text::texts_of(result.orphans@).len() == result.orphans@.len());
    assert forall|k: int| 0 <= k < result.orphans@.len() implies before.orphan_paths(
        doomed,
    ).contains((#[trigger] result.orphans@[k])@) by {
        assert(text::texts_of(result.orphans@)[k] == result.orphans@[k]@);
    }
}

/// A filter and its opposite share the items out between them.
proof fn lemma_split_by_filter<A>(items: Seq<A>, goes: spec_fn(A) -> bool, stays: spec_fn(A) -> bool)
    requires
        forall|x: A| #[trigger] goes(x) == !stays(x),
    ensures
        items.filter(goes).len() + items.filter(stays).len() == items.len(),
    decreases items.len(),
{
    reveal(Seq::filter);
    if items.len() > 0 {
        lemma_split_by_filter(items.drop_last(), goes, stays);
        assert(goes(items.last()) == !stays(items.last()));
    }
}

} // verus!
