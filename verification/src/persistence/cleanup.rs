//! Deleting clips, with their links and the image files that nothing else uses.

use crate::domain::{PayloadKind, StorageStats};
use crate::persistence::rows;
use crate::persistence::rows::{BlobRow, BlobRowView, ClipRow, ClipRowView, LinkRow, LinkRowView};
use crate::persistence::upsert;
use crate::persistence::{Repository, RepositoryError, RepositoryView};
use crate::sequences;
use crate::text;
use crate::text::same_text;
use vstd::prelude::*;

verus! {

/// The longest time for which clips can be kept, in days.
pub const MAX_RETENTION_DAYS: u32 = 3650;

pub const MILLIS_PER_DAY: i64 = 86_400_000;

/// Which clips are to be deleted.
#[derive(Debug, Clone, Copy)]
pub enum Doomed<'a> {
    /// The clip with this identifier.
    Clip(&'a str),
    /// All that are not pinned.
    Unpinned,
    /// All images that are not pinned.
    UnpinnedImages,
    /// All that are not pinned and were last copied before this time.
    Older(i64),
}

impl<'a> Doomed<'a> {
    pub open spec fn hits(self, row: ClipRowView) -> bool {
        match self {
            Doomed::Clip(id) => row.id == id@,
            Doomed::Unpinned => !row.pinned,
            Doomed::UnpinnedImages => !row.pinned && row.payload_kind is Image,
            Doomed::Older(cutoff) => !row.pinned && row.last_copied_at < cutoff,
        }
    }

    fn is_hit(&self, row: &ClipRow) -> (answer: bool)
        ensures
            answer == self.hits(row@),
    {
        match self {
            Doomed::Clip(id) => same_text(row.id.as_str(), id),
            Doomed::Unpinned => !row.pinned,
            Doomed::UnpinnedImages => !row.pinned && matches!(row.payload_kind, PayloadKind::Image),
            Doomed::Older(cutoff) => !row.pinned && row.last_copied_at < *cutoff,
        }
    }
}

/// What deleting has done: how many clips are gone, and the image files to be removed.
#[derive(Debug)]
pub struct Swept {
    pub removed: usize,
    pub orphans: Vec<String>,
}

impl RepositoryView {
    /// The clips that stay.
    pub open spec fn survivors(self, doomed: Doomed<'_>) -> Seq<ClipRowView> {
        self.clips.filter(|row: ClipRowView| !doomed.hits(row))
    }

    /// A clip with this identifier stays.
    pub open spec fn survives(self, doomed: Doomed<'_>, clip_id: Seq<char>) -> bool {
        exists|i: int|
            0 <= i < self.clips.len() && (#[trigger] self.clips[i]).id == clip_id && !doomed.hits(
                self.clips[i],
            )
    }

    /// A deleted clip uses the file, and no clip that stays does.
    pub open spec fn is_orphaned(self, doomed: Doomed<'_>, hash: Seq<char>) -> bool {
        &&& exists|i: int|
            0 <= i < self.clips.len() && (#[trigger] self.clips[i]).blob_hash == Some(hash)
        &&& forall|i: int|
            0 <= i < self.clips.len() && (#[trigger] self.clips[i]).blob_hash == Some(hash)
                ==> doomed.hits(self.clips[i])
    }

    /// The history without the doomed clips, their links, and the files that only they used.
    pub open spec fn swept(self, doomed: Doomed<'_>) -> RepositoryView {
        RepositoryView {
            clips: self.survivors(doomed),
            links: self.links.filter(|row: LinkRowView| self.survives(doomed, row.clip_id)),
            blobs: self.blobs.filter(|row: BlobRowView| !self.is_orphaned(doomed, row.hash)),
            ..self
        }
    }

    /// The paths of the files that only doomed clips use.
    pub open spec fn orphan_paths(self, doomed: Doomed<'_>) -> Seq<Seq<char>> {
        self.blobs.filter(|row: BlobRowView| self.is_orphaned(doomed, row.hash)).map_values(
            |row: BlobRowView| row.relative_path,
        )
    }

    pub open spec fn was_swept(
        self,
        after: RepositoryView,
        doomed: Doomed<'_>,
        result: Swept,
    ) -> bool {
        &&& after == self.swept(doomed)
        &&& result.removed == self.clips.len() - after.clips.len()
        &&& text::texts_of(result.orphans@) == self.orphan_paths(doomed)
    }
}

/// Clips last copied before this time are deleted when clips are kept for so many days.
pub open spec fn cutoff(days: u32, now_ms: i64) -> i64 {
    let at = now_ms - days * MILLIS_PER_DAY;
    if at < i64::MIN {
        i64::MIN
    } else {
        at as i64
    }
}

impl Repository {
    fn clip_survives(&self, doomed: &Doomed<'_>, clip_id: &str) -> (answer: bool)
        ensures
            answer == self@.survives(*doomed, clip_id@),
    {
        let mut i: usize = 0;
        while i < self.clips.len()
            invariant
                i <= self.clips@.len(),
                forall|k: int|
                    0 <= k < i ==> !((#[trigger] self@.clips[k]).id == clip_id@ && !doomed.hits(
                        self@.clips[k],
                    )),
            decreases self.clips@.len() - i,
        {
            proof {
                assert(self@.clips[i as int] == self.clips@[i as int]@);
            }
            if same_text(self.clips[i].id.as_str(), clip_id) && !doomed.is_hit(&self.clips[i]) {
                return true;
            }
            i += 1;
        }
        false
    }

    fn blob_is_orphaned(&self, doomed: &Doomed<'_>, hash: &str) -> (answer: bool)
        ensures
            answer == self@.is_orphaned(*doomed, hash@),
    {
        let mut used = false;
        let mut i: usize = 0;
        while i < self.clips.len()
            invariant
                i <= self.clips@.len(),
                used <==> exists|k: int|
                    0 <= k < i && (#[trigger] self@.clips[k]).blob_hash == Some(hash@),
                forall|k: int|
                    0 <= k < i && (#[trigger] self@.clips[k]).blob_hash == Some(hash@)
                        ==> doomed.hits(self@.clips[k]),
            decreases self.clips@.len() - i,
        {
            proof {
                assert(self@.clips[i as int] == self.clips@[i as int]@);
            }
            let uses = match &self.clips[i].blob_hash {
                Some(used_hash) => same_text(used_hash.as_str(), hash),
                None => false,
            };
            if uses {
                if !doomed.is_hit(&self.clips[i]) {
                    return false;
                }
                used = true;
            }
            i += 1;
        }
        used
    }

    /// The links of clips that stay.
    fn surviving_links(&self, doomed: &Doomed<'_>) -> (links: Vec<LinkRow>)
        ensures
            rows::link_views(links@) == self@.swept(*doomed).links,
    {
        let ghost all = self@.links;
        let ghost stays = |row: LinkRowView| self@.survives(*doomed, row.clip_id);
        let mut links: Vec<LinkRow> = Vec::new();
        let mut i: usize = 0;
        proof {
            reveal(Seq::filter);
            assert(rows::link_views(links@) =~= all.take(0).filter(stays));
        }
        while i < self.links.len()
            invariant
                i <= self.links@.len(),
                all == self@.links,
                stays == (|row: LinkRowView| self@.survives(*doomed, row.clip_id)),
                rows::link_views(links@) == all.take(i as int).filter(stays),
            decreases self.links@.len() - i,
        {
            let row = &self.links[i];
            proof {
                assert(all[i as int] == row@);
                sequences::lemma_filter_take(all, stays, i as int);
            }
            if self.clip_survives(doomed, row.clip_id.as_str()) {
                let ghost before = links@;
                links.push(row.clone());
                proof {
                    assert(rows::link_views(links@) =~= rows::link_views(before).push(row@));
                }
            }
            i += 1;
        }
        proof {
            assert(all.take(i as int) =~= all);
        }
        links
    }

    /// The files that stay, and the paths of the others.
    fn split_blobs(&self, doomed: &Doomed<'_>) -> (split: (Vec<BlobRow>, Vec<String>))
        ensures
            rows::blob_views(split.0@) == self@.swept(*doomed).blobs,
            text::texts_of(split.1@) == self@.orphan_paths(*doomed),
    {
        let ghost all = self@.blobs;
        let ghost stays = |row: BlobRowView| !self@.is_orphaned(*doomed, row.hash);
        let ghost goes = |row: BlobRowView| self@.is_orphaned(*doomed, row.hash);
        let ghost path = |row: BlobRowView| row.relative_path;
        let mut blobs: Vec<BlobRow> = Vec::new();
        let mut orphans: Vec<String> = Vec::new();
        let mut i: usize = 0;
        proof {
            reveal(Seq::filter);
            assert(rows::blob_views(blobs@) =~= all.take(0).filter(stays));
            assert(text::texts_of(orphans@) =~= all.take(0).filter(goes).map_values(path));
        }
        while i < self.blobs.len()
            invariant
                i <= self.blobs@.len(),
                all == self@.blobs,
                stays == (|row: BlobRowView| !self@.is_orphaned(*doomed, row.hash)),
                goes == (|row: BlobRowView| self@.is_orphaned(*doomed, row.hash)),
                path == (|row: BlobRowView| row.relative_path),
                rows::blob_views(blobs@) == all.take(i as int).filter(stays),
                text::texts_of(orphans@) == all.take(i as int).filter(goes).map_values(path),
            decreases self.blobs@.len() - i,
        {
            let row = &self.blobs[i];
            proof {
                assert(all[i as int] == row@);
                sequences::lemma_filter_take(all, stays, i as int);
                sequences::lemma_filter_take(all, goes, i as int);
            }
            if self.blob_is_orphaned(doomed, row.hash.as_str()) {
                let ghost before = orphans@;
                let ghost chosen = all.take(i as int).filter(goes);
                orphans.push(row.relative_path.clone());
                proof {
                    assert(text::texts_of(orphans@) =~= text::texts_of(before).push(
                        row.relative_path@,
                    ));
                    assert(chosen.push(row@).map_values(path) =~= chosen.map_values(path).push(
                        path(row@),
                    ));
                }
            } else {
                let ghost before = blobs@;
                blobs.push(row.clone());
                proof {
                    assert(rows::blob_views(blobs@) =~= rows::blob_views(before).push(row@));
                }
            }
            i += 1;
        }
        proof {
            assert(all.take(i as int) =~= all);
        }
        (blobs, orphans)
    }

    /// Deletes clips.
    fn delete_matching(&mut self, doomed: Doomed<'_>) -> (result: Swept)
        requires
            old(self)@.wf(),
        ensures
            old(self)@.was_swept(final(self)@, doomed, result),
            final(self)@.wf(),
    {
        let links = self.surviving_links(&doomed);
        let (blobs, orphans) = self.split_blobs(&doomed);
        let ghost before = self@;
        let ghost stays = |row: ClipRowView| !doomed.hits(row);
        let mut clips: Vec<ClipRow> = Vec::new();
        std::mem::swap(&mut clips, &mut self.clips);
        let mut kept: Vec<ClipRow> = Vec::new();
        let total: usize = clips.len();
        let ghost all = clips@;
        proof {
            reveal(Seq::filter);
            assert(rows::clip_views(kept@) =~= rows::clip_views(all).take(0).filter(stays));
        }
        for row in iter: clips.into_iter()
            invariant
                iter.seq() == all,
                stays == (|row: ClipRowView| !doomed.hits(row)),
                rows::clip_views(kept@) == rows::clip_views(all).take(iter.index()).filter(stays),
                kept@.len() <= iter.index(),
        {
            proof {
                sequences::lemma_filter_take(rows::clip_views(all), stays, iter.index());
            }
            if !doomed.is_hit(&row) {
                let ghost kept_before = kept@;
                kept.push(row);
                proof {
                    assert(rows::clip_views(kept@) =~= rows::clip_views(kept_before).push(row@));
                }
            }
        }
        let removed: usize = total - kept.len();
        self.clips = kept;
        self.links = links;
        self.blobs = blobs;
        proof {
            assert(rows::clip_views(all).take(all.len() as int) =~= rows::clip_views(all));
            assert(self@ =~= before.swept(doomed));
            lemma_swept_wf(before, doomed);
        }
        Swept { removed, orphans }
    }

    /// Deletes a clip; there may be none. The paths of files that nothing uses any more are
    /// returned.
    pub fn delete_clip(&mut self, id: &str) -> (orphans: Vec<String>)
        requires
            old(self)@.wf(),
        ensures
            final(self)@ == old(self)@.swept(Doomed::Clip(id)),
            text::texts_of(orphans@) == old(self)@.orphan_paths(Doomed::Clip(id)),
            final(self)@.wf(),
    {
        self.delete_matching(Doomed::Clip(id)).orphans
    }

    /// Deletes all clips that are not pinned.
    pub fn clear_unpinned(&mut self) -> (result: Swept)
        requires
            old(self)@.wf(),
        ensures
            old(self)@.was_swept(final(self)@, Doomed::Unpinned, result),
            final(self)@.wf(),
    {
        self.delete_matching(Doomed::Unpinned)
    }

    /// Deletes all images that are not pinned.
    pub fn clear_unpinned_images(&mut self) -> (result: Swept)
        requires
            old(self)@.wf(),
        ensures
            old(self)@.was_swept(final(self)@, Doomed::UnpinnedImages, result),
            final(self)@.wf(),
    {
        self.delete_matching(Doomed::UnpinnedImages)
    }

    /// Deletes what has not been copied for so many days and is not pinned.
    pub fn cleanup(&mut self, days: u32, now_ms: i64) -> (result: Result<Swept, RepositoryError>)
        requires
            old(self)@.wf(),
        ensures
            if 1 <= days <= MAX_RETENTION_DAYS {
                result matches Ok(swept) && old(self)@.was_swept(
                    final(self)@,
                    Doomed::Older(cutoff(days, now_ms)),
                    swept,
                )
            } else {
                result == Err::<Swept, RepositoryError>(RepositoryError::InvalidRetention { days })
                    && final(self)@ == old(self)@
            },
            final(self)@.wf(),
    {
        if days < 1 || days > MAX_RETENTION_DAYS {
            return Err(RepositoryError::InvalidRetention { days });
        }
        let retention: i64 = days as i64 * MILLIS_PER_DAY;
        let before: i64 = if now_ms < i64::MIN + retention {
            i64::MIN
        } else {
            now_ms - retention
        };
        Ok(self.delete_matching(Doomed::Older(before)))
    }

    /// How many image files there are and how much they take.
    pub fn storage_stats(&self) -> (result: Result<StorageStats, RepositoryError>)
        ensures
            if upsert::total_bytes(self@.blobs) <= i64::MAX {
                result matches Ok(stats) && stats.image_count == self@.blobs.len()
                    && stats.image_bytes == upsert::total_bytes(self@.blobs)
                    && stats.orphan_files_removed == 0
            } else {
                result == Err::<StorageStats, RepositoryError>(RepositoryError::SizeOverflow)
            },
    {
        match self.blob_bytes() {
            Some(image_bytes) => Ok(
                StorageStats {
                    image_count: self.blobs.len() as u64,
                    image_bytes,
                    orphan_files_removed: 0,
                },
            ),
            None => Err(RepositoryError::SizeOverflow),
        }
    }

    /// Of the files found in the store, those that no row knows and that are to be removed.
    pub fn cleanup_orphan_blobs(&self, files: &Vec<String>) -> (orphans: Vec<String>)
        ensures
            text::texts_of(orphans@) == if self@.blob_root is Some {
                crate::blob_store::unreferenced(
                    text::texts_of(files@),
                    self@.blobs.map_values(|row: BlobRowView| row.relative_path),
                )
            } else {
                Seq::<Seq<char>>::empty()
            },
    {
        if self.blob_store.is_none() {
            let orphans: Vec<String> = Vec::new();
            proof {
                assert(text::texts_of(orphans@) =~= Seq::empty());
            }
            return orphans;
        }
        let mut referenced: Vec<String> = Vec::new();
        let ghost paths = self@.blobs.map_values(|row: BlobRowView| row.relative_path);
        let mut i: usize = 0;
        while i < self.blobs.len()
            invariant
                i <= self.blobs@.len(),
                paths == self@.blobs.map_values(|row: BlobRowView| row.relative_path),
                text::texts_of(referenced@) =~= paths.take(i as int),
            decreases self.blobs@.len() - i,
        {
            proof {
                assert(self@.blobs[i as int] == self.blobs@[i as int]@);
            }
            let ghost before = referenced@;
            referenced.push(self.blobs[i].relative_path.clone());
            proof {
                assert(text::texts_of(referenced@) =~= text::texts_of(before).push(
                    paths[i as int],
                ));
            }
            i += 1;
        }
        proof {
            assert(paths.take(i as int) =~= paths);
        }
        crate::blob_store::cleanup_orphans(files, &referenced)
    }
}

proof fn lemma_swept_wf(repository: RepositoryView, doomed: Doomed<'_>)
    requires
        repository.wf(),
    ensures
        repository.swept(doomed).wf(),
{
    let next = repository.swept(doomed);
    let keep_clip = |row: ClipRowView| !doomed.hits(row);
    let keep_link = |row: LinkRowView| repository.survives(doomed, row.clip_id);
    let keep_blob = |row: BlobRowView| !repository.is_orphaned(doomed, row.hash);
    super::lemma_kept_clips_are_distinct(repository.clips, keep_clip);
    sequences::lemma_filter_pairs(
        repository.links,
        keep_link,
        |a: LinkRowView, b: LinkRowView| !super::same_link(a, b),
    );
    sequences::lemma_filter_pairs(
        repository.blobs,
        keep_blob,
        |a: BlobRowView, b: BlobRowView| a.hash != b.hash && a.relative_path != b.relative_path,
    );
    sequences::lemma_filter_members(repository.clips, keep_clip);
    sequences::lemma_filter_members(repository.links, keep_link);
    sequences::lemma_filter_members(repository.blobs, keep_blob);
    assert forall|i: int| 0 <= i < next.links.len() implies next.has_clip(
        (#[trigger] next.links[i]).clip_id,
    ) && next.has_category(next.links[i].category_id) by {
        assert(next.links.contains(next.links[i]));
        let m = choose|m: int|
            0 <= m < repository.links.len() && repository.links[m] == next.links[i];
        let k = choose|k: int|
            0 <= k < repository.clips.len() && (#[trigger] repository.clips[k]).id
                == next.links[i].clip_id && !doomed.hits(repository.clips[k]);
        super::lemma_kept_clip(repository.clips, keep_clip, k);
        let n = choose|n: int| 0 <= n < next.clips.len() && next.clips[n] == repository.clips[k];
        assert(next.clips[n].id == next.links[i].clip_id);
        assert(repository.has_category(repository.links[m].category_id));
        let c = choose|c: int|
            0 <= c < repository.categories.len() && (
            #[trigger] repository.categories[c]).category.id == repository.links[m].category_id;
        assert(next.categories[c].category.id == next.links[i].category_id);
    }
    assert forall|i: int|
        0 <= i < next.clips.len() && (
        #[trigger] next.clips[i]).blob_hash is Some implies next.has_blob(
        next.clips[i].blob_hash->0,
    ) by {
        assert(next.clips.contains(next.clips[i]));
        let k = choose|k: int|
            0 <= k < repository.clips.len() && repository.clips[k] == next.clips[i];
        assert(repository.clips[k].blob_hash is Some);
        let hash = repository.clips[k].blob_hash->0;
        assert(repository.has_blob(hash));
        let b = choose|b: int|
            0 <= b < repository.blobs.len() && (#[trigger] repository.blobs[b]).hash == hash;
        assert(!doomed.hits(repository.clips[k]));
        assert(!repository.is_orphaned(doomed, hash));
        assert(repository.blobs.contains(repository.blobs[b]));
        assert(next.blobs.contains(repository.blobs[b]));
        let n = choose|n: int| 0 <= n < next.blobs.len() && next.blobs[n] == repository.blobs[b];
        assert(next.blobs[n].hash == hash);
    }
}

/// Neither clearing nor cleaning up takes a pinned clip away.
pub proof fn pinned_clips_survive(repository: RepositoryView, doomed: Doomed<'_>, at: int)
    requires
        doomed !is Clip,
        0 <= at < repository.clips.len(),
        repository.clips[at].pinned,
    ensures
        repository.swept(doomed).clips.contains(repository.clips[at]),
{
    super::lemma_kept_clip(repository.clips, |row: ClipRowView| !doomed.hits(row), at);
}

/// Cleaning up takes away exactly the clips that are not pinned and older than the cutoff.
pub proof fn cleanup_takes_old_unpinned_clips(
    repository: RepositoryView,
    days: u32,
    now_ms: i64,
    row: ClipRowView,
)
    ensures
        repository.swept(Doomed::Older(cutoff(days, now_ms))).clips.contains(row) <==> (
        repository.clips.contains(row) && (row.pinned || row.last_copied_at >= cutoff(
            days,
            now_ms,
        ))),
{
    let doomed = Doomed::Older(cutoff(days, now_ms));
    sequences::lemma_filter_members(repository.clips, |row: ClipRowView| !doomed.hits(row));
}

/// Deleting a clip takes away that clip and its links only: every other clip, and every link of
/// another clip, is left as it was, and so are the categories.
pub proof fn deleting_leaves_others_alone(repository: RepositoryView, id: &str)
    requires
        repository.wf(),
    ensures
        forall|row: ClipRowView|
            repository.swept(Doomed::Clip(id)).clips.contains(row) <==> (
            #[trigger] repository.clips.contains(row) && row.id != id@),
        forall|row: LinkRowView|
            repository.swept(Doomed::Clip(id)).links.contains(row) <==> (
            #[trigger] repository.links.contains(row) && row.clip_id != id@),
        repository.swept(Doomed::Clip(id)).categories == repository.categories,
{
    let doomed = Doomed::Clip(id);
    sequences::lemma_filter_members(repository.clips, |row: ClipRowView| !doomed.hits(row));
    sequences::lemma_filter_members(
        repository.links,
        |row: LinkRowView| repository.survives(doomed, row.clip_id),
    );
    assert forall|row: LinkRowView|
        repository.swept(doomed).links.contains(row) <==> (#[trigger] repository.links.contains(row)
            && row.clip_id != id@) by {
        if repository.links.contains(row) && row.clip_id != id@ {
            let m = choose|m: int| 0 <= m < repository.links.len() && repository.links[m] == row;
            assert(repository.has_clip(repository.links[m].clip_id));
            let k = choose|k: int|
                0 <= k < repository.clips.len() && (#[trigger] repository.clips[k]).id
                    == row.clip_id;
            assert(!doomed.hits(repository.clips[k]));
            assert(repository.survives(doomed, row.clip_id));
        }
    }
}

/// An image file stays as long as a clip that stays uses it, and goes with the last one.
pub proof fn files_go_with_their_last_clip(
    repository: RepositoryView,
    doomed: Doomed<'_>,
    at: int,
    file: int,
)
    requires
        repository.wf(),
        0 <= at < repository.clips.len(),
        0 <= file < repository.blobs.len(),
        repository.clips[at].blob_hash == Some(repository.blobs[file].hash),
    ensures
        !doomed.hits(repository.clips[at]) ==> repository.swept(doomed).has_blob(
            repository.blobs[file].hash,
        ),
        (forall|k: int|
            0 <= k < repository.clips.len() && (#[trigger] repository.clips[k]).blob_hash == Some(
                repository.blobs[file].hash,
            ) ==> doomed.hits(repository.clips[k])) ==> !repository.swept(doomed).has_blob(
            repository.blobs[file].hash,
        ) && repository.orphan_paths(doomed).contains(repository.blobs[file].relative_path),
{
    let hash = repository.blobs[file].hash;
    let keep_blob = |row: BlobRowView| !repository.is_orphaned(doomed, row.hash);
    let goes = |row: BlobRowView| repository.is_orphaned(doomed, row.hash);
    let next = repository.swept(doomed);
    sequences::lemma_filter_members(repository.blobs, keep_blob);
    sequences::lemma_filter_members(repository.blobs, goes);
    assert(repository.blobs.contains(repository.blobs[file]));
    if !doomed.hits(repository.clips[at]) {
        assert(next.blobs.contains(repository.blobs[file]));
        let n = choose|n: int| 0 <= n < next.blobs.len() && next.blobs[n] == repository.blobs[file];
        assert(next.blobs[n].hash == hash);
    }
    if forall|k: int|
        0 <= k < repository.clips.len() && (#[trigger] repository.clips[k]).blob_hash == Some(hash)
            ==> doomed.hits(repository.clips[k]) {
        assert(repository.is_orphaned(doomed, hash));
        assert forall|n: int| 0 <= n < next.blobs.len() implies (#[trigger] next.blobs[n]).hash
            != hash by {
            assert(next.blobs.contains(next.blobs[n]));
        }
        let gone = repository.blobs.filter(goes);
        assert(gone.contains(repository.blobs[file]));
        let n = choose|n: int| 0 <= n < gone.len() && gone[n] == repository.blobs[file];
        assert(repository.orphan_paths(doomed)[n] == repository.blobs[file].relative_path);
    }
}

} // verus!
