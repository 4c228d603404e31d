//! The stored history: clips, categories, their links, and image files.

pub mod access;
pub mod attach;
pub mod categories;
pub mod check;
pub mod cleanup;
pub mod error;
pub mod import;
pub mod laws;
pub mod legacy;
pub mod migrations;
pub mod query;
pub mod rows;
pub mod search;
pub mod summary;
pub mod upsert;

pub use error::RepositoryError;

use crate::blob_store::BlobStore;
use crate::persistence::rows::{BlobRow, BlobRowView, CategoryRow, CategoryRowView, ClipRow,
    ClipRowView, LinkRow, LinkRowView};
use crate::sequences;
use crate::text::same_text;
use vstd::prelude::*;

verus! {

/// How far apart a copy and the browser's report of it may be reconciled, in milliseconds.
pub const METADATA_RECONCILE_WINDOW_MS: i64 = 5_000;

/// The history in memory. Rows keep the order in which they were inserted.
pub struct Repository {
    clips: Vec<ClipRow>,
    categories: Vec<CategoryRow>,
    links: Vec<LinkRow>,
    blobs: Vec<BlobRow>,
    blob_store: Option<BlobStore>,
}

#[verifier::ext_equal]
pub struct RepositoryView {
    pub clips: Seq<ClipRowView>,
    pub categories: Seq<CategoryRowView>,
    pub links: Seq<LinkRowView>,
    pub blobs: Seq<BlobRowView>,
    /// The directory of the image files, if there is one.
    pub blob_root: Option<Seq<char>>,
}

/// The directory of an optional store.
pub open spec fn root_of(store: Option<BlobStore>) -> Option<Seq<char>> {
    match store {
        Some(store) => Some(store@),
        None => None,
    }
}

impl View for Repository {
    type V = RepositoryView;

    closed spec fn view(&self) -> RepositoryView {
        RepositoryView {
            clips: rows::clip_views(self.clips@),
            categories: rows::category_views(self.categories@),
            links: rows::link_views(self.links@),
            blobs: rows::blob_views(self.blobs@),
            blob_root: root_of(self.blob_store),
        }
    }
}

/// No two clips have the same identifier, nor the same hash and domain; every clip has been
/// copied.
pub open spec fn clips_are_distinct(clips: Seq<ClipRowView>) -> bool {
    &&& forall|i: int, j: int|
        0 <= i < j < clips.len() ==> (#[trigger] clips[i]).id != (#[trigger] clips[j]).id
    &&& forall|i: int, j: int|
        0 <= i < j < clips.len() ==> !same_slot(#[trigger] clips[i], #[trigger] clips[j])
    &&& forall|i: int| 0 <= i < clips.len() ==> (#[trigger] clips[i]).copy_count >= 1
}

/// Two clips with the same hash and domain.
pub open spec fn same_slot(a: ClipRowView, b: ClipRowView) -> bool {
    a.content_hash == b.content_hash && a.domain_key == b.domain_key
}

/// No two categories have the same identifier or the same normalized name.
pub open spec fn categories_are_distinct(categories: Seq<CategoryRowView>) -> bool {
    forall|i: int, j: int|
        0 <= i < j < categories.len() ==> (#[trigger] categories[i]).category.id != (
        #[trigger] categories[j]).category.id && categories[i].normalized_name
            != categories[j].normalized_name
}

/// No clip is linked to a category twice.
pub open spec fn links_are_distinct(links: Seq<LinkRowView>) -> bool {
    forall|i: int, j: int|
        0 <= i < j < links.len() ==> !same_link(#[trigger] links[i], #[trigger] links[j])
}

pub open spec fn same_link(a: LinkRowView, b: LinkRowView) -> bool {
    a.clip_id == b.clip_id && a.category_id == b.category_id
}

/// No two image files have the same hash or the same path.
pub open spec fn blobs_are_distinct(blobs: Seq<BlobRowView>) -> bool {
    forall|i: int, j: int|
        0 <= i < j < blobs.len() ==> (#[trigger] blobs[i]).hash != (#[trigger] blobs[j]).hash
            && blobs[i].relative_path != blobs[j].relative_path
}

impl RepositoryView {
    pub open spec fn has_clip(self, id: Seq<char>) -> bool {
        exists|i: int| 0 <= i < self.clips.len() && (#[trigger] self.clips[i]).id == id
    }

    pub open spec fn has_category(self, id: Seq<char>) -> bool {
        exists|i: int|
            0 <= i < self.categories.len() && (#[trigger] self.categories[i]).category.id == id
    }

    pub open spec fn has_blob(self, hash: Seq<char>) -> bool {
        exists|i: int| 0 <= i < self.blobs.len() && (#[trigger] self.blobs[i]).hash == hash
    }

    pub open spec fn has_link(self, clip_id: Seq<char>, category_id: Seq<char>) -> bool {
        exists|i: int|
            0 <= i < self.links.len() && (#[trigger] self.links[i]).clip_id == clip_id
                && self.links[i].category_id == category_id
    }

    /// The rules that the tables keep.
    pub open spec fn wf(self) -> bool {
        &&& clips_are_distinct(self.clips)
        &&& categories_are_distinct(self.categories)
        &&& links_are_distinct(self.links)
        &&& blobs_are_distinct(self.blobs)
        &&& forall|i: int|
            0 <= i < self.links.len() ==> self.has_clip((#[trigger] self.links[i]).clip_id)
                && self.has_category(self.links[i].category_id)
        &&& forall|i: int|
            0 <= i < self.clips.len() && (#[trigger] self.clips[i]).blob_hash is Some
                ==> self.has_blob(self.clips[i].blob_hash->0)
    }

    /// The position of the clip with this identifier, or the number of clips.
    pub open spec fn clip_position(self, id: Seq<char>) -> int {
        sequences::first_index(self.clips, |row: ClipRowView| row.id == id)
    }

    /// The position of the clip with this hash and domain, or the number of clips.
    pub open spec fn slot_position(self, hash: Seq<char>, domain_key: Seq<char>) -> int {
        sequences::first_index(
            self.clips,
            |row: ClipRowView| row.content_hash == hash && row.domain_key == domain_key,
        )
    }

    /// The position of the image file with this hash, or the number of files.
    pub open spec fn blob_position(self, hash: Seq<char>) -> int {
        sequences::first_index(self.blobs, |row: BlobRowView| row.hash == hash)
    }

    /// The position of the category with this identifier, or the number of categories.
    pub open spec fn category_position(self, id: Seq<char>) -> int {
        sequences::first_index(self.categories, |row: CategoryRowView| row.category.id == id)
    }

    pub open spec fn with_clip(self, at: int, row: ClipRowView) -> RepositoryView {
        RepositoryView { clips: self.clips.update(at, row), ..self }
    }

    pub open spec fn with_new_clip(self, row: ClipRowView) -> RepositoryView {
        RepositoryView { clips: self.clips.push(row), ..self }
    }

    /// Without the clip of this identifier and its links.
    pub open spec fn without_clip(self, id: Seq<char>) -> RepositoryView {
        RepositoryView {
            clips: self.clips.filter(|row: ClipRowView| row.id != id),
            links: self.links.filter(|row: LinkRowView| row.clip_id != id),
            ..self
        }
    }

    pub open spec fn empty() -> RepositoryView {
        RepositoryView {
            clips: Seq::empty(),
            categories: Seq::empty(),
            links: Seq::empty(),
            blobs: Seq::empty(),
            blob_root: None,
        }
    }
}

impl Repository {
    /// An empty history without image files.
    pub fn open_in_memory() -> (repository: Self)
        ensures
            repository@ == RepositoryView::empty(),
            repository@.wf(),
    {
        let repository = Repository {
            clips: Vec::new(),
            categories: Vec::new(),
            links: Vec::new(),
            blobs: Vec::new(),
            blob_store: None,
        };
        assert(repository@ =~= RepositoryView::empty());
        repository
    }

    /// An empty history with image files in a directory.
    pub fn open_in_memory_with_blobs(blob_dir: &str) -> (repository: Self)
        ensures
            repository@ == (RepositoryView {
                blob_root: Some(blob_dir@),
                ..RepositoryView::empty()
            }),
            repository@.wf(),
    {
        let mut repository = Repository::open_in_memory();
        repository.blob_store = Some(BlobStore::new(blob_dir));
        repository
    }

    pub fn clip_rows(&self) -> (clips: &Vec<ClipRow>)
        ensures
            rows::clip_views(clips@) == self@.clips,
    {
        &self.clips
    }

    pub fn category_rows(&self) -> (categories: &Vec<CategoryRow>)
        ensures
            rows::category_views(categories@) == self@.categories,
    {
        &self.categories
    }

    pub fn link_rows(&self) -> (links: &Vec<LinkRow>)
        ensures
            rows::link_views(links@) == self@.links,
    {
        &self.links
    }

    pub fn blob_rows(&self) -> (blobs: &Vec<BlobRow>)
        ensures
            rows::blob_views(blobs@) == self@.blobs,
    {
        &self.blobs
    }

    /// Takes out a clip with its links.
    fn remove_clip_row(&mut self, id: &str)
        ensures
            final(self)@ == old(self)@.without_clip(id@),
    {
        let ghost keep_clip = |row: ClipRowView| row.id != id@;
        let ghost keep_link = |row: LinkRowView| row.clip_id != id@;
        let mut clips: Vec<ClipRow> = Vec::new();
        std::mem::swap(&mut clips, &mut self.clips);
        let mut kept: Vec<ClipRow> = Vec::new();
        let ghost all = clips@;
        proof {
            reveal(Seq::filter);
            assert(rows::clip_views(kept@) =~= rows::clip_views(all).take(0).filter(keep_clip));
        }
        for row in iter: clips.into_iter()
            invariant
                iter.seq() == all,
                keep_clip == (|row: ClipRowView| row.id != id@),
                rows::clip_views(kept@) == rows::clip_views(all).take(iter.index()).filter(
                    keep_clip,
                ),
        {
            proof {
                sequences::lemma_filter_take(rows::clip_views(all), keep_clip, iter.index());
            }
            if !same_text(row.id.as_str(), id) {
                let ghost before = kept@;
                kept.push(row);
                proof {
                    assert(rows::clip_views(kept@) =~= rows::clip_views(before).push(row@));
                }
            }
        }
        self.clips = kept;
        proof {
            assert(rows::clip_views(all).take(all.len() as int) =~= rows::clip_views(all));
        }
        let mut links: Vec<LinkRow> = Vec::new();
        std::mem::swap(&mut links, &mut self.links);
        let mut kept_links: Vec<LinkRow> = Vec::new();
        let ghost all_links = links@;
        proof {
            reveal(Seq::filter);
            assert(rows::link_views(kept_links@) =~= rows::link_views(all_links).take(0).filter(
                keep_link,
            ));
        }
        for row in iter: links.into_iter()
            invariant
                iter.seq() == all_links,
                keep_link == (|row: LinkRowView| row.clip_id != id@),
                rows::link_views(kept_links@) == rows::link_views(all_links).take(
                    iter.index(),
                ).filter(keep_link),
        {
            proof {
                sequences::lemma_filter_take(rows::link_views(all_links), keep_link, iter.index());
            }
            if !same_text(row.clip_id.as_str(), id) {
                let ghost before = kept_links@;
                kept_links.push(row);
                proof {
                    assert(rows::link_views(kept_links@) =~= rows::link_views(before).push(row@));
                }
            }
        }
        self.links = kept_links;
        proof {
            assert(rows::link_views(all_links).take(all_links.len() as int) =~= rows::link_views(
                all_links,
            ));
        }
    }

    fn find_clip(&self, id: &str) -> (at: usize)
        ensures
            at == self@.clip_position(id@),
            at <= self@.clips.len(),
            at < self@.clips.len() ==> self@.clips[at as int].id == id@,
            at < self@.clips.len() <==> self@.has_clip(id@),
    {
        let ghost wanted = |row: ClipRowView| row.id == id@;
        let mut i: usize = 0;
        while i < self.clips.len() && !same_text(self.clips[i].id.as_str(), id)
            invariant
                i <= self.clips@.len(),
                wanted == (|row: ClipRowView| row.id == id@),
                forall|k: int| 0 <= k < i ==> !wanted(#[trigger] self@.clips[k]),
            ensures
                i < self.clips@.len() ==> wanted(self@.clips[i as int]),
            decreases self.clips@.len() - i,
        {
            proof {
                assert(self@.clips[i as int].id == self.clips@[i as int].id@);
            }
            i += 1;
        }
        proof {
            sequences::lemma_is_first_index(self@.clips, wanted, i as int);
        }
        i
    }

    fn find_slot(&self, hash: &str, domain_key: &str) -> (at: usize)
        ensures
            at == self@.slot_position(hash@, domain_key@),
            at <= self@.clips.len(),
            at < self@.clips.len() ==> self@.clips[at as int].content_hash == hash@
                && self@.clips[at as int].domain_key == domain_key@,
            at == self@.clips.len() ==> forall|k: int|
                0 <= k < self@.clips.len() ==> !((#[trigger] self@.clips[k]).content_hash == hash@
                    && self@.clips[k].domain_key == domain_key@),
    {
        let ghost wanted = |row: ClipRowView|
            row.content_hash == hash@ && row.domain_key == domain_key@;
        let mut i: usize = 0;
        while i < self.clips.len() && !(same_text(self.clips[i].content_hash.as_str(), hash)
            && same_text(self.clips[i].domain_key.as_str(), domain_key))
            invariant
                i <= self.clips@.len(),
                wanted == (|row: ClipRowView|
                    row.content_hash == hash@ && row.domain_key == domain_key@),
                forall|k: int| 0 <= k < i ==> !wanted(#[trigger] self@.clips[k]),
            ensures
                i < self.clips@.len() ==> wanted(self@.clips[i as int]),
            decreases self.clips@.len() - i,
        {
            proof {
                assert(self@.clips[i as int] == self.clips@[i as int]@);
            }
            i += 1;
        }
        proof {
            sequences::lemma_is_first_index(self@.clips, wanted, i as int);
            assert forall|k: int|
                i == self@.clips.len() && 0 <= k < self@.clips.len() implies !((
            #[trigger] self@.clips[k]).content_hash == hash@ && self@.clips[k].domain_key
                == domain_key@) by {
                assert(!wanted(self@.clips[k]));
            }
        }
        i
    }

    fn find_blob(&self, hash: &str) -> (at: usize)
        ensures
            at == self@.blob_position(hash@),
            at <= self@.blobs.len(),
            at < self@.blobs.len() ==> self@.blobs[at as int].hash == hash@,
            at < self@.blobs.len() <==> self@.has_blob(hash@),
    {
        let ghost wanted = |row: BlobRowView| row.hash == hash@;
        let mut i: usize = 0;
        while i < self.blobs.len() && !same_text(self.blobs[i].hash.as_str(), hash)
            invariant
                i <= self.blobs@.len(),
                wanted == (|row: BlobRowView| row.hash == hash@),
                forall|k: int| 0 <= k < i ==> !wanted(#[trigger] self@.blobs[k]),
            ensures
                i < self.blobs@.len() ==> wanted(self@.blobs[i as int]),
            decreases self.blobs@.len() - i,
        {
            proof {
                assert(self@.blobs[i as int].hash == self.blobs@[i as int].hash@);
            }
            i += 1;
        }
        proof {
            sequences::lemma_is_first_index(self@.blobs, wanted, i as int);
        }
        i
    }

    fn find_category(&self, id: &str) -> (at: usize)
        ensures
            at == self@.category_position(id@),
            at <= self@.categories.len(),
            at < self@.categories.len() ==> self@.categories[at as int].category.id == id@,
            at < self@.categories.len() <==> self@.has_category(id@),
    {
        let ghost wanted = |row: CategoryRowView| row.category.id == id@;
        let mut i: usize = 0;
        while i < self.categories.len() && !same_text(self.categories[i].category.id.as_str(), id)
            invariant
                i <= self.categories@.len(),
                wanted == (|row: CategoryRowView| row.category.id == id@),
                forall|k: int| 0 <= k < i ==> !wanted(#[trigger] self@.categories[k]),
            ensures
                i < self.categories@.len() ==> wanted(self@.categories[i as int]),
            decreases self.categories@.len() - i,
        {
            proof {
                assert(self@.categories[i as int].category.id
                    == self.categories@[i as int].category.id@);
            }
            i += 1;
        }
        proof {
            sequences::lemma_is_first_index(self@.categories, wanted, i as int);
        }
        i
    }
}

/// Replacing a clip by one with the same identifier keeps the rules, if its hash and domain are
/// its own and its image file exists.
proof fn lemma_with_clip_wf(repository: RepositoryView, at: int, row: ClipRowView)
    requires
        repository.wf(),
        0 <= at < repository.clips.len(),
        row.id == repository.clips[at].id,
        forall|k: int|
            0 <= k < repository.clips.len() && k != at ==> !same_slot(
                #[trigger] repository.clips[k],
                row,
            ),
        row.copy_count >= 1,
        row.blob_hash is Some ==> repository.has_blob(row.blob_hash->0),
    ensures
        repository.with_clip(at, row).wf(),
{
    let next = repository.with_clip(at, row);
    assert forall|i: int, j: int| 0 <= i < j < next.clips.len() implies !same_slot(
        #[trigger] next.clips[i],
        #[trigger] next.clips[j],
    ) by {
        if i == at {
            assert(!same_slot(repository.clips[j], row));
        } else if j == at {
            assert(!same_slot(repository.clips[i], row));
        } else {
            assert(!same_slot(repository.clips[i], repository.clips[j]));
        }
    }
    assert forall|i: int, j: int| 0 <= i < j < next.clips.len() implies (
    #[trigger] next.clips[i]).id != (#[trigger] next.clips[j]).id by {
        assert(repository.clips[i].id != repository.clips[j].id);
    }
    assert forall|i: int| 0 <= i < next.links.len() implies next.has_clip(
        (#[trigger] next.links[i]).clip_id,
    ) && next.has_category(next.links[i].category_id) by {
        assert(repository.has_clip(repository.links[i].clip_id));
        let k = choose|k: int|
            0 <= k < repository.clips.len() && (#[trigger] repository.clips[k]).id
                == repository.links[i].clip_id;
        assert(next.clips[k].id == repository.clips[k].id);
        assert(repository.has_category(repository.links[i].category_id));
        let c = choose|c: int|
            0 <= c < repository.categories.len() && (
            #[trigger] repository.categories[c]).category.id == repository.links[i].category_id;
        assert(next.categories[c].category.id == repository.links[i].category_id);
    }
    assert forall|hash: Seq<char>| repository.has_blob(hash) implies next.has_blob(hash) by {
        let b = choose|b: int|
            0 <= b < repository.blobs.len() && (#[trigger] repository.blobs[b]).hash == hash;
        assert(next.blobs[b].hash == hash);
    }
    assert forall|i: int|
        0 <= i < next.clips.len() && (
        #[trigger] next.clips[i]).blob_hash is Some implies next.has_blob(
        next.clips[i].blob_hash->0,
    ) by {
        if i != at {
            assert(repository.clips[i].blob_hash is Some);
        }
    }
}

/// Adding a clip whose identifier is new keeps the rules, if its hash and domain are its own and
/// its image file exists.
proof fn lemma_with_new_clip_wf(repository: RepositoryView, row: ClipRowView)
    requires
        repository.wf(),
        !repository.has_clip(row.id),
        forall|k: int|
            0 <= k < repository.clips.len() ==> !same_slot(#[trigger] repository.clips[k], row),
        row.copy_count >= 1,
        row.blob_hash is Some ==> repository.has_blob(row.blob_hash->0),
    ensures
        repository.with_new_clip(row).wf(),
{
    let next = repository.with_new_clip(row);
    let last = repository.clips.len() as int;
    assert forall|i: int, j: int| 0 <= i < j < next.clips.len() implies !same_slot(
        #[trigger] next.clips[i],
        #[trigger] next.clips[j],
    ) && next.clips[i].id != next.clips[j].id by {
        if j == last {
            assert(!same_slot(repository.clips[i], row));
            assert(repository.clips[i].id != row.id);
        } else {
            assert(!same_slot(repository.clips[i], repository.clips[j]));
            assert(repository.clips[i].id != repository.clips[j].id);
        }
    }
    assert forall|i: int| 0 <= i < next.links.len() implies next.has_clip(
        (#[trigger] next.links[i]).clip_id,
    ) && next.has_category(next.links[i].category_id) by {
        assert(repository.has_clip(repository.links[i].clip_id));
        let k = choose|k: int|
            0 <= k < repository.clips.len() && (#[trigger] repository.clips[k]).id
                == repository.links[i].clip_id;
        assert(next.clips[k].id == repository.clips[k].id);
        assert(repository.has_category(repository.links[i].category_id));
        let c = choose|c: int|
            0 <= c < repository.categories.len() && (
            #[trigger] repository.categories[c]).category.id == repository.links[i].category_id;
        assert(next.categories[c].category.id == repository.links[i].category_id);
    }
    assert forall|hash: Seq<char>| repository.has_blob(hash) implies next.has_blob(hash) by {
        let b = choose|b: int|
            0 <= b < repository.blobs.len() && (#[trigger] repository.blobs[b]).hash == hash;
        assert(next.blobs[b].hash == hash);
    }
    assert forall|i: int|
        0 <= i < next.clips.len() && (
        #[trigger] next.clips[i]).blob_hash is Some implies next.has_blob(
        next.clips[i].blob_hash->0,
    ) by {
        if i != last {
            assert(repository.clips[i].blob_hash is Some);
        }
    }
    assert forall|i: int| 0 <= i < next.clips.len() implies (
    #[trigger] next.clips[i]).copy_count >= 1 by {
        if i != last {
            assert(repository.clips[i].copy_count >= 1);
        }
    }
}

/// A table of clips keeps its rules when rows are taken out.
proof fn lemma_kept_clips_are_distinct(
    clips: Seq<ClipRowView>,
    keep: spec_fn(ClipRowView) -> bool,
)
    requires
        clips_are_distinct(clips),
    ensures
        clips_are_distinct(clips.filter(keep)),
{
    sequences::lemma_filter_pairs(
        clips,
        keep,
        |a: ClipRowView, b: ClipRowView| a.id != b.id && !same_slot(a, b),
    );
    sequences::lemma_filter_members(clips, keep);
    let kept = clips.filter(keep);
    assert forall|i: int| 0 <= i < kept.len() implies (#[trigger] kept[i]).copy_count >= 1 by {
        assert(kept.contains(kept[i]));
        let k = choose|k: int| 0 <= k < clips.len() && clips[k] == kept[i];
        assert(clips[k].copy_count >= 1);
    }
}

/// A clip that satisfies `keep` is still there after the others have been taken out.
proof fn lemma_kept_clip(
    clips: Seq<ClipRowView>,
    keep: spec_fn(ClipRowView) -> bool,
    at: int,
)
    requires
        0 <= at < clips.len(),
        keep(clips[at]),
    ensures
        exists|k: int| 0 <= k < clips.filter(keep).len() && clips.filter(keep)[k] == clips[at],
{
    sequences::lemma_filter_members(clips, keep);
    assert(clips.contains(clips[at]));
    assert(clips.filter(keep).contains(clips[at]));
}

/// Taking out a clip with its links keeps the rules.
proof fn lemma_without_clip_wf(repository: RepositoryView, id: Seq<char>)
    requires
        repository.wf(),
    ensures
        repository.without_clip(id).wf(),
{
    let next = repository.without_clip(id);
    let keep_clip = |row: ClipRowView| row.id != id;
    let keep_link = |row: LinkRowView| row.clip_id != id;
    lemma_kept_clips_are_distinct(repository.clips, keep_clip);
    sequences::lemma_filter_pairs(
        repository.links,
        keep_link,
        |a: LinkRowView, b: LinkRowView| !same_link(a, b),
    );
    sequences::lemma_filter_members(repository.clips, keep_clip);
    sequences::lemma_filter_members(repository.links, keep_link);
    assert forall|i: int| 0 <= i < next.links.len() implies next.has_clip(
        (#[trigger] next.links[i]).clip_id,
    ) && next.has_category(next.links[i].category_id) by {
        assert(next.links.contains(next.links[i]));
        let m = choose|m: int|
            0 <= m < repository.links.len() && repository.links[m] == next.links[i];
        assert(repository.has_clip(repository.links[m].clip_id));
        let k = choose|k: int|
            0 <= k < repository.clips.len() && (#[trigger] repository.clips[k]).id
                == repository.links[m].clip_id;
        lemma_kept_clip(repository.clips, keep_clip, k);
        let n = choose|n: int| 0 <= n < next.clips.len() && next.clips[n] == repository.clips[k];
        assert(next.clips[n].id == next.links[i].clip_id);
        assert(repository.has_category(repository.links[m].category_id));
        let c = choose|c: int|
            0 <= c < repository.categories.len() && (
            #[trigger] repository.categories[c]).category.id == repository.links[m].category_id;
        assert(next.categories[c].category.id == next.links[i].category_id);
    }
    assert forall|i: int|
        0 <= i < next.clips.len() && (
        #[trigger] next.clips[i]).blob_hash is Some implies next.has_blob(
        next.clips[i].blob_hash->0,
    ) by {
        assert(next.clips.contains(next.clips[i]));
        let k = choose|k: int|
            0 <= k < repository.clips.len() && repository.clips[k] == next.clips[i];
        assert(repository.clips[k].blob_hash is Some);
        assert(repository.has_blob(repository.clips[k].blob_hash->0));
        let b = choose|b: int|
            0 <= b < repository.blobs.len() && (#[trigger] repository.blobs[b]).hash
                == repository.clips[k].blob_hash->0;
        assert(next.blobs[b].hash == next.clips[i].blob_hash->0);
    }
}

} // verus!
