//! Whether rows keep the rules of their tables.

use crate::blob_store::BlobStore;
use crate::persistence::rows;
use crate::persistence::rows::{BlobRow, CategoryRow, ClipRow, LinkRow};
use crate::persistence::{Repository, RepositoryError, RepositoryView};
use crate::text::same_text;
use vstd::prelude::*;

verus! {

fn clip_is_new(clips: &Vec<ClipRow>, at: usize) -> (answer: bool)
    requires
        at < clips@.len(),
    ensures
        answer == forall|i: int|
            0 <= i < at ==> (#[trigger] rows::clip_views(clips@)[i]).id != rows::clip_views(
                clips@,
            )[at as int].id && !super::same_slot(
                rows::clip_views(clips@)[i],
                rows::clip_views(clips@)[at as int],
            ),
{
    let ghost views = rows::clip_views(clips@);
    let row = &clips[at];
    let mut i: usize = 0;
    while i < at
        invariant
            i <= at < clips@.len(),
            views == rows::clip_views(clips@),
            row == clips@[at as int],
            forall|k: int|
                0 <= k < i ==> (#[trigger] views[k]).id != views[at as int].id
                    && !super::same_slot(views[k], views[at as int]),
        decreases at - i,
    {
        assert(views[i as int] == clips@[i as int]@);
        if same_text(clips[i].id.as_str(), row.id.as_str()) || (same_text(
            clips[i].content_hash.as_str(),
            row.content_hash.as_str(),
        ) && same_text(clips[i].domain_key.as_str(), row.domain_key.as_str())) {
            return false;
        }
        i += 1;
    }
    true
}

fn clips_keep_rules(clips: &Vec<ClipRow>) -> (answer: bool)
    ensures
        answer == super::clips_are_distinct(rows::clip_views(clips@)),
{
    let ghost views = rows::clip_views(clips@);
    let mut i: usize = 0;
    while i < clips.len()
        invariant
            i <= clips@.len(),
            views == rows::clip_views(clips@),
            super::clips_are_distinct(views.take(i as int)),
        decreases clips@.len() - i,
    {
        assert(views[i as int] == clips@[i as int]@);
        if clips[i].copy_count < 1 || !clip_is_new(clips, i) {
            proof {
                if super::clips_are_distinct(views) {
                    assert forall|k: int| 0 <= k < i implies (#[trigger] views[k]).id
                        != views[i as int].id && !super::same_slot(
                        views[k],
                        views[i as int],
                    ) by {
                        assert(views[k].id != views[i as int].id);
                        assert(!super::same_slot(views[k], views[i as int]));
                    }
                    assert(views[i as int].copy_count >= 1);
                }
            }
            return false;
        }
        proof {
            let head = views.take(i as int);
            let next = views.take(i + 1);
            assert forall|a: int, b: int| 0 <= a < b < next.len() implies (
            #[trigger] next[a]).id != (#[trigger] next[b]).id && !super::same_slot(
                next[a],
                next[b],
            ) by {
                if b == i {
                    assert(next[a] == views[a]);
                } else {
                    assert(next[a] == head[a] && next[b] == head[b]);
                    assert(head[a].id != head[b].id);
                    assert(!super::same_slot(head[a], head[b]));
                }
            }
            assert forall|a: int| 0 <= a < next.len() implies (
            #[trigger] next[a]).copy_count >= 1 by {
                if a < i {
                    assert(next[a] == head[a]);
                }
            }
        }
        i += 1;
    }
    proof {
        assert(views.take(i as int) =~= views);
    }
    true
}

fn categories_keep_rules(categories: &Vec<CategoryRow>) -> (answer: bool)
    ensures
        answer == super::categories_are_distinct(rows::category_views(categories@)),
{
    let ghost views = rows::category_views(categories@);
    let mut j: usize = 0;
    while j < categories.len()
        invariant
            j <= categories@.len(),
            views == rows::category_views(categories@),
            forall|a: int, b: int|
                0 <= a < b < j ==> (#[trigger] views[a]).category.id != (
                #[trigger] views[b]).category.id && views[a].normalized_name
                    != views[b].normalized_name,
        decreases categories@.len() - j,
    {
        let mut i: usize = 0;
        while i < j
            invariant
                i <= j < categories@.len(),
                views == rows::category_views(categories@),
                forall|a: int|
                    0 <= a < i ==> (#[trigger] views[a]).category.id != views[j as int].category.id
                        && views[a].normalized_name != views[j as int].normalized_name,
            decreases j - i,
        {
            assert(views[i as int] == categories@[i as int]@);
            assert(views[j as int] == categories@[j as int]@);
            if same_text(
                categories[i].category.id.as_str(),
                categories[j].category.id.as_str(),
            ) || same_text(
                categories[i].normalized_name.as_str(),
                categories[j].normalized_name.as_str(),
            ) {
                return false;
            }
            i += 1;
        }
        j += 1;
    }
    true
}

fn blobs_keep_rules(blobs: &Vec<BlobRow>) -> (answer: bool)
    ensures
        answer == super::blobs_are_distinct(rows::blob_views(blobs@)),
{
    let ghost views = rows::blob_views(blobs@);
    let mut j: usize = 0;
    while j < blobs.len()
        invariant
            j <= blobs@.len(),
            views == rows::blob_views(blobs@),
            forall|a: int, b: int|
                0 <= a < b < j ==> (#[trigger] views[a]).hash != (#[trigger] views[b]).hash
                    && views[a].relative_path != views[b].relative_path,
        decreases blobs@.len() - j,
    {
        let mut i: usize = 0;
        while i < j
            invariant
                i <= j < blobs@.len(),
                views == rows::blob_views(blobs@),
                forall|a: int|
                    0 <= a < i ==> (#[trigger] views[a]).hash != views[j as int].hash
                        && views[a].relative_path != views[j as int].relative_path,
            decreases j - i,
        {
            assert(views[i as int] == blobs@[i as int]@);
            assert(views[j as int] == blobs@[j as int]@);
            if same_text(blobs[i].hash.as_str(), blobs[j].hash.as_str()) || same_text(
                blobs[i].relative_path.as_str(),
                blobs[j].relative_path.as_str(),
            ) {
                return false;
            }
            i += 1;
        }
        j += 1;
    }
    true
}

fn links_keep_rules(links: &Vec<LinkRow>) -> (answer: bool)
    ensures
        answer == super::links_are_distinct(rows::link_views(links@)),
{
    let ghost views = rows::link_views(links@);
    let mut j: usize = 0;
    while j < links.len()
        invariant
            j <= links@.len(),
            views == rows::link_views(links@),
            forall|a: int, b: int|
                0 <= a < b < j ==> !super::same_link(#[trigger] views[a], #[trigger] views[b]),
        decreases links@.len() - j,
    {
        let mut i: usize = 0;
        while i < j
            invariant
                i <= j < links@.len(),
                views == rows::link_views(links@),
                forall|a: int|
                    0 <= a < i ==> !super::same_link(#[trigger] views[a], views[j as int]),
            decreases j - i,
        {
            assert(views[i as int] == links@[i as int]@);
            assert(views[j as int] == links@[j as int]@);
            if same_text(links[i].clip_id.as_str(), links[j].clip_id.as_str()) && same_text(
                links[i].category_id.as_str(),
                links[j].category_id.as_str(),
            ) {
                return false;
            }
            i += 1;
        }
        j += 1;
    }
    true
}

impl Repository {
    /// Every link leads from a clip to a category, and every image has its file.
    fn references_hold(&self) -> (answer: bool)
        ensures
            answer == ((forall|i: int|
                0 <= i < self@.links.len() ==> self@.has_clip((#[trigger] self@.links[i]).clip_id)
                    && self@.has_category(self@.links[i].category_id)) && (forall|i: int|
                0 <= i < self@.clips.len() && (#[trigger] self@.clips[i]).blob_hash is Some
                    ==> self@.has_blob(self@.clips[i].blob_hash->0))),
    {
        let mut i: usize = 0;
        while i < self.links.len()
            invariant
                i <= self.links@.len(),
                forall|k: int|
                    0 <= k < i ==> self@.has_clip((#[trigger] self@.links[k]).clip_id)
                        && self@.has_category(self@.links[k].category_id),
            decreases self.links@.len() - i,
        {
            assert(self@.links[i as int] == self.links@[i as int]@);
            let clip = self.find_clip(self.links[i].clip_id.as_str());
            let category = self.find_category(self.links[i].category_id.as_str());
            if clip >= self.clips.len() || category >= self.categories.len() {
                return false;
            }
            i += 1;
        }
        let mut j: usize = 0;
        while j < self.clips.len()
            invariant
                j <= self.clips@.len(),
                forall|k: int|
                    0 <= k < j && (#[trigger] self@.clips[k]).blob_hash is Some ==> self@.has_blob(
                        self@.clips[k].blob_hash->0,
                    ),
            decreases self.clips@.len() - j,
        {
            assert(self@.clips[j as int] == self.clips@[j as int]@);
            match &self.clips[j].blob_hash {
                Some(hash) => {
                    let blob = self.find_blob(hash.as_str());
                    if blob >= self.blobs.len() {
                        return false;
                    }
                },
                None => {},
            }
            j += 1;
        }
        true
    }

    /// Whether the rows keep the rules.
    pub(crate) fn keeps_rules(&self) -> (answer: bool)
        ensures
            answer == self@.wf(),
    {
        clips_keep_rules(&self.clips) && categories_keep_rules(&self.categories)
            && links_keep_rules(&self.links) && blobs_keep_rules(&self.blobs)
            && self.references_hold()
    }

    /// The history made of rows that were stored, if they keep the rules.
    pub fn open(
        clips: Vec<ClipRow>,
        categories: Vec<CategoryRow>,
        links: Vec<LinkRow>,
        blobs: Vec<BlobRow>,
        blob_store: Option<BlobStore>,
    ) -> (result: Result<Repository, RepositoryError>)
        ensures
            ({
                let view = RepositoryView {
                    clips: rows::clip_views(clips@),
                    categories: rows::category_views(categories@),
                    links: rows::link_views(links@),
                    blobs: rows::blob_views(blobs@),
                    blob_root: super::root_of(blob_store),
                };
                match result {
                    Ok(repository) => view.wf() && repository@ == view,
                    Err(error) => !view.wf() && error == RepositoryError::ConstraintViolation,
                }
            }),
    {
        let repository = Repository { clips, categories, links, blobs, blob_store };
        if repository.keeps_rules() {
            Ok(repository)
        } else {
            Err(RepositoryError::ConstraintViolation)
        }
    }
}

} // verus!
