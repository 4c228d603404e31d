//! Taking in the history of another database.

use crate::persistence::rows;
use crate::persistence::rows::{
    CategoryRow, CategoryRowView, ClipRow, ClipRowView, LinkRow, LinkRowView,
};
use crate::persistence::upsert;
use crate::persistence::{Repository, RepositoryError, RepositoryView};
use crate::sequences;
use crate::text::same_text;
use vstd::prelude::*;

verus! {

/// A clip after another with the same hash and domain was taken in: it is pinned if one of the
/// two was, keeps the larger count and the later moment, and older data does not replace newer.
pub open spec fn taken_in(own: ClipRowView, other: ClipRowView) -> ClipRowView {
    let fresher = other.last_copied_at > own.last_copied_at;
    ClipRowView {
        content: if fresher {
            other.content
        } else {
            own.content
        },
        page_title: if fresher {
            upsert::or_else(other.page_title, own.page_title)
        } else {
            upsert::or_else(own.page_title, other.page_title)
        },
        created_at: if other.created_at < own.created_at {
            other.created_at
        } else {
            own.created_at
        },
        last_copied_at: if fresher {
            other.last_copied_at
        } else {
            own.last_copied_at
        },
        copy_count: if other.copy_count > own.copy_count {
            other.copy_count
        } else {
            own.copy_count
        },
        pinned: own.pinned || other.pinned,
        sort_key: if other.sort_key > own.sort_key {
            other.sort_key
        } else {
            own.sort_key
        },
        ..own
    }
}

/// The first clip with the hash and domain of another, or the number of clips.
pub open spec fn slot_like(clips: Seq<ClipRowView>, row: ClipRowView) -> int {
    sequences::first_index(clips, |own: ClipRowView| super::same_slot(own, row))
}

/// The clips after others were taken in, one after the other.
pub open spec fn clips_with(clips: Seq<ClipRowView>, others: Seq<ClipRowView>) -> Seq<ClipRowView>
    decreases others.len(),
{
    if others.len() == 0 {
        clips
    } else {
        let before = clips_with(clips, others.drop_last());
        let at = slot_like(before, others.last());
        if at < before.len() {
            before.update(at, taken_in(before[at], others.last()))
        } else {
            before.push(others.last())
        }
    }
}

/// The first category with this normalized name, or the number of categories.
pub open spec fn named(categories: Seq<CategoryRowView>, name: Seq<char>) -> int {
    sequences::first_index(categories, |row: CategoryRowView| row.normalized_name == name)
}

/// The categories with those others whose names are new.
pub open spec fn categories_with(
    categories: Seq<CategoryRowView>,
    others: Seq<CategoryRowView>,
) -> Seq<CategoryRowView>
    decreases others.len(),
{
    if others.len() == 0 {
        categories
    } else {
        let before = categories_with(categories, others.drop_last());
        if named(before, others.last().normalized_name) < before.len() {
            before
        } else {
            before.push(others.last())
        }
    }
}

/// The links with those of the others, between the clips and categories that were taken in.
pub open spec fn links_with(
    links: Seq<LinkRowView>,
    clips: Seq<ClipRowView>,
    categories: Seq<CategoryRowView>,
    other: RepositoryView,
    others: Seq<LinkRowView>,
) -> Seq<LinkRowView>
    decreases others.len(),
{
    if others.len() == 0 {
        links
    } else {
        let before = links_with(links, clips, categories, other, others.drop_last());
        let link = others.last();
        let clip = other.clip_position(link.clip_id);
        let category = other.category_position(link.category_id);
        let to = slot_like(clips, other.clips[clip]);
        let into = named(categories, other.categories[category].normalized_name);
        if clip >= other.clips.len() || category >= other.categories.len() || to >= clips.len()
            || into >= categories.len() || linked(
            before,
            clips[to].id,
            categories[into].category.id,
        ) {
            before
        } else {
            before.push(
                LinkRowView {
                    clip_id: clips[to].id,
                    category_id: categories[into].category.id,
                    created_at: link.created_at,
                },
            )
        }
    }
}

pub open spec fn linked(
    links: Seq<LinkRowView>,
    clip_id: Seq<char>,
    category_id: Seq<char>,
) -> bool {
    exists|i: int|
        0 <= i < links.len() && (#[trigger] links[i]).clip_id == clip_id && links[i].category_id
            == category_id
}

impl RepositoryView {
    /// The history with that of another database taken in.
    pub open spec fn with_history(self, other: RepositoryView) -> RepositoryView {
        let clips = clips_with(self.clips, other.clips);
        let categories = categories_with(self.categories, other.categories);
        RepositoryView {
            clips,
            categories,
            links: links_with(self.links, clips, categories, other, other.links),
            ..self
        }
    }
}

fn find_like(clips: &Vec<ClipRow>, row: &ClipRow) -> (at: usize)
    ensures
        at == slot_like(rows::clip_views(clips@), row@),
        at <= clips@.len(),
{
    let ghost views = rows::clip_views(clips@);
    let ghost wanted = |own: ClipRowView| super::same_slot(own, row@);
    let mut i: usize = 0;
    while i < clips.len() && !(same_text(
        clips[i].content_hash.as_str(),
        row.content_hash.as_str(),
    ) && same_text(clips[i].domain_key.as_str(), row.domain_key.as_str()))
        invariant
            i <= clips@.len(),
            views == rows::clip_views(clips@),
            wanted == (|own: ClipRowView| super::same_slot(own, row@)),
            forall|k: int| 0 <= k < i ==> !wanted(#[trigger] views[k]),
        ensures
            i < clips@.len() ==> wanted(views[i as int]),
        decreases clips@.len() - i,
    {
        assert(views[i as int] == clips@[i as int]@);
        i += 1;
    }
    proof {
        sequences::lemma_is_first_index(views, wanted, i as int);
    }
    i
}

fn find_named(categories: &Vec<CategoryRow>, name: &str) -> (at: usize)
    ensures
        at == named(rows::category_views(categories@), name@),
        at <= categories@.len(),
{
    let ghost views = rows::category_views(categories@);
    let ghost wanted = |row: CategoryRowView| row.normalized_name == name@;
    let mut i: usize = 0;
    while i < categories.len() && !same_text(categories[i].normalized_name.as_str(), name)
        invariant
            i <= categories@.len(),
            views == rows::category_views(categories@),
            wanted == (|row: CategoryRowView| row.normalized_name == name@),
            forall|k: int| 0 <= k < i ==> !wanted(#[trigger] views[k]),
        ensures
            i < categories@.len() ==> wanted(views[i as int]),
        decreases categories@.len() - i,
    {
        assert(views[i as int] == categories@[i as int]@);
        i += 1;
    }
    proof {
        sequences::lemma_is_first_index(views, wanted, i as int);
    }
    i
}

fn is_linked(links: &Vec<LinkRow>, clip_id: &str, category_id: &str) -> (answer: bool)
    ensures
        answer == linked(rows::link_views(links@), clip_id@, category_id@),
{
    let ghost views = rows::link_views(links@);
    let mut i: usize = 0;
    while i < links.len()
        invariant
            i <= links@.len(),
            views == rows::link_views(links@),
            forall|k: int|
                0 <= k < i ==> !((#[trigger] views[k]).clip_id == clip_id@ && views[k].category_id
                    == category_id@),
        decreases links@.len() - i,
    {
        assert(views[i as int] == links@[i as int]@);
        if same_text(links[i].clip_id.as_str(), clip_id) && same_text(
            links[i].category_id.as_str(),
            category_id,
        ) {
            return true;
        }
        i += 1;
    }
    false
}

fn title_or(first: &Option<String>, second: &Option<String>) -> (title: Option<String>)
    ensures
        crate::text::text_of(title) == upsert::or_else(
            crate::text::text_of(*first),
            crate::text::text_of(*second),
        ),
{
    match first {
        Some(title) => Some(title.clone()),
        None => match second {
            Some(title) => Some(title.clone()),
            None => None,
        },
    }
}

fn take_in(own: &ClipRow, other: &ClipRow) -> (row: ClipRow)
    ensures
        row@ == taken_in(own@, other@),
{
    let fresher = other.last_copied_at > own.last_copied_at;
    let mut row = own.clone();
    if fresher {
        row.content = other.content.clone();
        row.page_title = title_or(&other.page_title, &own.page_title);
        row.last_copied_at = other.last_copied_at;
    } else {
        row.page_title = title_or(&own.page_title, &other.page_title);
    }
    if other.created_at < own.created_at {
        row.created_at = other.created_at;
    }
    if other.copy_count > own.copy_count {
        row.copy_count = other.copy_count;
    }
    row.pinned = own.pinned || other.pinned;
    if other.sort_key > own.sort_key {
        row.sort_key = other.sort_key;
    }
    row
}

fn add_clips(clips: &mut Vec<ClipRow>, others: &Vec<ClipRow>)
    ensures
        rows::clip_views(final(clips)@) == clips_with(
            rows::clip_views(old(clips)@),
            rows::clip_views(others@),
        ),
{
    let ghost first = rows::clip_views(clips@);
    let ghost all = rows::clip_views(others@);
    let mut i: usize = 0;
    while i < others.len()
        invariant
            i <= others@.len(),
            all == rows::clip_views(others@),
            rows::clip_views(clips@) =~= clips_with(first, all.take(i as int)),
        decreases others@.len() - i,
    {
        let other = &others[i];
        proof {
            assert(all.take(i + 1).drop_last() =~= all.take(i as int));
            assert(all.take(i + 1).last() == other@);
        }
        let ghost before = clips@;
        let at = find_like(clips, other);
        if at < clips.len() {
            assert(rows::clip_views(clips@)[at as int] == clips@[at as int]@);
            let row = take_in(&clips[at], other);
            clips.set(at, row);
            proof {
                assert(rows::clip_views(clips@) =~= rows::clip_views(before).update(
                    at as int,
                    row@,
                ));
            }
        } else {
            let row = other.clone();
            clips.push(row);
            proof {
                assert(rows::clip_views(clips@) =~= rows::clip_views(before).push(row@));
            }
        }
        i += 1;
    }
    proof {
        assert(all.take(i as int) =~= all);
    }
}

fn add_categories(categories: &mut Vec<CategoryRow>, others: &Vec<CategoryRow>)
    ensures
        rows::category_views(final(categories)@) == categories_with(
            rows::category_views(old(categories)@),
            rows::category_views(others@),
        ),
{
    let ghost first = rows::category_views(categories@);
    let ghost all = rows::category_views(others@);
    let mut i: usize = 0;
    while i < others.len()
        invariant
            i <= others@.len(),
            all == rows::category_views(others@),
            rows::category_views(categories@) =~= categories_with(first, all.take(i as int)),
        decreases others@.len() - i,
    {
        let other = &others[i];
        proof {
            assert(all.take(i + 1).drop_last() =~= all.take(i as int));
            assert(all.take(i + 1).last() == other@);
        }
        let at = find_named(categories, other.normalized_name.as_str());
        if at >= categories.len() {
            let ghost before = categories@;
            let row = other.clone();
            categories.push(row);
            proof {
                assert(rows::category_views(categories@) =~= rows::category_views(before).push(
                    row@,
                ));
            }
        }
        i += 1;
    }
    proof {
        assert(all.take(i as int) =~= all);
    }
}

fn copy_clips(clips: &Vec<ClipRow>) -> (copy: Vec<ClipRow>)
    ensures
        copy@ == clips@,
{
    let mut copy: Vec<ClipRow> = Vec::new();
    let mut i: usize = 0;
    while i < clips.len()
        invariant
            i <= clips@.len(),
            copy@ =~= clips@.take(i as int),
        decreases clips@.len() - i,
    {
        copy.push(clips[i].clone());
        i += 1;
    }
    copy
}

fn copy_categories(categories: &Vec<CategoryRow>) -> (copy: Vec<CategoryRow>)
    ensures
        copy@ == categories@,
{
    let mut copy: Vec<CategoryRow> = Vec::new();
    let mut i: usize = 0;
    while i < categories.len()
        invariant
            i <= categories@.len(),
            copy@ =~= categories@.take(i as int),
        decreases categories@.len() - i,
    {
        copy.push(categories[i].clone());
        i += 1;
    }
    copy
}

fn copy_links(links: &Vec<LinkRow>) -> (copy: Vec<LinkRow>)
    ensures
        copy@ == links@,
{
    let mut copy: Vec<LinkRow> = Vec::new();
    let mut i: usize = 0;
    while i < links.len()
        invariant
            i <= links@.len(),
            copy@ =~= links@.take(i as int),
        decreases links@.len() - i,
    {
        copy.push(links[i].clone());
        i += 1;
    }
    copy
}

impl Repository {
    /// Adds the links of this history to those between clips and categories that it was taken
    /// into.
    fn add_links_to(
        &self,
        links: &mut Vec<LinkRow>,
        clips: &Vec<ClipRow>,
        categories: &Vec<CategoryRow>,
    )
        ensures
            rows::link_views(final(links)@) == links_with(
                rows::link_views(old(links)@),
                rows::clip_views(clips@),
                rows::category_views(categories@),
                self@,
                self@.links,
            ),
    {
        let ghost first = rows::link_views(links@);
        let ghost clip_rows = rows::clip_views(clips@);
        let ghost category_rows = rows::category_views(categories@);
        let ghost all = self@.links;
        let mut i: usize = 0;
        while i < self.links.len()
            invariant
                i <= self.links@.len(),
                all == self@.links,
                clip_rows == rows::clip_views(clips@),
                category_rows == rows::category_views(categories@),
                rows::link_views(links@) =~= links_with(
                    first,
                    clip_rows,
                    category_rows,
                    self@,
                    all.take(i as int),
                ),
            decreases self.links@.len() - i,
        {
            let link = &self.links[i];
            proof {
                assert(all.take(i + 1).drop_last() =~= all.take(i as int));
                assert(all.take(i + 1).last() == link@);
            }
            let clip = self.find_clip(link.clip_id.as_str());
            let category = self.find_category(link.category_id.as_str());
            if clip < self.clips.len() && category < self.categories.len() {
                assert(self@.clips[clip as int] == self.clips@[clip as int]@);
                assert(self@.categories[category as int] == self.categories@[category as int]@);
                let to = find_like(clips, &self.clips[clip]);
                let into = find_named(
                    categories,
                    self.categories[category].normalized_name.as_str(),
                );
                if to < clips.len() && into < categories.len() {
                    assert(clip_rows[to as int] == clips@[to as int]@);
                    assert(category_rows[into as int] == categories@[into as int]@);
                    if !is_linked(
                        links,
                        clips[to].id.as_str(),
                        categories[into].category.id.as_str(),
                    ) {
                        let ghost before = links@;
                        let row = LinkRow {
                            clip_id: clips[to].id.clone(),
                            category_id: categories[into].category.id.clone(),
                            created_at: link.created_at,
                        };
                        links.push(row);
                        proof {
                            assert(rows::link_views(links@) =~= rows::link_views(before).push(
                                row@,
                            ));
                        }
                    }
                }
            }
            i += 1;
        }
        proof {
            assert(all.take(i as int) =~= all);
        }
    }

    /// Takes in the clips, categories and links of another database, all of them or, where a rule
    /// would be broken, none.
    pub fn import_history(&mut self, other: &Repository) -> (result: Result<(), RepositoryError>)
        requires
            old(self)@.wf(),
        ensures
            ({
                let next = old(self)@.with_history(other@);
                if next.wf() {
                    result is Ok && final(self)@ == next
                } else {
                    result == Err::<(), RepositoryError>(RepositoryError::ConstraintViolation)
                        && final(self)@ == old(self)@
                }
            }),
            final(self)@.wf(),
    {
        let mut clips = copy_clips(&self.clips);
        let mut categories = copy_categories(&self.categories);
        let mut links = copy_links(&self.links);
        add_clips(&mut clips, &other.clips);
        add_categories(&mut categories, &other.categories);
        other.add_links_to(&mut links, &clips, &categories);
        std::mem::swap(&mut self.clips, &mut clips);
        std::mem::swap(&mut self.categories, &mut categories);
        std::mem::swap(&mut self.links, &mut links);
        assert(self@ =~= old(self)@.with_history(other@));
        if self.keeps_rules() {
            return Ok(());
        }
        std::mem::swap(&mut self.clips, &mut clips);
        std::mem::swap(&mut self.categories, &mut categories);
        std::mem::swap(&mut self.links, &mut links);
        assert(self@ =~= old(self)@);
        Err(RepositoryError::ConstraintViolation)
    }
}

/// Taking in clips keeps every clip at its place, pinned if it was, with no smaller count and no
/// earlier moment.
pub proof fn importing_keeps_own_clips(
    clips: Seq<ClipRowView>,
    others: Seq<ClipRowView>,
    i: int,
)
    requires
        0 <= i < clips.len(),
    ensures
        clips_with(clips, others).len() >= clips.len(),
        ({
            let row = clips_with(clips, others)[i];
            &&& row.id == clips[i].id
            &&& super::same_slot(row, clips[i])
            &&& clips[i].pinned ==> row.pinned
            &&& row.copy_count >= clips[i].copy_count
            &&& row.last_copied_at >= clips[i].last_copied_at
            &&& row.last_copied_at == clips[i].last_copied_at ==> row.content == clips[i].content
        }),
    decreases others.len(),
{
    if others.len() > 0 {
        importing_keeps_own_clips(clips, others.drop_last(), i);
        let before = clips_with(clips, others.drop_last());
        let other = others.last();
        sequences::lemma_first_index(before, |own: ClipRowView| super::same_slot(own, other));
    }
}

/// Every clip taken in is there afterwards: one with its hash and domain is pinned if it was, and
/// has no smaller count and no earlier moment.
pub proof fn importing_takes_in_every_clip(
    clips: Seq<ClipRowView>,
    others: Seq<ClipRowView>,
    i: int,
)
    requires
        0 <= i < others.len(),
    ensures
        exists|k: int|
            0 <= k < clips_with(clips, others).len() && holds_all_of(
                #[trigger] clips_with(clips, others)[k],
                others[i],
            ),
    decreases others.len(),
{
    let rest = others.drop_last();
    let before = clips_with(clips, rest);
    let all = clips_with(clips, others);
    let last = others.last();
    sequences::lemma_first_index(before, |own: ClipRowView| super::same_slot(own, last));
    let at = slot_like(before, last);
    if i < rest.len() {
        importing_takes_in_every_clip(clips, rest, i);
        assert(rest[i] == others[i]);
        let k = choose|k: int|
            0 <= k < before.len() && holds_all_of(#[trigger] before[k], others[i]);
        assert(holds_all_of(all[k], others[i]));
    } else if at < before.len() {
        assert(holds_all_of(all[at], last));
    } else {
        assert(holds_all_of(all[before.len() as int], last));
    }
}

/// A clip with the hash and domain of another, pinned if the other is, with no smaller count and
/// no earlier moment.
pub open spec fn holds_all_of(row: ClipRowView, other: ClipRowView) -> bool {
    &&& super::same_slot(row, other)
    &&& other.pinned ==> row.pinned
    &&& row.copy_count >= other.copy_count
    &&& row.last_copied_at >= other.last_copied_at
}

/// Taking in categories keeps every category at its place, and each that is taken in is there
/// afterwards under its name.
pub proof fn importing_takes_in_every_category(
    categories: Seq<CategoryRowView>,
    others: Seq<CategoryRowView>,
)
    ensures
        categories.is_prefix_of(categories_with(categories, others)),
        forall|i: int|
            0 <= i < others.len() ==> named(
                categories_with(categories, others),
                (#[trigger] others[i]).normalized_name,
            ) < categories_with(categories, others).len(),
    decreases others.len(),
{
    if others.len() > 0 {
        let rest = others.drop_last();
        let before = categories_with(categories, rest);
        let all = categories_with(categories, others);
        importing_takes_in_every_category(categories, rest);
        assert(before.is_prefix_of(all));
        assert forall|i: int| 0 <= i < others.len() implies named(
            all,
            (#[trigger] others[i]).normalized_name,
        ) < all.len() by {
            let name = others[i].normalized_name;
            let wanted = |row: CategoryRowView| row.normalized_name == name;
            sequences::lemma_first_index(before, wanted);
            sequences::lemma_first_index(all, wanted);
            if i < rest.len() {
                assert(rest[i] == others[i]);
                assert(wanted(all[named(before, name)]));
            } else if named(before, name) < before.len() {
                assert(wanted(all[named(before, name)]));
            } else {
                assert(wanted(all[before.len() as int]));
            }
        }
    }
}

/// The link that one of another database becomes.
pub open spec fn link_taken_in(
    next: RepositoryView,
    other: RepositoryView,
    link: LinkRowView,
) -> bool {
    let clip = other.clips[other.clip_position(link.clip_id)];
    let category = other.categories[other.category_position(link.category_id)];
    let to = slot_like(next.clips, clip);
    let into = named(next.categories, category.normalized_name);
    &&& to < next.clips.len()
    &&& into < next.categories.len()
    &&& next.has_link(next.clips[to].id, next.categories[into].category.id)
}

/// Every clip stays in its categories, those of the history and those taken in.
pub proof fn importing_takes_in_every_link(
    repository: RepositoryView,
    other: RepositoryView,
    i: int,
)
    requires
        other.wf(),
        0 <= i < other.links.len(),
    ensures
        repository.links.is_prefix_of(repository.with_history(other).links),
        link_taken_in(repository.with_history(other), other, other.links[i]),
{
    let next = repository.with_history(other);
    let link = other.links[i];
    let clip = other.clip_position(link.clip_id);
    let category = other.category_position(link.category_id);
    lemma_other_link(other, i);
    importing_takes_in_every_clip(repository.clips, other.clips, clip);
    importing_takes_in_every_category(repository.categories, other.categories);
    let k = choose|k: int|
        0 <= k < next.clips.len() && holds_all_of(#[trigger] next.clips[k], other.clips[clip]);
    let alike = |own: ClipRowView| super::same_slot(own, other.clips[clip]);
    sequences::lemma_first_index(next.clips, alike);
    assert(alike(next.clips[k]));
    lemma_links_with(repository.links, next.clips, next.categories, other, other.links);
    assert(other.links[i] == link);
    let m = choose|m: int|
        0 <= m < next.links.len() && (#[trigger] next.links[m]).clip_id
            == next.clips[slot_like(next.clips, other.clips[clip])].id && next.links[m].category_id
            == next.categories[named(
            next.categories,
            other.categories[category].normalized_name,
        )].category.id;
    assert(next.links[m].clip_id == next.clips[slot_like(next.clips, other.clips[clip])].id);
}

/// The ends of a link are there.
proof fn lemma_other_link(other: RepositoryView, i: int)
    requires
        other.wf(),
        0 <= i < other.links.len(),
    ensures
        0 <= other.clip_position(other.links[i].clip_id) < other.clips.len(),
        0 <= other.category_position(other.links[i].category_id) < other.categories.len(),
{
    let link = other.links[i];
    assert(other.has_clip(link.clip_id) && other.has_category(link.category_id));
    let clip = |row: ClipRowView| row.id == link.clip_id;
    let category = |row: CategoryRowView| row.category.id == link.category_id;
    sequences::lemma_first_index(other.clips, clip);
    sequences::lemma_first_index(other.categories, category);
    let k = choose|k: int| 0 <= k < other.clips.len() && (#[trigger] other.clips[k]).id
        == link.clip_id;
    assert(clip(other.clips[k]));
    let c = choose|c: int|
        0 <= c < other.categories.len() && (#[trigger] other.categories[c]).category.id
            == link.category_id;
    assert(category(other.categories[c]));
}

/// What the links are after others were taken in.
proof fn lemma_links_with(
    links: Seq<LinkRowView>,
    clips: Seq<ClipRowView>,
    categories: Seq<CategoryRowView>,
    other: RepositoryView,
    others: Seq<LinkRowView>,
)
    ensures
        links.is_prefix_of(links_with(links, clips, categories, other, others)),
        forall|i: int|
            0 <= i < others.len() ==> {
                let link = #[trigger] others[i];
                let clip = other.clip_position(link.clip_id);
                let category = other.category_position(link.category_id);
                let to = slot_like(clips, other.clips[clip]);
                let into = named(categories, other.categories[category].normalized_name);
                clip < other.clips.len() && category < other.categories.len() && to < clips.len()
                    && into < categories.len() ==> linked(
                    links_with(links, clips, categories, other, others),
                    clips[to].id,
                    categories[into].category.id,
                )
            },
    decreases others.len(),
{
    if others.len() > 0 {
        let rest = others.drop_last();
        let before = links_with(links, clips, categories, other, rest);
        let all = links_with(links, clips, categories, other, others);
        lemma_links_with(links, clips, categories, other, rest);
        assert(before.is_prefix_of(all));
        assert forall|a: Seq<char>, b: Seq<char>| linked(before, a, b) implies #[trigger] linked(
            all,
            a,
            b,
        ) by {
            let m = choose|m: int|
                0 <= m < before.len() && (#[trigger] before[m]).clip_id == a
                    && before[m].category_id == b;
            assert(all[m] == before[m]);
        }
        assert forall|i: int| 0 <= i < others.len() implies {
            let link = #[trigger] others[i];
            let clip = other.clip_position(link.clip_id);
            let category = other.category_position(link.category_id);
            let to = slot_like(clips, other.clips[clip]);
            let into = named(categories, other.categories[category].normalized_name);
            clip < other.clips.len() && category < other.categories.len() && to < clips.len()
                && into < categories.len() ==> linked(
                all,
                clips[to].id,
                categories[into].category.id,
            )
        } by {
            let link = others[i];
            if i < rest.len() {
                assert(rest[i] == link);
            } else {
                let clip = other.clip_position(link.clip_id);
                let category = other.category_position(link.category_id);
                let to = slot_like(clips, other.clips[clip]);
                let into = named(categories, other.categories[category].normalized_name);
                if clip < other.clips.len() && category < other.categories.len() && to
                    < clips.len() && into < categories.len() && !linked(
                    before,
                    clips[to].id,
                    categories[into].category.id,
                ) {
                    assert(all[before.len() as int].clip_id == clips[to].id);
                }
            }
        }
    }
}

/// Clips and categories with the same identifier are the same in both, and the files of the other
/// clips are there.
pub open spec fn fits(repository: RepositoryView, other: RepositoryView) -> bool {
    &&& forall|i: int, j: int|
        0 <= i < repository.clips.len() && 0 <= j < other.clips.len()
            && #[trigger] repository.clips[i].id == #[trigger] other.clips[j].id
            ==> super::same_slot(repository.clips[i], other.clips[j])
    &&& forall|i: int, j: int|
        0 <= i < repository.categories.len() && 0 <= j < other.categories.len()
            && #[trigger] repository.categories[i].category.id
            == #[trigger] other.categories[j].category.id
            ==> repository.categories[i].normalized_name == other.categories[j].normalized_name
    &&& forall|j: int|
        0 <= j < other.clips.len() && (#[trigger] other.clips[j]).blob_hash is Some
            ==> repository.has_blob(other.clips[j].blob_hash->0)
}

/// Where identifiers do not clash, the history of another database can be taken in.
pub proof fn fitting_history_is_taken_in(repository: RepositoryView, other: RepositoryView)
    requires
        repository.wf(),
        other.wf(),
        fits(repository, other),
    ensures
        repository.with_history(other).wf(),
{
    let next = repository.with_history(other);
    lemma_clips_with(repository, other, other.clips.len() as int);
    lemma_categories_with(repository, other, other.categories.len() as int);
    assert(other.clips.take(other.clips.len() as int) =~= other.clips);
    assert(other.categories.take(other.categories.len() as int) =~= other.categories);
    assert forall|i: int| 0 <= i < next.clips.len() && (
    #[trigger] next.clips[i]).blob_hash is Some implies next.has_blob(
        next.clips[i].blob_hash->0,
    ) by {
        assert(comes_from(repository, other, next.clips, i));
        if i < repository.clips.len() {
            assert(repository.clips[i].blob_hash is Some);
        } else {
            let j = choose|j: int| 0 <= j < other.clips.len() && #[trigger] other.clips[j]
                == next.clips[i];
            assert(other.clips[j].blob_hash is Some);
        }
        let hash = next.clips[i].blob_hash->0;
        assert(repository.has_blob(hash));
        let b = choose|b: int| 0 <= b < repository.blobs.len() && (
        #[trigger] repository.blobs[b]).hash == hash;
        assert(next.blobs[b].hash == hash);
    }
    assert forall|i: int| 0 <= i < repository.links.len() implies next.has_clip(
        (#[trigger] repository.links[i]).clip_id,
    ) && next.has_category(repository.links[i].category_id) by {
        let link = repository.links[i];
        assert(repository.has_clip(link.clip_id) && repository.has_category(link.category_id));
        let k = choose|k: int| 0 <= k < repository.clips.len() && (
        #[trigger] repository.clips[k]).id == link.clip_id;
        importing_keeps_own_clips(repository.clips, other.clips, k);
        assert(next.clips[k].id == link.clip_id);
        let c = choose|c: int| 0 <= c < repository.categories.len() && (
        #[trigger] repository.categories[c]).category.id == link.category_id;
        importing_takes_in_every_category(repository.categories, other.categories);
        assert(next.categories[c].category.id == link.category_id);
    }
    lemma_links_are_sound(repository, next, other, other.links.len() as int);
    assert(other.links.take(other.links.len() as int) =~= other.links);
}

/// A clip after the import is an own one, or one of the others as it was, or such a one brought
/// up to date.
spec fn comes_from(
    repository: RepositoryView,
    other: RepositoryView,
    clips: Seq<ClipRowView>,
    k: int,
) -> bool {
    if k < repository.clips.len() {
        clips[k].id == repository.clips[k].id && super::same_slot(clips[k], repository.clips[k])
            && clips[k].blob_hash == repository.clips[k].blob_hash
    } else {
        exists|j: int| 0 <= j < other.clips.len() && #[trigger] other.clips[j] == clips[k]
    }
}

proof fn lemma_clips_with(repository: RepositoryView, other: RepositoryView, count: int)
    requires
        repository.wf(),
        other.wf(),
        fits(repository, other),
        0 <= count <= other.clips.len(),
    ensures
        ({
            let clips = clips_with(repository.clips, other.clips.take(count));
            &&& super::clips_are_distinct(clips)
            &&& clips.len() >= repository.clips.len()
            &&& forall|k: int|
                0 <= k < clips.len() ==> #[trigger] comes_from(repository, other, clips, k)
            &&& forall|k: int|
                repository.clips.len() <= k < clips.len() ==> exists|j: int|
                    0 <= j < count && #[trigger] other.clips[j] == #[trigger] clips[k]
        }),
    decreases count,
{
    let own = repository.clips;
    let others = other.clips.take(count);
    if count > 0 {
        let rest = other.clips.take(count - 1);
        assert(others.drop_last() =~= rest);
        lemma_clips_with(repository, other, count - 1);
        let before = clips_with(own, rest);
        let clips = clips_with(own, others);
        let last = others.last();
        let alike = |row: ClipRowView| super::same_slot(row, last);
        sequences::lemma_first_index(before, alike);
        let at = slot_like(before, last);
        assert forall|k: int| 0 <= k < before.len() implies #[trigger] comes_from(
            repository,
            other,
            before,
            k,
        ) by {}
        if at < before.len() {
            assert(at < own.len()) by {
                if at >= own.len() {
                    let j = choose|j: int| 0 <= j < count - 1 && #[trigger] other.clips[j]
                        == before[at];
                    assert(!super::same_slot(other.clips[j], other.clips[count - 1]));
                }
            }
            assert forall|i: int, j: int| 0 <= i < j < clips.len() implies (
            #[trigger] clips[i]).id != (#[trigger] clips[j]).id && !super::same_slot(
                clips[i],
                clips[j],
            ) by {
                assert(before[i].id != before[j].id && !super::same_slot(before[i], before[j]));
            }
            assert forall|k: int| 0 <= k < clips.len() implies #[trigger] comes_from(
                repository,
                other,
                clips,
                k,
            ) by {
                assert(comes_from(repository, other, before, k));
            }
            assert forall|k: int| 0 <= k < clips.len() implies (#[trigger] clips[k]).copy_count
                >= 1 by {
                assert(before[k].copy_count >= 1);
            }
        } else {
            assert forall|k: int| 0 <= k < before.len() implies (#[trigger] before[k]).id
                != last.id && !super::same_slot(before[k], last) by {
                assert(!alike(before[k]));
                assert(comes_from(repository, other, before, k));
                if k < own.len() {
                    if before[k].id == last.id {
                        assert(own[k].id == other.clips[count - 1].id);
                        assert(super::same_slot(own[k], other.clips[count - 1]));
                    }
                } else {
                    let j = choose|j: int| 0 <= j < count - 1 && #[trigger] other.clips[j]
                        == before[k];
                    assert(other.clips[j].id != other.clips[count - 1].id);
                }
            }
            assert(other.clips[count - 1].copy_count >= 1);
            assert forall|i: int, j: int| 0 <= i < j < clips.len() implies (
            #[trigger] clips[i]).id != (#[trigger] clips[j]).id && !super::same_slot(
                clips[i],
                clips[j],
            ) by {
                if j < before.len() {
                    assert(before[i].id != before[j].id && !super::same_slot(
                        before[i],
                        before[j],
                    ));
                } else {
                    assert(before[i].id != last.id);
                }
            }
            assert forall|k: int| 0 <= k < clips.len() implies #[trigger] comes_from(
                repository,
                other,
                clips,
                k,
            ) by {
                if k < before.len() {
                    assert(comes_from(repository, other, before, k));
                    assert(clips[k] == before[k]);
                } else {
                    assert(other.clips[count - 1] == clips[k]);
                }
            }
            assert forall|k: int| own.len() <= k < clips.len() implies exists|j: int|
                0 <= j < count && #[trigger] other.clips[j] == #[trigger] clips[k] by {
                if k < before.len() {
                    let j = choose|j: int| 0 <= j < count - 1 && #[trigger] other.clips[j]
                        == before[k];
                    assert(other.clips[j] == clips[k]);
                } else {
                    assert(other.clips[count - 1] == clips[k]);
                }
            }
        }
    } else {
        assert(others =~= Seq::empty());
    }
}

proof fn lemma_categories_with(repository: RepositoryView, other: RepositoryView, count: int)
    requires
        repository.wf(),
        other.wf(),
        fits(repository, other),
        0 <= count <= other.categories.len(),
    ensures
        ({
            let own = repository.categories;
            let categories = categories_with(own, other.categories.take(count));
            &&& super::categories_are_distinct(categories)
            &&& own.is_prefix_of(categories)
            &&& forall|k: int|
                own.len() <= k < categories.len() ==> exists|j: int|
                    0 <= j < count && #[trigger] other.categories[j] == #[trigger] categories[k]
        }),
    decreases count,
{
    let own = repository.categories;
    let others = other.categories.take(count);
    if count > 0 {
        let rest = other.categories.take(count - 1);
        assert(others.drop_last() =~= rest);
        lemma_categories_with(repository, other, count - 1);
        let before = categories_with(own, rest);
        let categories = categories_with(own, others);
        let last = others.last();
        let alike = |row: CategoryRowView| row.normalized_name == last.normalized_name;
        sequences::lemma_first_index(before, alike);
        if named(before, last.normalized_name) >= before.len() {
            assert forall|k: int| 0 <= k < before.len() implies (
            #[trigger] before[k]).category.id != last.category.id && before[k].normalized_name
                != last.normalized_name by {
                assert(!alike(before[k]));
                if k < own.len() {
                    assert(own[k] == before[k]);
                    if own[k].category.id == last.category.id {
                        assert(own[k].category.id == other.categories[count - 1].category.id);
                    }
                } else {
                    let j = choose|j: int| 0 <= j < count - 1 && #[trigger] other.categories[j]
                        == before[k];
                    assert(other.categories[j].category.id
                        != other.categories[count - 1].category.id);
                }
            }
            assert forall|i: int, j: int| 0 <= i < j < categories.len() implies (
            #[trigger] categories[i]).category.id != (#[trigger] categories[j]).category.id
                && categories[i].normalized_name != categories[j].normalized_name by {
                if j < before.len() {
                    assert(before[i].category.id != before[j].category.id);
                } else {
                    assert(before[i].category.id != last.category.id);
                }
            }
            assert forall|k: int| own.len() <= k < categories.len() implies exists|j: int|
                0 <= j < count && #[trigger] other.categories[j] == #[trigger] categories[k] by {
                if k < before.len() {
                    let j = choose|j: int| 0 <= j < count - 1 && #[trigger] other.categories[j]
                        == before[k];
                    assert(other.categories[j] == categories[k]);
                } else {
                    assert(other.categories[count - 1] == categories[k]);
                }
            }
        }
    } else {
        assert(others =~= Seq::empty());
    }
}

/// The links that are taken in keep the rules.
proof fn lemma_links_are_sound(
    repository: RepositoryView,
    next: RepositoryView,
    other: RepositoryView,
    count: int,
)
    requires
        repository.wf(),
        0 <= count <= other.links.len(),
        forall|i: int|
            0 <= i < repository.links.len() ==> next.has_clip(
                (#[trigger] repository.links[i]).clip_id,
            ) && next.has_category(repository.links[i].category_id),
    ensures
        ({
            let links = links_with(
                repository.links,
                next.clips,
                next.categories,
                other,
                other.links.take(count),
            );
            &&& super::links_are_distinct(links)
            &&& forall|i: int|
                0 <= i < links.len() ==> next.has_clip((#[trigger] links[i]).clip_id)
                    && next.has_category(links[i].category_id)
        }),
    decreases count,
{
    let others = other.links.take(count);
    if count > 0 {
        let rest = other.links.take(count - 1);
        assert(others.drop_last() =~= rest);
        lemma_links_are_sound(repository, next, other, count - 1);
        let before = links_with(repository.links, next.clips, next.categories, other, rest);
        let links = links_with(repository.links, next.clips, next.categories, other, others);
        if links != before {
            let link = others.last();
            let clip = other.clips[other.clip_position(link.clip_id)];
            let category = other.categories[other.category_position(link.category_id)];
            let to = slot_like(next.clips, clip);
            let into = named(next.categories, category.normalized_name);
            sequences::lemma_first_index(
                next.clips,
                |own: ClipRowView| super::same_slot(own, clip),
            );
            sequences::lemma_first_index(
                next.categories,
                |row: CategoryRowView| row.normalized_name == category.normalized_name,
            );
            let added = links.last();
            assert(added.clip_id == next.clips[to].id);
            assert(added.category_id == next.categories[into].category.id);
            assert forall|i: int, j: int| 0 <= i < j < links.len() implies !super::same_link(
                #[trigger] links[i],
                #[trigger] links[j],
            ) by {
                if j < before.len() {
                    assert(!super::same_link(before[i], before[j]));
                } else {
                    assert(before[i] == links[i]);
                }
            }
            assert forall|i: int| 0 <= i < links.len() implies next.has_clip(
                (#[trigger] links[i]).clip_id,
            ) && next.has_category(links[i].category_id) by {
                if i < before.len() {
                    assert(links[i] == before[i]);
                }
            }
        }
    } else {
        assert(others =~= Seq::empty());
    }
}

} // verus!
