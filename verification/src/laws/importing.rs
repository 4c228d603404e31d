//! What becomes of two histories when one takes in the other.

use crate::persistence;
use crate::persistence::import;
use crate::persistence::rows::{CategoryRowView, ClipRowView, LinkRowView};
use crate::persistence::RepositoryView;
use crate::sequences;
use vstd::prelude::*;

verus! {

/// Two clips have the same hash and the same domain.
pub open spec fn are_alike(a: ClipRowView, b: ClipRowView) -> bool {
    a.content_hash == b.content_hash && a.domain_key == b.domain_key
}

/// No two of the clips are alike.
spec fn all_differ(clips: Seq<ClipRowView>) -> bool {
    forall|i: int, j: int|
        0 <= i < j < clips.len() ==> !are_alike(#[trigger] clips[i], #[trigger] clips[j])
}

/// What clips are after others were taken in.
proof fn lemma_taken_in(clips: Seq<ClipRowView>, others: Seq<ClipRowView>)
    requires
        all_differ(clips),
        all_differ(others),
    ensures
        ({
            let all = import::clips_with(clips, others);
            &&& all.len() >= clips.len()
            &&& all_differ(all)
            &&& forall|i: int|
                0 <= i < clips.len() && (forall|j: int|
                    0 <= j < others.len() ==> !are_alike(clips[i], #[trigger] others[j]))
                    ==> #[trigger] all[i] == clips[i]
            &&& forall|i: int, j: int|
                0 <= i < clips.len() && 0 <= j < others.len() && are_alike(clips[i], others[j])
                    ==> #[trigger] all[i] == import::taken_in(clips[i], #[trigger] others[j])
            &&& forall|i: int|
                0 <= i < clips.len() ==> are_alike(#[trigger] all[i], clips[i])
            &&& forall|k: int|
                clips.len() <= k < all.len() ==> others.contains(#[trigger] all[k])
            &&& forall|j: int|
                0 <= j < others.len() && (forall|i: int|
                    0 <= i < clips.len() ==> !are_alike(#[trigger] clips[i], others[j]))
                    ==> all.contains(#[trigger] others[j])
        }),
    decreases others.len(),
{
    if others.len() > 0 {
        let rest = others.drop_last();
        let last = others.last();
        let n = others.len() - 1;
        let before = import::clips_with(clips, rest);
        let all = import::clips_with(clips, others);
        assert(last == others[n]);
        assert forall|j: int| 0 <= j < rest.len() implies #[trigger] others[j] == rest[j] by {}
        assert(all_differ(rest)) by {
            assert forall|i: int, j: int| 0 <= i < j < rest.len() implies !are_alike(
                #[trigger] rest[i],
                #[trigger] rest[j],
            ) by {
                assert(!are_alike(others[i], others[j]));
            }
        }
        lemma_taken_in(clips, rest);
        let alike = |own: ClipRowView| persistence::same_slot(own, last);
        sequences::lemma_first_index(before, alike);
        let at = import::slot_like(before, last);
        assert forall|j: int| 0 <= j < rest.len() implies !are_alike(#[trigger] rest[j], last) by {
            assert(!are_alike(others[j], others[n]));
        }
        if at < before.len() {
            assert(are_alike(before[at], last));
            assert(at < clips.len()) by {
                if at >= clips.len() {
                    assert(rest.contains(before[at]));
                    let j = choose|j: int| 0 <= j < rest.len() && rest[j] == before[at];
                    assert(!are_alike(rest[j], last));
                }
            }
            assert(are_alike(clips[at], last));
            assert(before[at] == clips[at]) by {
                assert forall|j: int| 0 <= j < rest.len() implies !are_alike(
                    clips[at],
                    #[trigger] rest[j],
                ) by {
                    if are_alike(clips[at], rest[j]) {
                        assert(are_alike(rest[j], last));
                    }
                }
            }
        } else {
            assert forall|k: int| 0 <= k < before.len() implies !are_alike(
                #[trigger] before[k],
                last,
            ) by {
                assert(!alike(before[k]));
            }
            assert forall|i: int| 0 <= i < clips.len() implies !are_alike(
                #[trigger] clips[i],
                last,
            ) by {
                assert(are_alike(before[i], clips[i]));
            }
        }
        assert(all_differ(all)) by {
            assert forall|i: int, j: int| 0 <= i < j < all.len() implies !are_alike(
                #[trigger] all[i],
                #[trigger] all[j],
            ) by {
                if j < before.len() {
                    assert(are_alike(all[i], before[i]));
                    assert(are_alike(all[j], before[j]));
                    assert(!are_alike(before[i], before[j]));
                }
            }
        }
        assert forall|i: int|
            0 <= i < clips.len() && (forall|j: int|
                0 <= j < others.len() ==> !are_alike(clips[i], #[trigger] others[j]))
            implies #[trigger] all[i] == clips[i] by {
            assert forall|j: int| 0 <= j < rest.len() implies !are_alike(
                clips[i],
                #[trigger] rest[j],
            ) by {
                assert(!are_alike(clips[i], others[j]));
            }
            assert(before[i] == clips[i]);
            assert(!are_alike(clips[i], others[n]));
        }
        assert forall|i: int, j: int|
            0 <= i < clips.len() && 0 <= j < others.len() && are_alike(clips[i], others[j])
            implies #[trigger] all[i] == import::taken_in(clips[i], #[trigger] others[j]) by {
            if j < n {
                assert(rest[j] == others[j]);
                assert(before[i] == import::taken_in(clips[i], rest[j]));
                assert(!are_alike(others[j], others[n]));
                assert(i != at);
            } else {
                assert(are_alike(before[i], clips[i]));
                if at < before.len() && i != at {
                    if i < at {
                        assert(!are_alike(before[i], before[at]));
                    } else {
                        assert(!are_alike(before[at], before[i]));
                    }
                }
            }
        }
        assert forall|k: int| clips.len() <= k < all.len() implies others.contains(
            #[trigger] all[k],
        ) by {
            if k < before.len() {
                assert(all[k] == before[k]);
                assert(rest.contains(before[k]));
                let j = choose|j: int| 0 <= j < rest.len() && rest[j] == before[k];
                assert(others[j] == all[k]);
            } else {
                assert(others[n] == all[k]);
            }
        }
        assert forall|j: int|
            0 <= j < others.len() && (forall|i: int|
                0 <= i < clips.len() ==> !are_alike(#[trigger] clips[i], others[j]))
            implies all.contains(#[trigger] others[j]) by {
            if j < n {
                assert(rest[j] == others[j]);
                assert(before.contains(rest[j]));
                let k = choose|k: int| 0 <= k < before.len() && before[k] == rest[j];
                if k == at && at < clips.len() {
                    assert(are_alike(before[k], clips[k]));
                    assert(!are_alike(clips[k], others[j]));
                }
                assert(all[k] == before[k]);
            } else {
                if at < before.len() {
                    assert(!are_alike(clips[at], others[j]));
                }
                assert(all[before.len() as int] == last);
            }
        }
    }
}

proof fn lemma_differ(history: RepositoryView)
    requires
        history.wf(),
    ensures
        all_differ(history.clips),
{
    assert forall|i: int, j: int| 0 <= i < j < history.clips.len() implies !are_alike(
        #[trigger] history.clips[i],
        #[trigger] history.clips[j],
    ) by {
        assert(!persistence::same_slot(history.clips[i], history.clips[j]));
    }
}

/// A clip that the other history has not is left as it is.
pub proof fn clips_of_one_history_stay(history: RepositoryView, other: RepositoryView, i: int)
    requires
        history.wf(),
        other.wf(),
        0 <= i < history.clips.len(),
        forall|j: int|
            0 <= j < other.clips.len() ==> !are_alike(history.clips[i], #[trigger] other.clips[j]),
    ensures
        history.with_history(other).clips[i] == history.clips[i],
{
    lemma_differ(history);
    lemma_differ(other);
    lemma_taken_in(history.clips, other.clips);
}

/// A clip that only the other history has is taken in as it is.
pub proof fn clips_of_the_other_history_are_added(
    history: RepositoryView,
    other: RepositoryView,
    j: int,
)
    requires
        history.wf(),
        other.wf(),
        0 <= j < other.clips.len(),
        forall|i: int|
            0 <= i < history.clips.len() ==> !are_alike(
                #[trigger] history.clips[i],
                other.clips[j],
            ),
    ensures
        history.with_history(other).clips.contains(other.clips[j]),
{
    lemma_differ(history);
    lemma_differ(other);
    lemma_taken_in(history.clips, other.clips);
}

/// A clip that both histories have keeps its identifier, its type and its payload; it has the text
/// of the later of the two copies and its title, or else the title of the other; it was created
/// when the earlier was, counts the copies of the one that counts more, and is pinned if one of
/// them is.
pub proof fn clips_of_both_histories_are_joined(
    history: RepositoryView,
    other: RepositoryView,
    i: int,
    j: int,
)
    requires
        history.wf(),
        other.wf(),
        0 <= i < history.clips.len(),
        0 <= j < other.clips.len(),
        are_alike(history.clips[i], other.clips[j]),
    ensures
        ({
            let own = history.clips[i];
            let came = other.clips[j];
            let row = history.with_history(other).clips[i];
            let later = if came.last_copied_at > own.last_copied_at {
                came
            } else {
                own
            };
            let earlier = if came.last_copied_at > own.last_copied_at {
                own
            } else {
                came
            };
            &&& row.id == own.id
            &&& row.content_hash == own.content_hash
            &&& row.content_type == own.content_type
            &&& row.domain == own.domain
            &&& row.domain_key == own.domain_key
            &&& row.payload_kind == own.payload_kind
            &&& row.blob_hash == own.blob_hash
            &&& row.content == later.content
            &&& row.last_copied_at == later.last_copied_at
            &&& later.page_title is Some ==> row.page_title == later.page_title
            &&& later.page_title is None ==> row.page_title == earlier.page_title
            &&& row.created_at <= own.created_at && row.created_at <= came.created_at
            &&& row.created_at == own.created_at || row.created_at == came.created_at
            &&& row.copy_count >= own.copy_count && row.copy_count >= came.copy_count
            &&& row.copy_count == own.copy_count || row.copy_count == came.copy_count
            &&& row.sort_key >= own.sort_key && row.sort_key >= came.sort_key
            &&& row.sort_key == own.sort_key || row.sort_key == came.sort_key
            &&& row.pinned <==> own.pinned || came.pinned
        }),
{
    lemma_differ(history);
    lemma_differ(other);
    lemma_taken_in(history.clips, other.clips);
    assert(are_alike(history.clips[i], other.clips[j]));
}

/// No clip comes from anywhere else, and none twice.
pub proof fn every_clip_comes_from_one_history(
    history: RepositoryView,
    other: RepositoryView,
    a: int,
    b: int,
)
    requires
        history.wf(),
        other.wf(),
        0 <= a < b < history.with_history(other).clips.len(),
    ensures
        ({
            let next = history.with_history(other);
            &&& !are_alike(next.clips[a], next.clips[b])
            &&& b >= history.clips.len() ==> other.clips.contains(next.clips[b])
            &&& b < history.clips.len() ==> are_alike(next.clips[b], history.clips[b])
            &&& next.blobs == history.blobs
            &&& next.blob_root == history.blob_root
        }),
{
    lemma_differ(history);
    lemma_differ(other);
    lemma_taken_in(history.clips, other.clips);
}

/// Taking in a history a second time leaves every clip as it is.
pub proof fn importing_twice_changes_no_clip(history: RepositoryView, other: RepositoryView, i: int)
    requires
        history.wf(),
        other.wf(),
        history.with_history(other).wf(),
        0 <= i < history.with_history(other).clips.len(),
    ensures
        history.with_history(other).with_history(other).clips[i] == history.with_history(
            other,
        ).clips[i],
{
    let once = history.with_history(other);
    lemma_differ(history);
    lemma_differ(other);
    lemma_differ(once);
    lemma_taken_in(history.clips, other.clips);
    lemma_taken_in(once.clips, other.clips);
    if exists|j: int| 0 <= j < other.clips.len() && are_alike(once.clips[i], #[trigger] other.clips[j]) {
        let j = choose|j: int|
            0 <= j < other.clips.len() && are_alike(once.clips[i], #[trigger] other.clips[j]);
        assert(once.with_history(other).clips[i] == import::taken_in(
            once.clips[i],
            other.clips[j],
        ));
        if i < history.clips.len() {
            assert(are_alike(once.clips[i], history.clips[i]));
            assert(are_alike(history.clips[i], other.clips[j]));
            assert(once.clips[i] == import::taken_in(history.clips[i], other.clips[j]));
        } else {
            assert(other.clips.contains(once.clips[i]));
            let k = choose|k: int| 0 <= k < other.clips.len() && other.clips[k] == once.clips[i];
            if k < j {
                assert(!are_alike(other.clips[k], other.clips[j]));
            } else if j < k {
                assert(!are_alike(other.clips[j], other.clips[k]));
            }
        }
    } else {
        assert(once.with_history(other).clips[i] == once.clips[i]);
    }
}

/// A category of the other history is taken in as it is exactly if none has its name.
pub proof fn new_names_are_taken_in(history: RepositoryView, other: RepositoryView, j: int)
    requires
        history.wf(),
        other.wf(),
        0 <= j < other.categories.len(),
    ensures
        ({
            let next = history.with_history(other).categories;
            let known = exists|i: int|
                0 <= i < history.categories.len() && (
                #[trigger] history.categories[i]).normalized_name
                    == other.categories[j].normalized_name;
            &&& next.len() >= history.categories.len()
            &&& forall|i: int|
                0 <= i < history.categories.len() ==> #[trigger] next[i] == history.categories[i]
            &&& !known ==> next.contains(other.categories[j])
            &&& forall|k: int|
                history.categories.len() <= k < next.len() ==> other.categories.contains(
                    #[trigger] next[k],
                ) && forall|i: int|
                    0 <= i < history.categories.len() ==> (
                    #[trigger] history.categories[i]).normalized_name != next[k].normalized_name
        }),
{
    lemma_categories(history.categories, other.categories);
}

/// What categories are after others were taken in.
proof fn lemma_categories(own: Seq<CategoryRowView>, others: Seq<CategoryRowView>)
    requires
        forall|i: int, j: int|
            0 <= i < j < others.len() ==> (#[trigger] others[i]).normalized_name != (
            #[trigger] others[j]).normalized_name,
    ensures
        ({
            let all = import::categories_with(own, others);
            &&& all.len() >= own.len()
            &&& forall|i: int| 0 <= i < own.len() ==> #[trigger] all[i] == own[i]
            &&& forall|k: int|
                own.len() <= k < all.len() ==> others.contains(#[trigger] all[k]) && forall|i: int|
                    0 <= i < own.len() ==> (#[trigger] own[i]).normalized_name
                        != all[k].normalized_name
            &&& forall|j: int|
                0 <= j < others.len() && (forall|i: int|
                    0 <= i < own.len() ==> (#[trigger] own[i]).normalized_name
                        != others[j].normalized_name) ==> all.contains(#[trigger] others[j])
        }),
    decreases others.len(),
{
    if others.len() > 0 {
        let rest = others.drop_last();
        let last = others.last();
        let n = others.len() - 1;
        assert(last == others[n]);
        assert forall|j: int| 0 <= j < rest.len() implies #[trigger] others[j] == rest[j] by {}
        assert forall|i: int, j: int| 0 <= i < j < rest.len() implies (
        #[trigger] rest[i]).normalized_name != (#[trigger] rest[j]).normalized_name by {
            assert(others[i].normalized_name != others[j].normalized_name);
        }
        lemma_categories(own, rest);
        let before = import::categories_with(own, rest);
        let all = import::categories_with(own, others);
        let name = last.normalized_name;
        let same = |row: CategoryRowView| row.normalized_name == name;
        sequences::lemma_first_index(before, same);
        let at = import::named(before, name);
        assert forall|k: int| own.len() <= k < all.len() implies others.contains(
            #[trigger] all[k],
        ) && forall|i: int|
            0 <= i < own.len() ==> (#[trigger] own[i]).normalized_name
                != all[k].normalized_name by {
            if k < before.len() {
                assert(all[k] == before[k]);
                assert(rest.contains(before[k]));
                let j = choose|j: int| 0 <= j < rest.len() && rest[j] == before[k];
                assert(others[j] == all[k]);
            } else {
                assert(others[n] == all[k]);
                assert forall|i: int| 0 <= i < own.len() implies (
                #[trigger] own[i]).normalized_name != all[k].normalized_name by {
                    assert(before[i] == own[i]);
                    assert(!same(before[i]));
                }
            }
        }
        assert forall|j: int|
            0 <= j < others.len() && (forall|i: int|
                0 <= i < own.len() ==> (#[trigger] own[i]).normalized_name
                    != others[j].normalized_name) implies all.contains(#[trigger] others[j]) by {
            if j < n {
                assert(rest[j] == others[j]);
                assert(before.contains(rest[j]));
                let k = choose|k: int| 0 <= k < before.len() && before[k] == rest[j];
                assert(all[k] == before[k]);
            } else if at < before.len() {
                if at < own.len() {
                    assert(own[at].normalized_name != others[j].normalized_name);
                } else {
                    assert(rest.contains(before[at]));
                    let m = choose|m: int| 0 <= m < rest.len() && rest[m] == before[at];
                    assert(others[m].normalized_name != others[n].normalized_name);
                }
            } else {
                assert(all[before.len() as int] == last);
            }
        }
    }
}

/// A link that was not there before stands for one of the other history: between the clip that its
/// clip was taken in as, and the category with the name of its category.
pub proof fn new_links_come_from_the_other_history(
    history: RepositoryView,
    other: RepositoryView,
    m: int,
) -> (link: int)
    requires
        history.wf(),
        other.wf(),
        history.links.len() <= m < history.with_history(other).links.len(),
    ensures
        0 <= link < other.links.len(),
        ({
            let next = history.with_history(other);
            exists|to: int, into: int, clip: int, category: int|
                #![trigger next.clips[to], next.categories[into], other.clips[clip], other.categories[category]]
                {
                    &&& 0 <= to < next.clips.len()
                    &&& 0 <= into < next.categories.len()
                    &&& 0 <= clip < other.clips.len()
                    &&& 0 <= category < other.categories.len()
                    &&& other.links[link].clip_id == other.clips[clip].id
                    &&& other.links[link].category_id == other.categories[category].category.id
                    &&& are_alike(next.clips[to], other.clips[clip])
                    &&& next.categories[into].normalized_name
                        == other.categories[category].normalized_name
                    &&& next.links[m].clip_id == next.clips[to].id
                    &&& next.links[m].category_id == next.categories[into].category.id
                    &&& next.links[m].created_at == other.links[link].created_at
                }
        }),
{
    let next = history.with_history(other);
    lemma_new_link(history.links, next, other, other.links, m)
}

proof fn lemma_new_link(
    links: Seq<LinkRowView>,
    next: RepositoryView,
    other: RepositoryView,
    others: Seq<LinkRowView>,
    m: int,
) -> (link: int)
    requires
        links.len() <= m < import::links_with(
            links,
            next.clips,
            next.categories,
            other,
            others,
        ).len(),
    ensures
        0 <= link < others.len(),
        ({
            let row = import::links_with(links, next.clips, next.categories, other, others)[m];
            exists|to: int, into: int, clip: int, category: int|
                #![trigger next.clips[to], next.categories[into], other.clips[clip], other.categories[category]]
                {
                    &&& 0 <= to < next.clips.len()
                    &&& 0 <= into < next.categories.len()
                    &&& 0 <= clip < other.clips.len()
                    &&& 0 <= category < other.categories.len()
                    &&& others[link].clip_id == other.clips[clip].id
                    &&& others[link].category_id == other.categories[category].category.id
                    &&& are_alike(next.clips[to], other.clips[clip])
                    &&& next.categories[into].normalized_name
                        == other.categories[category].normalized_name
                    &&& row.clip_id == next.clips[to].id
                    &&& row.category_id == next.categories[into].category.id
                    &&& row.created_at == others[link].created_at
                }
        }),
    decreases others.len(),
{
    let rest = others.drop_last();
    let before = import::links_with(links, next.clips, next.categories, other, rest);
    let all = import::links_with(links, next.clips, next.categories, other, others);
    if m < before.len() {
        let link = lemma_new_link(links, next, other, rest, m);
        assert(rest[link] == others[link]);
        assert(all[m] == before[m]);
        link
    } else {
        let last = others.last();
        let clip = other.clip_position(last.clip_id);
        let category = other.category_position(last.category_id);
        let id = last.clip_id;
        let category_id = last.category_id;
        sequences::lemma_first_index(other.clips, |row: ClipRowView| row.id == id);
        sequences::lemma_first_index(
            other.categories,
            |row: CategoryRowView| row.category.id == category_id,
        );
        let source = other.clips[clip];
        let name = other.categories[category].normalized_name;
        sequences::lemma_first_index(
            next.clips,
            |own: ClipRowView| persistence::same_slot(own, source),
        );
        sequences::lemma_first_index(
            next.categories,
            |row: CategoryRowView| row.normalized_name == name,
        );
        let to = import::slot_like(next.clips, source);
        let into = import::named(next.categories, name);
        assert(are_alike(next.clips[to], other.clips[clip]));
        assert(next.categories[into].normalized_name == other.categories[category].normalized_name);
        others.len() - 1
    }
}

/// A history keeps its own links and takes in those of the other: the clip that a clip was taken
/// in as is in the category with the name of its category.
pub proof fn links_of_the_other_history_are_taken_in(
    history: RepositoryView,
    other: RepositoryView,
    link: int,
    clip: int,
    category: int,
) -> (r: (int, int, int))
    requires
        history.wf(),
        other.wf(),
        0 <= link < other.links.len(),
        0 <= clip < other.clips.len(),
        0 <= category < other.categories.len(),
        other.links[link].clip_id == other.clips[clip].id,
        other.links[link].category_id == other.categories[category].category.id,
    ensures
        ({
            let next = history.with_history(other);
            let (m, to, into) = r;
            &&& next.links.len() >= history.links.len()
            &&& forall|i: int|
                0 <= i < history.links.len() ==> #[trigger] next.links[i] == history.links[i]
            &&& 0 <= m < next.links.len()
            &&& 0 <= to < next.clips.len()
            &&& 0 <= into < next.categories.len()
            &&& next.links[m].clip_id == next.clips[to].id
            &&& next.links[m].category_id == next.categories[into].category.id
            &&& are_alike(next.clips[to], other.clips[clip])
            &&& next.categories[into].normalized_name == other.categories[category].normalized_name
        }),
{
    let next = history.with_history(other);
    import::importing_takes_in_every_link(history, other, link);
    persistence::laws::lemma_clip_found(other, clip);
    let id = other.categories[category].category.id;
    sequences::lemma_is_first_index(
        other.categories,
        |row: CategoryRowView| row.category.id == id,
        category,
    );
    let source = other.clips[clip];
    let name = other.categories[category].normalized_name;
    sequences::lemma_first_index(
        next.clips,
        |own: ClipRowView| persistence::same_slot(own, source),
    );
    sequences::lemma_first_index(
        next.categories,
        |row: CategoryRowView| row.normalized_name == name,
    );
    let to = import::slot_like(next.clips, source);
    let into = import::named(next.categories, name);
    let clip_id = next.clips[to].id;
    let category_id = next.categories[into].category.id;
    assert(next.has_link(clip_id, category_id));
    let m = choose|m: int|
        0 <= m < next.links.len() && (#[trigger] next.links[m]).clip_id == clip_id
            && next.links[m].category_id == category_id;
    assert forall|i: int| 0 <= i < history.links.len() implies #[trigger] next.links[i]
        == history.links[i] by {
        assert(history.links.is_prefix_of(next.links));
        assert(next.links.take(history.links.len() as int)[i] == history.links[i]);
    }
    (m, to, into)
}

} // verus!
