//! What becomes of the rows of an earlier version.

use crate::persistence::legacy::{
    DatabaseView, LegacyCategoryView, LegacyClipView, LegacyLinkView, TimeView,
};
use crate::persistence::migrations;
use crate::persistence::RepositoryError;
use crate::sequences;
use crate::text;
use vstd::prelude::*;

verus! {

/// The domain of a clip; an absent one is empty.
pub open spec fn domain_of(clip: LegacyClipView) -> Seq<char> {
    match clip.domain {
        Some(domain) => domain,
        None => Seq::empty(),
    }
}

/// Two clips are of the same text on the same domain.
pub open spec fn are_duplicates(a: LegacyClipView, b: LegacyClipView) -> bool {
    a.content_hash == b.content_hash && domain_of(a) == domain_of(b)
}

/// The clip at `i` was created first of those that are duplicates of `clip`; of several created
/// at the same time it stands first.
pub open spec fn was_created_first(clips: Seq<LegacyClipView>, clip: LegacyClipView, i: int) -> bool {
    &&& 0 <= i < clips.len()
    &&& are_duplicates(clips[i], clip)
    &&& forall|j: int|
        0 <= j < clips.len() && are_duplicates(#[trigger] clips[j], clip)
            ==> !clips[j].created_at.before(clips[i].created_at)
    &&& forall|j: int|
        0 <= j < i && are_duplicates(#[trigger] clips[j], clip) ==> clips[i].created_at.before(
            clips[j].created_at,
        )
}

/// The clip at `i` was copied last of those that are duplicates of `clip`.
pub open spec fn was_copied_last(clips: Seq<LegacyClipView>, clip: LegacyClipView, i: int) -> bool {
    &&& 0 <= i < clips.len()
    &&& are_duplicates(clips[i], clip)
    &&& forall|j: int|
        0 <= j < clips.len() && are_duplicates(#[trigger] clips[j], clip)
            ==> !clips[i].last_copied_at.before(clips[j].last_copied_at)
}

/// The clip has a title that is not empty.
pub open spec fn has_title(clip: LegacyClipView) -> bool {
    clip.page_title is Some && clip.page_title->0.len() > 0
}

/// The clip at `i` was copied last of those that are duplicates of `clip` and have a title; of
/// several copied at the same time it stands last.
pub open spec fn was_titled_last(clips: Seq<LegacyClipView>, clip: LegacyClipView, i: int) -> bool {
    &&& 0 <= i < clips.len()
    &&& are_duplicates(clips[i], clip)
    &&& has_title(clips[i])
    &&& forall|j: int|
        0 <= j < clips.len() && are_duplicates(#[trigger] clips[j], clip) && has_title(clips[j])
            ==> !clips[i].last_copied_at.before(clips[j].last_copied_at)
    &&& forall|j: int|
        i < j < clips.len() && are_duplicates(#[trigger] clips[j], clip) && has_title(clips[j])
            ==> clips[j].last_copied_at.before(clips[i].last_copied_at)
}

/// How often the duplicates of a clip were copied in all.
pub open spec fn copies_of(clips: Seq<LegacyClipView>, clip: LegacyClipView) -> int
    decreases clips.len(),
{
    if clips.len() == 0 {
        0
    } else if are_duplicates(clips.last(), clip) {
        copies_of(clips.drop_last(), clip) + clips.last().copy_count
    } else {
        copies_of(clips.drop_last(), clip)
    }
}

/// The order of stored moments is that of their numbers, then that of their texts.
pub proof fn moments_are_in_order(a: TimeView, b: TimeView, c: TimeView)
    ensures
        !a.before(a),
        a.before(b) && b.before(c) ==> a.before(c),
        a.before(b) ==> a.before(c) || c.before(b),
        a.number() matches Some(x) ==> (b.number() matches Some(y) ==> (a.before(b) <==> x < y)),
        a.number() is Some && b.number() is None ==> a.before(b),
{
    if a is Text && b is Text && c is Text {
        text::lemma_lex_total(a->Text_text, c->Text_text);
        text::lemma_lex_total(c->Text_text, b->Text_text);
        if text::lex_before(a->Text_text, b->Text_text) && text::lex_before(
            b->Text_text,
            c->Text_text,
        ) {
            text::lemma_lex_transitive(a->Text_text, b->Text_text, c->Text_text);
        }
        if text::lex_before(c->Text_text, a->Text_text) && text::lex_before(
            a->Text_text,
            b->Text_text,
        ) {
            text::lemma_lex_transitive(c->Text_text, a->Text_text, b->Text_text);
        }
    }
    if a is Text {
        text::lemma_lex_irreflexive(a->Text_text);
    }
}

/// What is gathered from the duplicates of a clip.
proof fn lemma_gathered(clips: Seq<LegacyClipView>, clip: LegacyClipView) -> (r: (int, int, int))
    requires
        exists|k: int| 0 <= k < clips.len() && are_duplicates(#[trigger] clips[k], clip),
    ensures
        migrations::gathered(clips, clip.content_hash, clip.key()) matches Some(all) && {
            &&& was_created_first(clips, clip, r.0)
            &&& all.id == clips[r.0].id
            &&& all.content == clips[r.0].content
            &&& all.content_type == clips[r.0].content_type
            &&& all.created_at == clips[r.0].created_at
            &&& was_copied_last(clips, clip, r.1)
            &&& all.last_copied_at == clips[r.1].last_copied_at
            &&& all.title is Some ==> was_titled_last(clips, clip, r.2) && all.title == Some(
                (clips[r.2].last_copied_at, clips[r.2].page_title->0),
            )
            &&& all.title is None ==> forall|j: int|
                0 <= j < clips.len() && are_duplicates(#[trigger] clips[j], clip) ==> !has_title(
                    clips[j],
                )
            &&& all.total == copies_of(clips, clip)
            &&& all.pinned <==> exists|j: int|
                0 <= j < clips.len() && are_duplicates(#[trigger] clips[j], clip) && clips[j].pinned
            &&& forall|j: int|
                0 <= j < clips.len() && are_duplicates(#[trigger] clips[j], clip)
                    ==> clips[j].sort_key <= all.sort_key
            &&& exists|j: int|
                0 <= j < clips.len() && are_duplicates(#[trigger] clips[j], clip)
                    && clips[j].sort_key == all.sort_key
        },
    decreases clips.len(),
{
    let rest = clips.drop_last();
    let last = clips.last();
    let n = clips.len() - 1;
    assert(last == clips[n]);
    assert(last.in_slot(clip.content_hash, clip.key()) == are_duplicates(last, clip));
    assert forall|k: int| 0 <= k < rest.len() implies rest[k] == #[trigger] clips[k] by {}
    if exists|k: int| 0 <= k < rest.len() && are_duplicates(#[trigger] rest[k], clip) {
        let old = lemma_gathered(rest, clip);
        let before = migrations::gathered(rest, clip.content_hash, clip.key())->0;
        assert(rest[old.0] == clips[old.0] && rest[old.1] == clips[old.1]);
        let s = choose|j: int|
            0 <= j < rest.len() && are_duplicates(#[trigger] rest[j], clip) && rest[j].sort_key
                == before.sort_key;
        assert(rest[s] == clips[s]);
        if before.pinned {
            let p = choose|j: int|
                0 <= j < rest.len() && are_duplicates(#[trigger] rest[j], clip) && rest[j].pinned;
            assert(rest[p] == clips[p]);
        }
        assert forall|j: int| 0 <= j < rest.len() implies #[trigger] clips[j] == rest[j] by {}
        if are_duplicates(last, clip) {
            let all = before.joined(last);
            let first = if last.created_at.before(before.created_at) {
                n
            } else {
                old.0
            };
            let latest = if before.last_copied_at.before(last.last_copied_at) {
                n
            } else {
                old.1
            };
            let titled = match (before.title, last.titled()) {
                (Some((at, _)), Some((when, _))) if when.before(at) => old.2,
                (_, None) => old.2,
                _ => n,
            };
            assert forall|j: int|
                0 <= j < clips.len() && are_duplicates(#[trigger] clips[j], clip) implies !clips[
                j].created_at.before(clips[first].created_at) && (j < first
                ==> clips[first].created_at.before(clips[j].created_at)) by {
                moments_are_in_order(
                    clips[j].created_at,
                    last.created_at,
                    before.created_at,
                );
                moments_are_in_order(
                    last.created_at,
                    before.created_at,
                    clips[j].created_at,
                );
                moments_are_in_order(last.created_at, last.created_at, last.created_at);
                if j < n {
                    assert(clips[j] == rest[j]);
                }
            }
            assert forall|j: int|
                0 <= j < clips.len() && are_duplicates(#[trigger] clips[j], clip) implies !clips[
                latest].last_copied_at.before(clips[j].last_copied_at) by {
                moments_are_in_order(
                    before.last_copied_at,
                    last.last_copied_at,
                    clips[j].last_copied_at,
                );
                moments_are_in_order(
                    last.last_copied_at,
                    last.last_copied_at,
                    last.last_copied_at,
                );
                if j < n {
                    assert(clips[j] == rest[j]);
                }
            }
            lemma_titled(clips, clip, before.title, old.2, titled);
            assert(are_duplicates(clips[n], clip));
            (first, latest, titled)
        } else {
            assert(migrations::gathered(clips, clip.content_hash, clip.key()) == Some(before));
            if before.title is Some {
                assert(rest[old.2] == clips[old.2]);
            }
            old
        }
    } else {
        assert(are_duplicates(last, clip)) by {
            let k = choose|k: int| 0 <= k < clips.len() && are_duplicates(#[trigger] clips[k], clip);
            if k < n {
                assert(rest[k] == clips[k]);
            }
        }
        migrations::lemma_gathers(rest, clip.content_hash, clip.key());
        assert(migrations::gathered(rest, clip.content_hash, clip.key()) is None) by {
            if migrations::has_slot(rest, clip.content_hash, clip.key()) {
                let i = choose|i: int|
                    0 <= i < rest.len() && (#[trigger] rest[i]).in_slot(
                        clip.content_hash,
                        clip.key(),
                    );
                assert(are_duplicates(rest[i], clip));
            }
        }
        lemma_no_copies(rest, clip);
        moments_are_in_order(last.created_at, last.created_at, last.created_at);
        moments_are_in_order(last.last_copied_at, last.last_copied_at, last.last_copied_at);
        assert forall|j: int|
            0 <= j < clips.len() && are_duplicates(#[trigger] clips[j], clip) implies j == n by {
            if j < n {
                assert(rest[j] == clips[j]);
            }
        }
        assert(are_duplicates(clips[n], clip));
        (n, n, n)
    }
}

/// Where there is no duplicate, nothing was copied.
proof fn lemma_no_copies(clips: Seq<LegacyClipView>, clip: LegacyClipView)
    requires
        forall|k: int| 0 <= k < clips.len() ==> !are_duplicates(#[trigger] clips[k], clip),
    ensures
        copies_of(clips, clip) == 0,
    decreases clips.len(),
{
    if clips.len() > 0 {
        let rest = clips.drop_last();
        assert forall|k: int| 0 <= k < rest.len() implies !are_duplicates(
            #[trigger] rest[k],
            clip,
        ) by {
            assert(!are_duplicates(clips[k], clip));
        }
        lemma_no_copies(rest, clip);
        assert(!are_duplicates(clips[clips.len() - 1], clip));
    }
}

/// Which title is gathered once one more clip is there.
proof fn lemma_titled(
    clips: Seq<LegacyClipView>,
    clip: LegacyClipView,
    title: Option<(TimeView, Seq<char>)>,
    old: int,
    titled: int,
)
    requires
        clips.len() > 0,
        are_duplicates(clips.last(), clip),
        ({
            let rest = clips.drop_last();
            &&& title is Some ==> was_titled_last(rest, clip, old) && title == Some(
                (rest[old].last_copied_at, rest[old].page_title->0),
            )
            &&& title is None ==> forall|j: int|
                0 <= j < rest.len() && are_duplicates(#[trigger] rest[j], clip) ==> !has_title(
                    rest[j],
                )
            &&& titled == match (title, clips.last().titled()) {
                (Some((at, _)), Some((when, _))) if when.before(at) => old,
                (_, None) => old,
                _ => clips.len() - 1,
            }
        }),
    ensures
        title is Some || has_title(clips.last()) ==> was_titled_last(clips, clip, titled),
        title is None && !has_title(clips.last()) ==> forall|j: int|
            0 <= j < clips.len() && are_duplicates(#[trigger] clips[j], clip) ==> !has_title(
                clips[j],
            ),
{
    let rest = clips.drop_last();
    let last = clips.last();
    let n = clips.len() - 1;
    assert(last == clips[n]);
    assert forall|j: int| 0 <= j < rest.len() implies #[trigger] clips[j] == rest[j] by {}
    if title is Some {
        assert(rest[old] == clips[old]);
    }
    if title is Some || has_title(last) {
        assert forall|j: int|
            0 <= j < clips.len() && are_duplicates(#[trigger] clips[j], clip) && has_title(
                clips[j],
            ) implies !clips[titled].last_copied_at.before(clips[j].last_copied_at) && (j > titled
            ==> clips[j].last_copied_at.before(clips[titled].last_copied_at)) by {
            if j < n {
                assert(clips[j] == rest[j]);
            }
            moments_are_in_order(last.last_copied_at, last.last_copied_at, last.last_copied_at);
            if title is Some {
                moments_are_in_order(
                    last.last_copied_at,
                    clips[j].last_copied_at,
                    clips[old].last_copied_at,
                );
                moments_are_in_order(
                    last.last_copied_at,
                    clips[old].last_copied_at,
                    last.last_copied_at,
                );
            }
        }
    } else {
        assert forall|j: int|
            0 <= j < clips.len() && are_duplicates(#[trigger] clips[j], clip) implies !has_title(
            clips[j],
        ) by {
            if j < n {
                assert(clips[j] == rest[j]);
            }
        }
    }
}

/// A stored moment as a number of milliseconds: what a text denotes, or the present; a positive
/// number before the year 2000 counts seconds.
pub open spec fn in_millis(time: TimeView, now: i64) -> int {
    match time {
        TimeView::Text { millis: Some(millis), .. } => millis as int,
        TimeView::Text { millis: None, .. } => now as int,
        TimeView::Number(number) => if 0 < number < 946_684_800_000 {
            number * 1000
        } else {
            number as int
        },
        TimeView::Millis(millis) => millis as int,
    }
}

/// After the clips are merged, each has the identifier, the content and the type of one of the
/// clips with its hash and domain that were there before, namely of the one created first; it
/// was created when that was, and copied when the last of them was.
pub proof fn merged_clips_are_those_created_first(database: DatabaseView, now: i64, k: int) -> (r: (
    int,
    int,
))
    requires
        database.rebuilt(now) is Some,
        0 <= k < database.rebuilt(now)->0.clips.len(),
    ensures
        ({
            let row = database.rebuilt(now)->0.clips[k];
            let first = database.clips[r.0];
            let last = database.clips[r.1];
            &&& was_created_first(database.clips, row, r.0)
            &&& row.id == first.id
            &&& row.content == first.content
            &&& row.content_hash == first.content_hash
            &&& row.content_type == first.content_type
            &&& row.created_at.number() is Some
            &&& row.created_at.number()->0 == in_millis(first.created_at, now)
            &&& was_copied_last(database.clips, row, r.1)
            &&& row.last_copied_at.number() is Some
            &&& row.last_copied_at.number()->0 == in_millis(last.last_copied_at, now)
        }),
{
    let (clip, found) = lemma_merged(database, now, k);
    let row = database.rebuilt(now)->0.clips[k];
    lemma_same_first(database.clips, clip, row, found.0);
    lemma_same_last(database.clips, clip, row, found.1);
    (found.0, found.1)
}

/// After the clips are merged, each has the domain of the clips with its hash and domain that were
/// there before, if that is not empty, and the title that was copied last with one of them.
pub proof fn merged_clips_have_the_last_title(database: DatabaseView, now: i64, k: int) -> (i: int)
    requires
        database.rebuilt(now) is Some,
        0 <= k < database.rebuilt(now)->0.clips.len(),
    ensures
        ({
            let row = database.rebuilt(now)->0.clips[k];
            &&& row.page_title is Some ==> was_titled_last(database.clips, row, i)
                && row.page_title == database.clips[i].page_title
            &&& row.page_title is None ==> forall|j: int|
                0 <= j < database.clips.len() && are_duplicates(#[trigger] database.clips[j], row)
                    ==> !has_title(database.clips[j])
            &&& row.domain is Some ==> row.domain->0.len() > 0
            &&& row.domain_key == domain_of(row)
            &&& row.payload_kind is Text
            &&& row.blob_hash is None
        }),
{
    let (clip, found) = lemma_merged(database, now, k);
    let row = database.rebuilt(now)->0.clips[k];
    assert(domain_of(row) == domain_of(clip));
    assert(domain_of(row) =~= row.domain_key);
    if row.page_title is Some {
        lemma_same_titled(database.clips, clip, row, found.2);
    } else {
        assert forall|j: int|
            0 <= j < database.clips.len() && are_duplicates(
                #[trigger] database.clips[j],
                row,
            ) implies !has_title(database.clips[j]) by {
            assert(are_duplicates(database.clips[j], clip));
        }
    }
    found.2
}

/// After the clips are merged, each counts the copies of all clips with its hash and domain that
/// were there before, up to 2147483647; it is pinned exactly if one of them was, and has the
/// largest of their sort keys.
pub proof fn merged_clips_count_all_copies(database: DatabaseView, now: i64, k: int)
    requires
        database.rebuilt(now) is Some,
        0 <= k < database.rebuilt(now)->0.clips.len(),
    ensures
        ({
            let row = database.rebuilt(now)->0.clips[k];
            let clips = database.clips;
            &&& 1 <= copies_of(clips, row) <= 2_147_483_647 ==> row.copy_count == copies_of(
                clips,
                row,
            )
            &&& copies_of(clips, row) > 2_147_483_647 ==> row.copy_count == 2_147_483_647
            &&& copies_of(clips, row) >= 1
            &&& row.pinned <==> exists|j: int|
                0 <= j < clips.len() && are_duplicates(#[trigger] clips[j], row) && clips[j].pinned
            &&& forall|j: int|
                0 <= j < clips.len() && are_duplicates(#[trigger] clips[j], row)
                    ==> clips[j].sort_key <= row.sort_key
            &&& exists|j: int|
                0 <= j < clips.len() && are_duplicates(#[trigger] clips[j], row)
                    && clips[j].sort_key == row.sort_key
        }),
{
    let (clip, found) = lemma_merged(database, now, k);
    let clips = database.clips;
    let row = database.rebuilt(now)->0.clips[k];
    lemma_same_copies(clips, clip, row);
    let merged = migrations::first_of_each(clips).map_values(
        |clip: LegacyClipView| migrations::merged_clip(clips, clip, now),
    );
    assert(merged[k].copy_count >= 1);
    assert(row.copy_count == merged[k].copy_count);
    let all = migrations::gathered(clips, clip.content_hash, clip.key())->0;
    let s = choose|j: int|
        0 <= j < clips.len() && are_duplicates(#[trigger] clips[j], clip) && clips[j].sort_key
            == all.sort_key;
    assert(are_duplicates(clips[s], row));
    if row.pinned {
        let p = choose|j: int|
            0 <= j < clips.len() && are_duplicates(#[trigger] clips[j], clip) && clips[j].pinned;
        assert(are_duplicates(clips[p], row));
    }
    assert forall|j: int|
        0 <= j < clips.len() && are_duplicates(#[trigger] clips[j], row) implies are_duplicates(
        clips[j],
        clip,
    ) by {}
}

/// A clip that has no duplicate is not changed by merging: it keeps its identifier, content,
/// type, domain, title, pin, sort key and count, as far as it counts at all, and its moments
/// become milliseconds.
pub proof fn clips_without_duplicates_are_kept(database: DatabaseView, now: i64, i: int) -> (k: int)
    requires
        database.rebuilt(now) is Some,
        0 <= i < database.clips.len(),
        forall|j: int|
            0 <= j < database.clips.len() && j != i ==> !are_duplicates(
                #[trigger] database.clips[j],
                database.clips[i],
            ),
    ensures
        0 <= k < database.rebuilt(now)->0.clips.len(),
        ({
            let row = database.rebuilt(now)->0.clips[k];
            let clip = database.clips[i];
            &&& row.id == clip.id
            &&& row.content == clip.content
            &&& row.content_hash == clip.content_hash
            &&& row.content_type == clip.content_type
            &&& domain_of(row) == domain_of(clip)
            &&& has_title(clip) ==> row.page_title == clip.page_title
            &&& !has_title(clip) ==> row.page_title is None
            &&& row.pinned == clip.pinned
            &&& row.sort_key == clip.sort_key
            &&& clip.copy_count <= 2_147_483_647 ==> row.copy_count == clip.copy_count
            &&& row.created_at.number() is Some
            &&& row.created_at.number()->0 == in_millis(clip.created_at, now)
            &&& row.last_copied_at.number() is Some
            &&& row.last_copied_at.number()->0 == in_millis(clip.last_copied_at, now)
        }),
{
    let clips = database.clips;
    let clip = clips[i];
    let k = duplicates_are_merged_into_one(database, now, i);
    let row = database.rebuilt(now)->0.clips[k];
    let (first, last) = merged_clips_are_those_created_first(database, now, k);
    assert(are_duplicates(clips[first], clip));
    assert(are_duplicates(clips[last], clip));
    let titled = merged_clips_have_the_last_title(database, now, k);
    if row.page_title is Some {
        assert(are_duplicates(clips[titled], clip));
    }
    assert(are_duplicates(clips[i], row));
    merged_clips_count_all_copies(database, now, k);
    lemma_only_copies(clips, clip, i);
    lemma_same_copies(clips, clip, row);
    let s = choose|j: int|
        0 <= j < clips.len() && are_duplicates(#[trigger] clips[j], row) && clips[j].sort_key
            == row.sort_key;
    assert(are_duplicates(clips[s], clip));
    if row.pinned {
        let p = choose|j: int|
            0 <= j < clips.len() && are_duplicates(#[trigger] clips[j], row) && clips[j].pinned;
        assert(are_duplicates(clips[p], clip));
    }
    k
}

/// After the clips are merged, exactly one has the hash and the domain of each that was there.
pub proof fn duplicates_are_merged_into_one(database: DatabaseView, now: i64, i: int) -> (k: int)
    requires
        database.rebuilt(now) is Some,
        0 <= i < database.clips.len(),
    ensures
        0 <= k < database.rebuilt(now)->0.clips.len(),
        are_duplicates(database.rebuilt(now)->0.clips[k], database.clips[i]),
        forall|j: int|
            0 <= j < database.rebuilt(now)->0.clips.len() && j != k ==> !are_duplicates(
                #[trigger] database.rebuilt(now)->0.clips[j],
                database.clips[i],
            ),
{
    let clips = database.clips;
    let clip = clips[i];
    let firsts = migrations::first_of_each(clips);
    let merged = database.rebuilt(now)->0.clips;
    migrations::lemma_first_of_each(clips);
    assert(migrations::has_slot(firsts, clips[i].content_hash, clips[i].key()));
    let k = choose|k: int|
        0 <= k < firsts.len() && (#[trigger] firsts[k]).in_slot(clip.content_hash, clip.key());
    let (source, _) = lemma_merged(database, now, k);
    assert(are_duplicates(merged[k], clip));
    assert forall|j: int|
        0 <= j < merged.len() && j != k implies !are_duplicates(#[trigger] merged[j], clip) by {
        let (other, _) = lemma_merged(database, now, j);
        if j < k {
            migrations::merged_clips_are_distinct(database, now, j, k);
        } else {
            migrations::merged_clips_are_distinct(database, now, k, j);
        }
        assert(merged[j].key() == domain_of(merged[j]));
        assert(merged[k].key() == domain_of(merged[k]));
    }
    k
}

/// Which clips a merged clip is gathered from.
proof fn lemma_merged(database: DatabaseView, now: i64, k: int) -> (r: (
    LegacyClipView,
    (int, int, int),
))
    requires
        database.rebuilt(now) is Some,
        0 <= k < database.rebuilt(now)->0.clips.len(),
    ensures
        ({
            let row = database.rebuilt(now)->0.clips[k];
            let clips = database.clips;
            let (clip, (first, last, titled)) = r;
            &&& migrations::first_of_each(clips)[k] == clip
            &&& are_duplicates(row, clip)
            &&& row.key() == clip.key()
            &&& row.domain_key == clip.key()
            &&& row.domain is Some ==> row.domain->0.len() > 0
            &&& row.payload_kind is Text
            &&& row.blob_hash is None
            &&& migrations::gathered(clips, clip.content_hash, clip.key()) matches Some(all) && {
                &&& row.id == all.id
                &&& row.content == all.content
                &&& row.content_type == all.content_type
                &&& row.pinned == all.pinned
                &&& row.sort_key == all.sort_key
                &&& row.page_title == match all.title {
                    Some((_, title)) => Some(title),
                    None => None,
                }
                &&& row.copy_count == if all.total > 2_147_483_647 {
                    2_147_483_647
                } else if all.total < 1 {
                    0
                } else {
                    all.total
                }
                &&& all.total == copies_of(clips, clip)
                &&& was_created_first(clips, clip, first)
                &&& all.id == clips[first].id
                &&& all.content == clips[first].content
                &&& all.content_type == clips[first].content_type
                &&& was_copied_last(clips, clip, last)
                &&& all.title is Some ==> was_titled_last(clips, clip, titled) && all.title == Some(
                    (clips[titled].last_copied_at, clips[titled].page_title->0),
                )
                &&& all.title is None ==> forall|j: int|
                    0 <= j < clips.len() && are_duplicates(#[trigger] clips[j], clip)
                        ==> !has_title(clips[j])
                &&& all.pinned <==> exists|j: int|
                    0 <= j < clips.len() && are_duplicates(#[trigger] clips[j], clip)
                        && clips[j].pinned
                &&& forall|j: int|
                    0 <= j < clips.len() && are_duplicates(#[trigger] clips[j], clip)
                        ==> clips[j].sort_key <= all.sort_key
                &&& exists|j: int|
                    0 <= j < clips.len() && are_duplicates(#[trigger] clips[j], clip)
                        && clips[j].sort_key == all.sort_key
                &&& row.created_at.number() is Some
                &&& row.created_at.number()->0 == in_millis(clips[first].created_at, now)
                &&& row.last_copied_at.number() is Some
                &&& row.last_copied_at.number()->0 == in_millis(clips[last].last_copied_at, now)
            }
        }),
{
    let clips = database.clips;
    let firsts = migrations::first_of_each(clips);
    let clip = firsts[k];
    migrations::lemma_first_of_each(clips);
    assert(clips.contains(firsts[k]));
    let at = choose|at: int| 0 <= at < clips.len() && clips[at] == firsts[k];
    assert(are_duplicates(clips[at], clip));
    let found = lemma_gathered(clips, clip);
    let all = migrations::gathered(clips, clip.content_hash, clip.key())->0;
    migrations::lemma_merged_slot(all, clip.content_hash, clip.key(), now);
    (clip, found)
}

proof fn lemma_same_first(
    clips: Seq<LegacyClipView>,
    a: LegacyClipView,
    b: LegacyClipView,
    i: int,
)
    requires
        are_duplicates(a, b),
        was_created_first(clips, a, i),
    ensures
        was_created_first(clips, b, i),
{
    assert forall|j: int|
        0 <= j < clips.len() && are_duplicates(#[trigger] clips[j], b) implies are_duplicates(
        clips[j],
        a,
    ) by {}
}

proof fn lemma_same_last(clips: Seq<LegacyClipView>, a: LegacyClipView, b: LegacyClipView, i: int)
    requires
        are_duplicates(a, b),
        was_copied_last(clips, a, i),
    ensures
        was_copied_last(clips, b, i),
{
    assert forall|j: int|
        0 <= j < clips.len() && are_duplicates(#[trigger] clips[j], b) implies are_duplicates(
        clips[j],
        a,
    ) by {}
}

proof fn lemma_same_titled(
    clips: Seq<LegacyClipView>,
    a: LegacyClipView,
    b: LegacyClipView,
    i: int,
)
    requires
        are_duplicates(a, b),
        was_titled_last(clips, a, i),
    ensures
        was_titled_last(clips, b, i),
{
    assert forall|j: int|
        0 <= j < clips.len() && are_duplicates(#[trigger] clips[j], b) implies are_duplicates(
        clips[j],
        a,
    ) by {}
}

proof fn lemma_same_copies(clips: Seq<LegacyClipView>, a: LegacyClipView, b: LegacyClipView)
    requires
        are_duplicates(a, b),
    ensures
        copies_of(clips, a) == copies_of(clips, b),
    decreases clips.len(),
{
    if clips.len() > 0 {
        lemma_same_copies(clips.drop_last(), a, b);
    }
}

/// A clip without duplicates has its own copies only.
proof fn lemma_only_copies(clips: Seq<LegacyClipView>, clip: LegacyClipView, i: int)
    requires
        0 <= i < clips.len(),
        are_duplicates(clips[i], clip),
        forall|j: int|
            0 <= j < clips.len() && j != i ==> !are_duplicates(#[trigger] clips[j], clip),
    ensures
        copies_of(clips, clip) == clips[i].copy_count,
    decreases clips.len(),
{
    let rest = clips.drop_last();
    let n = clips.len() - 1;
    assert forall|j: int| 0 <= j < rest.len() && j != i implies !are_duplicates(
        #[trigger] rest[j],
        clip,
    ) by {
        assert(!are_duplicates(clips[j], clip));
    }
    if i == n {
        lemma_no_copies(rest, clip);
    } else {
        assert(rest[i] == clips[i]);
        lemma_only_copies(rest, clip, i);
        assert(!are_duplicates(clips[n], clip));
    }
}

/// Two clips have everything in common but their moments, the key of the domain, the kind of the
/// payload and the image file.
pub open spec fn is_same_clip(a: LegacyClipView, b: LegacyClipView) -> bool {
    &&& a.id == b.id
    &&& a.content == b.content
    &&& a.content_hash == b.content_hash
    &&& a.content_type == b.content_type
    &&& a.domain == b.domain
    &&& a.page_title == b.page_title
    &&& a.copy_count == b.copy_count
    &&& a.pinned == b.pinned
    &&& a.sort_key == b.sort_key
}

/// The categories are the same but for the moments.
pub open spec fn are_same_categories(
    a: Seq<LegacyCategoryView>,
    b: Seq<LegacyCategoryView>,
) -> bool {
    &&& a.len() == b.len()
    &&& forall|c: int|
        0 <= c < a.len() ==> (#[trigger] a[c]).id == b[c].id && a[c].name == b[c].name
            && a[c].normalized_name == b[c].normalized_name && a[c].color == b[c].color
            && a[c].sort_order == b[c].sort_order
}

/// The links are the same but for the moments.
pub open spec fn are_same_links(a: Seq<LegacyLinkView>, b: Seq<LegacyLinkView>) -> bool {
    &&& a.len() == b.len()
    &&& forall|i: int|
        0 <= i < a.len() ==> (#[trigger] a[i]).clip_id == b[i].clip_id && a[i].category_id
            == b[i].category_id
}

/// A stored moment once texts are read: a number stays.
pub open spec fn is_read(before: TimeView, after: TimeView, now: i64) -> bool {
    match before {
        TimeView::Text { millis: Some(millis), .. } => after == TimeView::Millis(millis),
        TimeView::Text { millis: None, .. } => after == TimeView::Millis(now),
        _ => after == before,
    }
}

/// Where the clips still have their normalized content, under a constraint, and have not been
/// merged, migrating merges them: what becomes of them is what merging makes of the same clips
/// with their moments read.
pub proof fn migrating_merges(database: DatabaseView, now: i64) -> (read: DatabaseView)
    requires
        !database.applied(5),
        !database.applied(6),
        database.has_normalized,
        database.normalized_is_constrained || database.applied(3),
    ensures
        read.clips.len() == database.clips.len(),
        forall|i: int|
            0 <= i < read.clips.len() ==> is_same_clip(
                #[trigger] read.clips[i],
                database.clips[i],
            ) && is_read(database.clips[i].created_at, read.clips[i].created_at, now) && is_read(
                database.clips[i].last_copied_at,
                read.clips[i].last_copied_at,
                now,
            ),
        are_same_links(read.links, database.links),
        are_same_categories(read.categories, database.categories),
        match (database.migrated(now), read.rebuilt(now)) {
            (Some(after), Some(merged)) => {
                &&& after.clips.len() == merged.clips.len()
                &&& forall|k: int|
                    0 <= k < after.clips.len() ==> is_same_clip(
                        #[trigger] after.clips[k],
                        merged.clips[k],
                    ) && after.clips[k].created_at == merged.clips[k].created_at
                        && after.clips[k].last_copied_at == merged.clips[k].last_copied_at
                        && after.clips[k].domain_key == domain_of(after.clips[k])
                &&& after.links == merged.links
                &&& are_same_categories(after.categories, database.categories)
                &&& after.blobs == database.blobs
            },
            (None, None) => true,
            _ => false,
        },
{
    let read = database.second().third().fifth(now);
    if read.rebuilt(now) is Some {
        let merged = read.rebuilt(now)->0;
        let after = database.migrated(now)->0;
        assert forall|k: int| 0 <= k < after.clips.len() implies is_same_clip(
            #[trigger] after.clips[k],
            merged.clips[k],
        ) && after.clips[k].created_at == merged.clips[k].created_at
            && after.clips[k].last_copied_at == merged.clips[k].last_copied_at
            && after.clips[k].domain_key == domain_of(after.clips[k]) by {
            let (clip, _) = lemma_merged(read, now, k);
        }
    }
    read
}

/// The moment of a link or a category once it is migrated: in milliseconds where that has not been
/// done before, else the number that it was.
pub open spec fn is_dated(database: DatabaseView, before: TimeView, after: TimeView, now: i64) -> bool {
    &&& !database.applied(5) && !database.applied(6) ==> after.number() is Some
        && after.number()->0 == in_millis(before, now)
    &&& database.applied(5) && database.applied(6) && before.number() is Some ==> after.number()
        == before.number()
}

/// Where clips are neither merged nor dropped, migrating keeps all of them: each has the key of
/// its domain, and the moments are milliseconds.
pub proof fn migrating_keeps_clips(database: DatabaseView, now: i64)
    requires
        database.applied(6) || !database.has_normalized || !(database.normalized_is_constrained
            || database.applied(3)),
        database.applied(2) || database.has_normalized,
    ensures
        database.migrated(now) matches Some(after) && {
            &&& after.clips.len() == database.clips.len()
            &&& forall|i: int|
                0 <= i < after.clips.len() ==> is_same_clip(
                    #[trigger] after.clips[i],
                    database.clips[i],
                ) && after.clips[i].domain_key == (if database.applied(2) {
                    database.clips[i].domain_key
                } else {
                    domain_of(database.clips[i])
                })
            &&& forall|i: int|
                0 <= i < after.clips.len() ==> if database.applied(10) {
                    (#[trigger] after.clips[i]).payload_kind == database.clips[i].payload_kind
                        && after.clips[i].blob_hash == database.clips[i].blob_hash
                } else {
                    after.clips[i].payload_kind is Text && after.clips[i].blob_hash is None
                }
            &&& are_same_links(after.links, database.links)
            &&& are_same_categories(after.categories, database.categories)
            &&& after.blobs == database.blobs
            &&& forall|i: int|
                0 <= i < after.clips.len() && !database.applied(5) && !database.applied(6) ==> {
                    let clip = #[trigger] after.clips[i];
                    &&& clip.created_at.number() is Some
                    &&& clip.created_at.number()->0 == in_millis(database.clips[i].created_at, now)
                    &&& clip.last_copied_at.number() is Some
                    &&& clip.last_copied_at.number()->0 == in_millis(
                        database.clips[i].last_copied_at,
                        now,
                    )
                }
            &&& forall|i: int|
                0 <= i < after.clips.len() && database.applied(6) && database.applied(5)
                    && database.clips[i].created_at.number() is Some ==> (
                #[trigger] after.clips[i]).created_at.number()
                    == database.clips[i].created_at.number()
            &&& forall|i: int|
                0 <= i < after.clips.len() && database.applied(6) && database.applied(5)
                    && database.clips[i].last_copied_at.number() is Some ==> (
                #[trigger] after.clips[i]).last_copied_at.number()
                    == database.clips[i].last_copied_at.number()
            &&& forall|i: int|
                0 <= i < after.links.len() ==> is_dated(
                    database,
                    database.links[i].created_at,
                    (#[trigger] after.links[i]).created_at,
                    now,
                )
            &&& forall|c: int|
                0 <= c < after.categories.len() ==> is_dated(
                    database,
                    database.categories[c].created_at,
                    (#[trigger] after.categories[c]).created_at,
                    now,
                )
        },
{
}

/// Where the normalized content is gone already, of several clips with the same hash and domain
/// the one that stands first stays as it is, and the links to the others go.
pub proof fn migrating_drops_duplicates(database: DatabaseView, now: i64, k: int) -> (i: int)
    requires
        !database.applied(2),
        !database.has_normalized,
        database.migrated(now) is Some,
        0 <= k < database.migrated(now)->0.clips.len(),
    ensures
        0 <= i < database.clips.len(),
        is_same_clip(database.migrated(now)->0.clips[k], database.clips[i]),
        forall|j: int|
            0 <= j < i ==> !are_duplicates(#[trigger] database.clips[j], database.clips[i]),
        are_same_categories(database.migrated(now)->0.categories, database.categories),
{
    let keyed = database.clips.map_values(|clip: LegacyClipView| clip.keyed());
    let firsts = migrations::first_of_each(keyed);
    let i = lemma_first_position(keyed, k);
    assert(keyed[i] == database.clips[i].keyed());
    assert forall|j: int| 0 <= j < i implies !are_duplicates(
        #[trigger] database.clips[j],
        database.clips[i],
    ) by {
        assert(!keyed[j].in_slot(keyed[i].content_hash, keyed[i].key()));
        assert(keyed[j] == database.clips[j].keyed());
    }
    assert(is_same_clip(database.migrated(now)->0.clips[k], firsts[k]));
    i
}

/// Where a kept clip stood.
proof fn lemma_first_position(clips: Seq<LegacyClipView>, k: int) -> (i: int)
    requires
        0 <= k < migrations::first_of_each(clips).len(),
    ensures
        0 <= i < clips.len(),
        clips[i] == migrations::first_of_each(clips)[k],
        forall|j: int|
            0 <= j < i ==> !(#[trigger] clips[j]).in_slot(clips[i].content_hash, clips[i].key()),
    decreases clips.len(),
{
    let rest = clips.drop_last();
    let last = clips.last();
    let kept = migrations::first_of_each(rest);
    if k < kept.len() {
        let i = lemma_first_position(rest, k);
        assert(rest[i] == clips[i]);
        assert forall|j: int| 0 <= j < i implies !(#[trigger] clips[j]).in_slot(
            clips[i].content_hash,
            clips[i].key(),
        ) by {
            assert(rest[j] == clips[j]);
        }
        i
    } else {
        let i = clips.len() - 1;
        migrations::lemma_first_of_each(rest);
        assert forall|j: int| 0 <= j < i implies !(#[trigger] clips[j]).in_slot(
            clips[i].content_hash,
            clips[i].key(),
        ) by {
            assert(rest[j] == clips[j]);
            assert(migrations::has_slot(kept, rest[j].content_hash, rest[j].key()));
        }
        i
    }
}

/// Where the normalized content is gone already, every hash and domain still has a clip, and a
/// link stays exactly if its clip does.
pub proof fn migrating_keeps_one_of_each(database: DatabaseView, now: i64, i: int) -> (k: int)
    requires
        !database.applied(2),
        !database.has_normalized,
        0 <= i < database.clips.len(),
    ensures
        database.migrated(now) matches Some(after) && {
            &&& 0 <= k < after.clips.len()
            &&& are_duplicates(after.clips[k], database.clips[i])
            &&& forall|clip_id: Seq<char>, category_id: Seq<char>|
                #![trigger migrations::has_pair(after.links, clip_id, category_id)]
                migrations::has_pair(after.links, clip_id, category_id) <==> (
                migrations::has_pair(database.links, clip_id, category_id) && migrations::has_id(
                    after.clips,
                    clip_id,
                ))
        },
{
    let keyed = database.clips.map_values(|clip: LegacyClipView| clip.keyed());
    let firsts = migrations::first_of_each(keyed);
    migrations::lemma_first_of_each(keyed);
    let clip = keyed[i];
    assert(migrations::has_slot(firsts, keyed[i].content_hash, keyed[i].key()));
    let k = choose|k: int|
        0 <= k < firsts.len() && (#[trigger] firsts[k]).in_slot(clip.content_hash, clip.key());
    let after = database.migrated(now)->0;
    assert(is_same_clip(after.clips[k], firsts[k]));
    let kept = |link: LegacyLinkView| migrations::has_id(firsts, link.clip_id);
    let links = database.links.filter(kept);
    sequences::lemma_filter_members(database.links, kept);
    assert(are_same_links(after.links, links));
    assert forall|id: Seq<char>| migrations::has_id(after.clips, id) == #[trigger]
        migrations::has_id(firsts, id) by {
        if migrations::has_id(after.clips, id) {
            let a = choose|a: int|
                0 <= a < after.clips.len() && (#[trigger] after.clips[a]).id == id;
            assert(firsts[a].id == id);
        }
        if migrations::has_id(firsts, id) {
            let a = choose|a: int| 0 <= a < firsts.len() && (#[trigger] firsts[a]).id == id;
            assert(after.clips[a].id == id);
        }
    }
    assert forall|clip_id: Seq<char>, category_id: Seq<char>|
        #![trigger migrations::has_pair(after.links, clip_id, category_id)]
        migrations::has_pair(after.links, clip_id, category_id) <==> (migrations::has_pair(
            database.links,
            clip_id,
            category_id,
        ) && migrations::has_id(after.clips, clip_id)) by {
        assert(migrations::has_id(after.clips, clip_id) == migrations::has_id(firsts, clip_id));
        if migrations::has_pair(after.links, clip_id, category_id) {
            let a = choose|a: int|
                0 <= a < after.links.len() && (#[trigger] after.links[a]).clip_id == clip_id
                    && after.links[a].category_id == category_id;
            assert(links[a].clip_id == clip_id);
            assert(links.contains(links[a]));
            let b = choose|b: int| 0 <= b < database.links.len() && database.links[b] == links[a];
            assert(database.links[b].clip_id == clip_id);
        }
        if migrations::has_pair(database.links, clip_id, category_id) && migrations::has_id(
            firsts,
            clip_id,
        ) {
            let b = choose|b: int|
                0 <= b < database.links.len() && (#[trigger] database.links[b]).clip_id == clip_id
                    && database.links[b].category_id == category_id;
            assert(database.links.contains(database.links[b]));
            assert(links.contains(database.links[b]));
            let a = choose|a: int| 0 <= a < links.len() && links[a] == database.links[b];
            assert(after.links[a].clip_id == clip_id);
        }
    }
    k
}

/// After the clips are merged, every link leads from a merged clip to a category that one of its
/// duplicates was linked to.
pub proof fn merged_links_come_from_duplicates(database: DatabaseView, now: i64, m: int) -> (r: (
    int,
    int,
    int,
))
    requires
        database.rebuilt(now) is Some,
        0 <= m < database.rebuilt(now)->0.links.len(),
    ensures
        ({
            let after = database.rebuilt(now)->0;
            let (link, clip, k) = r;
            &&& 0 <= link < database.links.len()
            &&& 0 <= clip < database.clips.len()
            &&& 0 <= k < after.clips.len()
            &&& after.links[m].category_id == database.links[link].category_id
            &&& database.links[link].created_at.number() is Some
                ==> after.links[m].created_at.number() == database.links[link].created_at.number()
            &&& after.links[m].clip_id == after.clips[k].id
            &&& database.links[link].clip_id == database.clips[clip].id
            &&& are_duplicates(after.clips[k], database.clips[clip])
        }),
{
    let clips = database.clips;
    let merged = migrations::first_of_each(clips).map_values(
        |clip: LegacyClipView| migrations::merged_clip(clips, clip, now),
    );
    let after = database.rebuilt(now)->0;
    let moved = migrations::moved_links(database.links, clips, merged);
    assert(after.links[m].clip_id == moved[m].clip_id);
    let r = lemma_moved_link(database.links, clips, merged, m);
    assert(is_same_clip(after.clips[r.2], merged[r.2]));
    r
}

/// Where a moved link comes from.
proof fn lemma_moved_link(
    links: Seq<LegacyLinkView>,
    clips: Seq<LegacyClipView>,
    merged: Seq<LegacyClipView>,
    m: int,
) -> (r: (int, int, int))
    requires
        0 <= m < migrations::moved_links(links, clips, merged).len(),
    ensures
        ({
            let moved = migrations::moved_links(links, clips, merged);
            let (link, clip, k) = r;
            &&& 0 <= link < links.len()
            &&& 0 <= clip < clips.len()
            &&& 0 <= k < merged.len()
            &&& moved[m].category_id == links[link].category_id
            &&& moved[m].created_at == links[link].created_at
            &&& moved[m].clip_id == merged[k].id
            &&& links[link].clip_id == clips[clip].id
            &&& are_duplicates(merged[k], clips[clip])
        }),
    decreases links.len(),
{
    let rest = links.drop_last();
    let before = migrations::moved_links(rest, clips, merged);
    if m < before.len() {
        let r = lemma_moved_link(rest, clips, merged, m);
        assert(rest[r.0] == links[r.0]);
        r
    } else {
        let link = links.last();
        let id = link.clip_id;
        let from = migrations::position_of(clips, id);
        sequences::lemma_first_index(clips, |clip: LegacyClipView| clip.id == id);
        let hash = clips[from].content_hash;
        let key = clips[from].key();
        sequences::lemma_first_index(merged, |clip: LegacyClipView| clip.in_slot(hash, key));
        let to = migrations::slot_of(merged, hash, key);
        (links.len() - 1, from, to)
    }
}

/// Merging fails only where the counts of some duplicates do not add up to a count, or where a
/// link leads to a category that is not there.
pub proof fn merging_fails_on_broken_rows_only(database: DatabaseView, now: i64)
    requires
        forall|i: int| 0 <= i < database.clips.len() ==> (#[trigger] database.clips[i]).copy_count >= 1,
        forall|i: int|
            0 <= i < database.links.len() ==> exists|c: int|
                0 <= c < database.categories.len() && (#[trigger] database.categories[c]).id == (
                #[trigger] database.links[i]).category_id,
    ensures
        database.rebuilt(now) is Some,
{
    let clips = database.clips;
    let firsts = migrations::first_of_each(clips);
    let merged = firsts.map_values(
        |clip: LegacyClipView| migrations::merged_clip(clips, clip, now),
    );
    migrations::lemma_first_of_each(clips);
    assert forall|k: int| 0 <= k < merged.len() implies (#[trigger] merged[k]).copy_count >= 1 by {
        assert(clips.contains(firsts[k]));
        let at = choose|at: int| 0 <= at < clips.len() && clips[at] == firsts[k];
        assert(are_duplicates(clips[at], firsts[k]));
        let found = lemma_gathered(clips, firsts[k]);
        lemma_copies_add_up(clips, firsts[k], at);
    }
    let moved = migrations::moved_links(database.links, clips, merged);
    assert forall|m: int| 0 <= m < moved.len() implies migrations::has_category(
        database.categories,
        (#[trigger] moved[m]).category_id,
    ) by {
        let r = lemma_moved_link(database.links, clips, merged, m);
        assert(database.links[r.0].category_id == moved[m].category_id);
    }
}

/// Duplicates that were each copied were copied at least as often in all.
proof fn lemma_copies_add_up(clips: Seq<LegacyClipView>, clip: LegacyClipView, at: int)
    requires
        forall|i: int| 0 <= i < clips.len() ==> (#[trigger] clips[i]).copy_count >= 1,
    ensures
        copies_of(clips, clip) >= 0,
        0 <= at < clips.len() && are_duplicates(clips[at], clip) ==> copies_of(clips, clip) >= 1,
    decreases clips.len(),
{
    if clips.len() > 0 {
        let rest = clips.drop_last();
        assert forall|i: int| 0 <= i < rest.len() implies (#[trigger] rest[i]).copy_count >= 1 by {
            assert(rest[i] == clips[i]);
        }
        lemma_copies_add_up(rest, clip, at);
        assert(clips.last() == clips[clips.len() - 1]);
        if 0 <= at < rest.len() {
            assert(rest[at] == clips[at]);
        }
    }
}

/// The number that a stored moment is shown as: itself, if it is a number; the number that a text
/// of digits writes; else what the text denotes, or the present.
pub open spec fn is_shown_as(time: TimeView, shown: i64, now: i64) -> bool {
    match time {
        TimeView::Number(number) => shown == number,
        TimeView::Millis(millis) => shown == millis,
        TimeView::Text { text: words, millis } => {
            &&& forall|value: nat|
                value <= i64::MAX && words == #[trigger] text::decimal(value) ==> shown == value
            &&& text::written_number(words) is None && millis is Some ==> shown == millis->0
            &&& text::written_number(words) is None && millis is None ==> shown == now
        },
    }
}

/// The number that a stored moment is shown as.
proof fn lemma_shown(time: TimeView, now: i64)
    ensures
        is_shown_as(time, time.at(now), now),
{
    if let TimeView::Text { text: words, .. } = time {
        assert forall|value: nat|
            value <= i64::MAX && words == #[trigger] text::decimal(value) implies time.at(now)
            == value by {
            crate::laws::words::written_numbers_are_read_back(value);
        }
    }
}

/// The history that is opened holds the migrated rows as they are: every clip with its moments as
/// numbers, every category and every link; and it is refused exactly where these rows break a
/// rule.
pub proof fn the_history_holds_the_migrated_rows(
    database: DatabaseView,
    blob_root: Option<Seq<char>>,
    now: i64,
)
    ensures
        match database.history(blob_root, now) {
            Ok(history) => database.migrated(now) matches Some(rows) && {
                &&& history.wf()
                &&& history.blob_root == blob_root
                &&& history.blobs == rows.blobs
                &&& history.clips.len() == rows.clips.len()
                &&& forall|i: int|
                    0 <= i < rows.clips.len() ==> {
                        let row = #[trigger] history.clips[i];
                        let clip = rows.clips[i];
                        &&& row.id == clip.id
                        &&& row.content == clip.content
                        &&& row.content_hash == clip.content_hash
                        &&& row.content_type == clip.content_type
                        &&& row.domain == clip.domain
                        &&& row.domain_key == clip.domain_key
                        &&& row.page_title == clip.page_title
                        &&& row.copy_count == clip.copy_count
                        &&& row.pinned == clip.pinned
                        &&& row.sort_key == clip.sort_key
                        &&& row.payload_kind == clip.payload_kind
                        &&& row.blob_hash == clip.blob_hash
                        &&& is_shown_as(clip.created_at, row.created_at, now)
                        &&& is_shown_as(clip.last_copied_at, row.last_copied_at, now)
                    }
                &&& history.links.len() == rows.links.len()
                &&& forall|i: int|
                    0 <= i < rows.links.len() ==> (#[trigger] history.links[i]).clip_id
                        == rows.links[i].clip_id && history.links[i].category_id
                        == rows.links[i].category_id && is_shown_as(
                        rows.links[i].created_at,
                        history.links[i].created_at,
                        now,
                    )
                &&& history.categories.len() == rows.categories.len()
                &&& forall|c: int|
                    0 <= c < rows.categories.len() ==> {
                        let row = #[trigger] history.categories[c];
                        &&& row.category.id == rows.categories[c].id
                        &&& row.category.name == rows.categories[c].name
                        &&& row.category.color == rows.categories[c].color
                        &&& row.category.sort_order == rows.categories[c].sort_order
                        &&& row.normalized_name == rows.categories[c].normalized_name
                        &&& is_shown_as(
                            rows.categories[c].created_at,
                            row.category.created_at,
                            now,
                        )
                    }
            },
            Err(error) => error == RepositoryError::ConstraintViolation && (
            database.migrated(now) is None || !database.migrated(now)->0.present(
                blob_root,
                now,
            ).wf()),
        },
{
    if let Ok(history) = database.history(blob_root, now) {
        let rows = database.migrated(now)->0;
        assert forall|i: int| 0 <= i < rows.clips.len() implies is_shown_as(
            rows.clips[i].created_at,
            (#[trigger] history.clips[i]).created_at,
            now,
        ) && is_shown_as(rows.clips[i].last_copied_at, history.clips[i].last_copied_at, now) by {
            lemma_shown(rows.clips[i].created_at, now);
            lemma_shown(rows.clips[i].last_copied_at, now);
        }
        assert forall|i: int| 0 <= i < rows.links.len() implies is_shown_as(
            rows.links[i].created_at,
            (#[trigger] history.links[i]).created_at,
            now,
        ) by {
            lemma_shown(rows.links[i].created_at, now);
        }
        assert forall|c: int| 0 <= c < rows.categories.len() implies is_shown_as(
            rows.categories[c].created_at,
            (#[trigger] history.categories[c]).category.created_at,
            now,
        ) by {
            lemma_shown(rows.categories[c].created_at, now);
        }
    }
}

/// A moment that is stored as a text is the present if the text says so, else what SQLite reads
/// from it, in milliseconds; what is stored as a number is left as it is.
pub proof fn texts_are_read_as_moments(value: Seq<char>, millis: Option<i64>, now: i64, time: TimeView)
    ensures
        ({
            let read = (TimeView::Text { text: value, millis }).read(now);
            let word = text::ascii_lowercase(text::before_nul(value));
            let is_now = word == "now"@ || word == "subsec"@ || word == "subsecond"@;
            read matches TimeView::Text { text: kept, millis: found } && {
                &&& kept == value
                &&& is_now ==> found == Some(now)
                &&& !is_now ==> match migrations::sqlite_seconds(value) {
                    Some(Some(seconds)) => if -9_223_372_036_854_775 <= seconds
                        <= 9_223_372_036_854_775 {
                        found is Some && found->0 == seconds * 1000
                    } else {
                        found is None
                    },
                    Some(None) => found is None,
                    None => (TimeView::Text { text: value, millis }).is_unreadable(),
                }
            }
        }),
        time.number() is Some ==> time.read(now) == time && !time.is_unreadable(),
{
}

/// Where clips are dropped because others stand before them, a link stays exactly if its clip does.
pub proof fn links_of_dropped_clips_go(database: DatabaseView, now: i64, i: int)
    requires
        !database.applied(2),
        !database.has_normalized,
        database.migrated(now) is Some,
        0 <= i < database.links.len(),
    ensures
        ({
            let after = database.migrated(now)->0;
            let link = database.links[i];
            (exists|k: int|
                0 <= k < after.clips.len() && (#[trigger] after.clips[k]).id == link.clip_id)
                <==> exists|m: int|
                0 <= m < after.links.len() && (#[trigger] after.links[m]).clip_id == link.clip_id
                    && after.links[m].category_id == link.category_id
        }),
        forall|m: int|
            0 <= m < database.migrated(now)->0.links.len() ==> exists|j: int|
                0 <= j < database.links.len() && (#[trigger] database.links[j]).clip_id == (
                #[trigger] database.migrated(now)->0.links[m]).clip_id
                    && database.links[j].category_id == database.migrated(
                    now,
                )->0.links[m].category_id,
{
    let keyed = database.clips.map_values(|clip: LegacyClipView| clip.keyed());
    let firsts = migrations::first_of_each(keyed);
    let stays = |link: LegacyLinkView| migrations::has_id(firsts, link.clip_id);
    let links = database.links.filter(stays);
    let after = database.migrated(now)->0;
    sequences::lemma_filter_members(database.links, stays);
    assert(after.clips.len() == firsts.len());
    assert(after.links.len() == links.len());
    assert forall|k: int| 0 <= k < firsts.len() implies (#[trigger] after.clips[k]).id
        == firsts[k].id by {}
    assert forall|m: int| 0 <= m < links.len() implies (#[trigger] after.links[m]).clip_id
        == links[m].clip_id && after.links[m].category_id == links[m].category_id && stays(links[m])
        && database.links.contains(links[m]) by {
        assert(links.contains(links[m]));
    }
    let link = database.links[i];
    if exists|k: int| 0 <= k < after.clips.len() && (#[trigger] after.clips[k]).id == link.clip_id {
        let k = choose|k: int|
            0 <= k < after.clips.len() && (#[trigger] after.clips[k]).id == link.clip_id;
        assert(firsts[k].id == link.clip_id);
        assert(stays(link));
        assert(links.contains(link));
        let m = choose|m: int| 0 <= m < links.len() && links[m] == link;
        assert(after.links[m].clip_id == link.clip_id);
    }
    if exists|m: int|
        0 <= m < after.links.len() && (#[trigger] after.links[m]).clip_id == link.clip_id
            && after.links[m].category_id == link.category_id {
        let m = choose|m: int|
            0 <= m < after.links.len() && (#[trigger] after.links[m]).clip_id == link.clip_id
                && after.links[m].category_id == link.category_id;
        assert(stays(links[m]));
        let k = choose|k: int|
            0 <= k < firsts.len() && (#[trigger] firsts[k]).id == links[m].clip_id;
        assert(after.clips[k].id == link.clip_id);
    }
    assert forall|m: int| 0 <= m < after.links.len() implies exists|j: int|
        0 <= j < database.links.len() && (#[trigger] database.links[j]).clip_id == (
        #[trigger] after.links[m]).clip_id && database.links[j].category_id
            == after.links[m].category_id by {
        assert(database.links.contains(links[m]));
        let j = choose|j: int| 0 <= j < database.links.len() && database.links[j] == links[m];
        assert(database.links[j].clip_id == after.links[m].clip_id);
    }
}

/// The database cannot be read exactly if one of its moments cannot be.
pub proof fn every_moment_has_to_be_read(database: DatabaseView)
    ensures
        !database.is_unreadable() <==> {
            &&& forall|i: int|
                0 <= i < database.clips.len() ==> !(
                #[trigger] database.clips[i]).created_at.is_unreadable()
                    && !database.clips[i].last_copied_at.is_unreadable()
            &&& forall|i: int|
                0 <= i < database.categories.len() ==> !(
                #[trigger] database.categories[i]).created_at.is_unreadable()
            &&& forall|i: int|
                0 <= i < database.links.len() ==> !(
                #[trigger] database.links[i]).created_at.is_unreadable()
        },
{
}

/// Reading the moments of a database changes nothing else in it, and no number.
pub proof fn reading_moments_keeps_the_rest(database: DatabaseView, now: i64)
    ensures
        ({
            let read = database.read(now);
            &&& read.clips.len() == database.clips.len()
            &&& forall|i: int|
                0 <= i < read.clips.len() ==> {
                    let clip = #[trigger] read.clips[i];
                    let before = database.clips[i];
                    &&& is_same_clip(clip, before)
                    &&& clip.domain_key == before.domain_key
                    &&& clip.payload_kind == before.payload_kind
                    &&& clip.blob_hash == before.blob_hash
                    &&& before.created_at.number() is Some ==> clip.created_at == before.created_at
                    &&& before.last_copied_at.number() is Some ==> clip.last_copied_at
                        == before.last_copied_at
                    &&& before.created_at matches TimeView::Text { text: words, .. }
                        ==> clip.created_at == (TimeView::Text { text: words, millis: None }).read(
                        now,
                    )
                    &&& before.last_copied_at matches TimeView::Text { text: words, .. }
                        ==> clip.last_copied_at == (TimeView::Text {
                        text: words,
                        millis: None,
                    }).read(now)
                }
            &&& are_same_links(read.links, database.links)
            &&& are_same_categories(read.categories, database.categories)
            &&& forall|i: int|
                0 <= i < read.links.len() && database.links[i].created_at.number() is Some ==> (
                #[trigger] read.links[i]).created_at == database.links[i].created_at
            &&& forall|c: int|
                0 <= c < read.categories.len() && database.categories[c].created_at.number() is Some
                    ==> (#[trigger] read.categories[c]).created_at
                    == database.categories[c].created_at
            &&& read.blobs == database.blobs
            &&& read.versions == database.versions
            &&& read.has_normalized == database.has_normalized
            &&& read.normalized_is_constrained == database.normalized_is_constrained
        }),
{
}

} // verus!
