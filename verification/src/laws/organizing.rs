//! Categories, pins and single clips.

use crate::blob_store;
use crate::domain::{ClipboardCopy, ClipboardPayload, ImagePayload};
use crate::persistence::access;
use crate::persistence::categories;
use crate::persistence::laws;
use crate::persistence::rows::{BlobRowView, CategoryRowView, ClipRowView, LinkRowView};
use crate::persistence::{RepositoryError, RepositoryView};
use crate::ranking;
use crate::sequences;
use crate::text;
use vstd::prelude::*;

verus! {

/// A digit of a colour.
pub open spec fn is_color_digit(c: char) -> bool {
    ('0' <= c && c <= '9') || ('a' <= c && c <= 'f') || ('A' <= c && c <= 'F')
}

/// A colour is a number sign and six hexadecimal digits.
pub proof fn colors_have_six_digits(a: char, b: char, c: char, d: char, e: char, f: char)
    ensures
        categories::is_color(seq!['#', a, b, c, d, e, f]) <==> is_color_digit(a) && is_color_digit(b)
            && is_color_digit(c) && is_color_digit(d) && is_color_digit(e) && is_color_digit(f),
        forall|value: Seq<char>|
            value.len() != 7 || value[0] != '#' ==> !#[trigger] categories::is_color(value),
{
    let value = seq!['#', a, b, c, d, e, f];
    if categories::is_color(value) {
        assert(text::is_ascii_hexdigit(value[1]));
        assert(text::is_ascii_hexdigit(value[2]));
        assert(text::is_ascii_hexdigit(value[3]));
        assert(text::is_ascii_hexdigit(value[4]));
        assert(text::is_ascii_hexdigit(value[5]));
        assert(text::is_ascii_hexdigit(value[6]));
    }
}

/// Some category has this name, without regard to case.
pub open spec fn is_named(history: RepositoryView, name: Seq<char>) -> bool {
    exists|c: int|
        0 <= c < history.categories.len() && (#[trigger] history.categories[c]).normalized_name
            == text::lowered(text::trimmed(name))
}

/// A category can be created exactly if its name has 1 to 60 characters besides white space at the
/// ends, its colour is one, no category has the name, and the identifier is new; it is added with
/// the name and the colour, as the last one.
pub proof fn new_categories_are_added(
    history: RepositoryView,
    name: Seq<char>,
    color: Seq<char>,
    now: i64,
    id: Seq<char>,
)
    ensures
        match history.category_created(name, color, now, id) {
            Ok(next) => {
                let row = next.categories.last();
                &&& 1 <= text::trimmed(name).len() <= 60
                &&& categories::is_color(color)
                &&& !is_named(history, name)
                &&& !history.has_category(id)
                &&& next.categories.len() == history.categories.len() + 1
                &&& next.categories.drop_last() == history.categories
                &&& row.category.id == id
                &&& row.category.name == text::trimmed(name)
                &&& row.category.color == color
                &&& row.category.created_at == now
                &&& row.category.sort_order == 0
                &&& row.normalized_name == text::lowered(text::trimmed(name))
                &&& next.clips == history.clips
                &&& next.links == history.links
                &&& next.blobs == history.blobs
                &&& next.blob_root == history.blob_root
            },
            Err(RepositoryError::InvalidCategoryName) => text::trimmed(name).len() == 0
                || text::trimmed(name).len() > 60,
            Err(RepositoryError::InvalidColor) => !categories::is_color(color),
            Err(RepositoryError::DuplicateCategory) => is_named(history, name),
            Err(RepositoryError::ConstraintViolation) => history.has_category(id),
            Err(_) => false,
        },
{
    if let Ok(next) = history.category_created(name, color, now, id) {
        assert(next.categories.drop_last() =~= history.categories);
        if is_named(history, name) {
            let c = choose|c: int|
                0 <= c < history.categories.len() && (
                #[trigger] history.categories[c]).normalized_name == text::lowered(
                    text::trimmed(name),
                );
            assert(history.categories[c].normalized_name == text::lowered(text::trimmed(name)));
        }
    }
}

/// A category that is changed gets the new name and colour and keeps everything else; no other
/// category may have the name, and none changes.
pub proof fn changed_categories_keep_the_rest(
    history: RepositoryView,
    name: Seq<char>,
    color: Seq<char>,
    c: int,
)
    requires
        history.wf(),
        0 <= c < history.categories.len(),
    ensures
        match history.category_updated(history.categories[c].category.id, name, color) {
            Ok(next) => {
                let row = next.categories[c];
                &&& 1 <= text::trimmed(name).len() <= 60
                &&& categories::is_color(color)
                &&& next.categories.len() == history.categories.len()
                &&& row.category.name == text::trimmed(name)
                &&& row.category.color == color
                &&& row.normalized_name == text::lowered(text::trimmed(name))
                &&& row.category.id == history.categories[c].category.id
                &&& row.category.created_at == history.categories[c].category.created_at
                &&& row.category.sort_order == history.categories[c].category.sort_order
                &&& forall|k: int|
                    0 <= k < history.categories.len() && k != c ==> #[trigger] next.categories[k]
                        == history.categories[k] && next.categories[k].normalized_name
                        != row.normalized_name
                &&& next.clips == history.clips
                &&& next.links == history.links
                &&& next.blobs == history.blobs
                &&& next.blob_root == history.blob_root
            },
            Err(RepositoryError::InvalidCategoryName) => text::trimmed(name).len() == 0
                || text::trimmed(name).len() > 60,
            Err(RepositoryError::InvalidColor) => !categories::is_color(color),
            Err(RepositoryError::DuplicateCategory) => exists|k: int|
                0 <= k < history.categories.len() && k != c && (
                #[trigger] history.categories[k]).normalized_name == text::lowered(
                    text::trimmed(name),
                ),
            Err(_) => false,
        },
{
    let id = history.categories[c].category.id;
    sequences::lemma_is_first_index(
        history.categories,
        |row: CategoryRowView| row.category.id == id,
        c,
    );
}

/// Changing a category that is not there changes nothing.
pub proof fn absent_categories_are_not_changed(
    history: RepositoryView,
    id: Seq<char>,
    name: Seq<char>,
    color: Seq<char>,
)
    requires
        !history.has_category(id),
        1 <= text::trimmed(name).len() <= 60,
        categories::is_color(color),
    ensures
        history.category_updated(id, name, color) == Ok::<RepositoryView, RepositoryError>(history),
{
    sequences::lemma_first_index(
        history.categories,
        |row: CategoryRowView| row.category.id == id,
    );
    let at = history.category_position(id);
    if at < history.categories.len() {
        assert(history.categories[at].category.id == id);
    }
}

/// After a category is deleted, another is there exactly if it was and has another identifier, and
/// a link exactly if it was there and leads to another category; the clips stay.
pub proof fn deleting_a_category_leaves_the_rest(
    history: RepositoryView,
    id: Seq<char>,
    row: CategoryRowView,
    link: LinkRowView,
)
    ensures
        ({
            let next = history.without_category(id);
            &&& next.categories.contains(row) <==> history.categories.contains(row)
                && row.category.id != id
            &&& next.links.contains(link) <==> history.links.contains(link) && link.category_id
                != id
            &&& next.clips == history.clips
            &&& next.blobs == history.blobs
            &&& next.blob_root == history.blob_root
        }),
{
    sequences::lemma_filter_members(
        history.categories,
        |row: CategoryRowView| row.category.id != id,
    );
    sequences::lemma_filter_members(history.links, |row: LinkRowView| row.category_id != id);
}

/// A clip can be put into a category exactly if both are there; it is then in that category, and
/// nothing else changes.
pub proof fn assigned_clips_are_in_the_category(
    history: RepositoryView,
    clip: Seq<char>,
    category: Seq<char>,
    now: i64,
    other_clip: Seq<char>,
    other_category: Seq<char>,
)
    ensures
        match history.category_assigned(clip, category, now) {
            Ok(next) => {
                &&& history.has_clip(clip) && history.has_category(category)
                &&& next.has_link(other_clip, other_category) <==> history.has_link(
                    other_clip,
                    other_category,
                ) || (other_clip == clip && other_category == category)
                &&& next.clips == history.clips
                &&& next.categories == history.categories
                &&& next.blobs == history.blobs
                &&& next.blob_root == history.blob_root
                &&& history.has_link(clip, category) ==> next.links == history.links
                &&& !history.has_link(clip, category) ==> next.links.len() == history.links.len()
                    + 1 && next.links.last().created_at == now
            },
            Err(error) => error == RepositoryError::ConstraintViolation && !(history.has_clip(clip)
                && history.has_category(category)),
        },
{
    if let Ok(next) = history.category_assigned(clip, category, now) {
        if history.has_link(other_clip, other_category) {
            let i = choose|i: int|
                0 <= i < history.links.len() && (#[trigger] history.links[i]).clip_id == other_clip
                    && history.links[i].category_id == other_category;
            assert(next.links[i].clip_id == other_clip);
        }
        if !history.has_link(clip, category) {
            assert(next.links[history.links.len() as int].clip_id == clip);
        }
        if next.has_link(other_clip, other_category) {
            let i = choose|i: int|
                0 <= i < next.links.len() && (#[trigger] next.links[i]).clip_id == other_clip
                    && next.links[i].category_id == other_category;
            if i < history.links.len() {
                assert(history.links[i].clip_id == other_clip);
            }
        }
    }
}

/// A clip that is taken out of a category is not in it any more, and nothing else changes.
pub proof fn unassigned_clips_are_not_in_the_category(
    history: RepositoryView,
    clip: Seq<char>,
    category: Seq<char>,
    link: LinkRowView,
)
    ensures
        ({
            let next = history.category_unassigned(clip, category);
            &&& next.links.contains(link) <==> history.links.contains(link) && !(link.clip_id
                == clip && link.category_id == category)
            &&& !next.has_link(clip, category)
            &&& next.clips == history.clips
            &&& next.categories == history.categories
            &&& next.blobs == history.blobs
            &&& next.blob_root == history.blob_root
        }),
{
    let next = history.category_unassigned(clip, category);
    sequences::lemma_filter_members(
        history.links,
        |row: LinkRowView| !(row.clip_id == clip && row.category_id == category),
    );
    if next.has_link(clip, category) {
        let i = choose|i: int|
            0 <= i < next.links.len() && (#[trigger] next.links[i]).clip_id == clip
                && next.links[i].category_id == category;
        assert(next.links.contains(next.links[i]));
    }
}

/// All categories are listed, each as often as it is there.
pub proof fn all_categories_are_listed(history: RepositoryView, c: int)
    requires
        0 <= c < history.categories.len(),
    ensures
        history.listed_categories().contains(history.categories[c].category),
        forall|k: int|
            0 <= k < history.listed_categories().len() ==> exists|i: int|
                0 <= i < history.categories.len() && (
                #[trigger] history.categories[i]).category == (
                #[trigger] history.listed_categories()[k]),
{
    lemma_listing(history);
    let order = ranking::ranking(
        history.categories.len(),
        |i: int, j: int| categories::listed_before(history.categories, i, j),
    );
    let listed = history.listed_categories();
    assert(order.contains(c));
    let k = choose|k: int| 0 <= k < order.len() && order[k] == c;
    assert(listed[k] == history.categories[c].category);
    assert forall|k: int| 0 <= k < listed.len() implies exists|i: int|
        0 <= i < history.categories.len() && (#[trigger] history.categories[i]).category == (
        #[trigger] listed[k]) by {
        assert(order.contains(order[k]));
        assert(history.categories[order[k]].category == listed[k]);
    }
}

/// Categories are listed by their sort order, then by their names without regard to the case of
/// ASCII letters, then by the bytes that their names take.
pub proof fn categories_are_listed_in_order(history: RepositoryView, a: int, b: int)
    requires
        0 <= a < b < history.listed_categories().len(),
    ensures
        ({
            let first = history.listed_categories()[a];
            let second = history.listed_categories()[b];
            let x = text::before_nul(text::ascii_lowercase(first.name));
            let y = text::before_nul(text::ascii_lowercase(second.name));
            &&& first.sort_order <= second.sort_order
            &&& first.sort_order == second.sort_order ==> x == y || text::lex_before(x, y)
            &&& first.sort_order == second.sort_order && x == y ==> text::utf8_len(first.name)
                <= text::utf8_len(second.name)
        }),
{
    lemma_listing(history);
    let precedes = |i: int, j: int| categories::listed_before(history.categories, i, j);
    let order = ranking::ranking(history.categories.len(), precedes);
    assert(precedes(order[a], order[b]));
    text::lemma_lex_irreflexive(
        text::before_nul(text::ascii_lowercase(history.listed_categories()[a].name)),
    );
}

/// What the order of the listed categories is.
proof fn lemma_listing(history: RepositoryView)
    ensures
        ({
            let precedes = |i: int, j: int| categories::listed_before(history.categories, i, j);
            let order = ranking::ranking(history.categories.len(), precedes);
            &&& ranking::is_ordered(order, precedes)
            &&& forall|c: int| #[trigger]
                order.contains(c) <==> 0 <= c < history.categories.len()
        }),
{
    let rows = history.categories;
    let precedes = |i: int, j: int| categories::listed_before(rows, i, j);
    let key = |i: int| categories::name_key(rows[i].category.name);
    assert forall|i: int| 0 <= i < rows.len() implies !#[trigger] precedes(i, i) by {
        text::lemma_lex_irreflexive(key(i));
    }
    assert forall|i: int, j: int, k: int|
        0 <= i < rows.len() && 0 <= j < rows.len() && 0 <= k < rows.len() && #[trigger] precedes(
            i,
            j,
        ) && #[trigger] precedes(j, k) implies precedes(i, k) by {
        if text::lex_before(key(i), key(j)) && text::lex_before(key(j), key(k)) {
            text::lemma_lex_transitive(key(i), key(j), key(k));
        }
    }
    assert forall|i: int, j: int|
        0 <= i < rows.len() && 0 <= j < rows.len() && i != j implies (#[trigger] precedes(i, j)
        || precedes(j, i)) by {
        text::lemma_lex_total(key(i), key(j));
    }
    ranking::lemma_ranking(rows.len(), precedes);
    let order = ranking::ranking(rows.len(), precedes);
    assert forall|c: int| #[trigger] order.contains(c) <==> 0 <= c < rows.len() by {
        assert(order.to_set().contains(c) <==> 0 <= c < rows.len());
    }
}

/// Where no clip has an identifier, it is not found.
proof fn lemma_no_clip(history: RepositoryView, id: Seq<char>)
    requires
        !history.has_clip(id),
    ensures
        history.clip_position(id) == history.clips.len(),
{
    sequences::lemma_first_index(history.clips, |row: ClipRowView| row.id == id);
    let at = history.clip_position(id);
    if at < history.clips.len() {
        assert(history.clips[at].id == id);
    }
}

/// Pinning a clip changes whether it is pinned and nothing else; without such a clip nothing
/// changes.
pub proof fn pinning_changes_the_pin_only(history: RepositoryView, at: int, pinned: bool)
    requires
        history.wf(),
        0 <= at < history.clips.len(),
    ensures
        ({
            let next = history.with_pin(history.clips[at].id, pinned);
            &&& next.clips.len() == history.clips.len()
            &&& next.clips[at].pinned == pinned
            &&& (ClipRowView { pinned: history.clips[at].pinned, ..next.clips[at] })
                == history.clips[at]
            &&& forall|k: int|
                0 <= k < history.clips.len() && k != at ==> #[trigger] next.clips[k]
                    == history.clips[k]
            &&& next.links == history.links
            &&& next.categories == history.categories
            &&& next.blobs == history.blobs
            &&& next.blob_root == history.blob_root
        }),
        forall|id: Seq<char>|
            !history.has_clip(id) ==> #[trigger] history.with_pin(id, pinned) == history,
{
    laws::lemma_clip_found(history, at);
    assert forall|id: Seq<char>| !history.has_clip(id) implies #[trigger] history.with_pin(
        id,
        pinned,
    ) == history by {
        lemma_no_clip(history, id);
    }
}

/// A clip that is copied from the history counts one copy and one step of the sort key more, at
/// the present time; nothing else of it changes, and no other clip.
pub proof fn copying_from_the_history_counts(history: RepositoryView, at: int, now: i64)
    requires
        history.wf(),
        0 <= at < history.clips.len(),
    ensures
        match history.copied(history.clips[at].id, now) {
            Ok(next) => {
                let row = history.clips[at];
                &&& next.clips.len() == history.clips.len()
                &&& next.clips[at].copy_count == row.copy_count + 1
                &&& next.clips[at].sort_key == row.sort_key + 1
                &&& next.clips[at].last_copied_at == now
                &&& (ClipRowView {
                    copy_count: row.copy_count,
                    sort_key: row.sort_key,
                    last_copied_at: row.last_copied_at,
                    ..next.clips[at]
                }) == row
                &&& forall|k: int|
                    0 <= k < history.clips.len() && k != at ==> #[trigger] next.clips[k]
                        == history.clips[k]
                &&& next.links == history.links
                &&& next.categories == history.categories
                &&& next.blobs == history.blobs
                &&& next.blob_root == history.blob_root
            },
            Err(error) => error == RepositoryError::CounterOverflow && (history.clips[at].copy_count
                == i64::MAX || history.clips[at].sort_key == i64::MAX),
        },
        forall|id: Seq<char>|
            !history.has_clip(id) ==> #[trigger] history.copied(id, now) == Err::<
                RepositoryView,
                RepositoryError,
            >(RepositoryError::ClipNotFound),
{
    laws::lemma_clip_found(history, at);
    assert forall|id: Seq<char>| !history.has_clip(id) implies #[trigger] history.copied(id, now)
        == Err::<RepositoryView, RepositoryError>(RepositoryError::ClipNotFound) by {
        lemma_no_clip(history, id);
    }
}

/// The text of a clip is handed out as it is stored; an image has none.
pub proof fn stored_texts_are_handed_out(history: RepositoryView, at: int)
    requires
        history.wf(),
        0 <= at < history.clips.len(),
    ensures
        history.clips[at].payload_kind is Text ==> history.text_of_clip(history.clips[at].id)
            == Ok::<Seq<char>, RepositoryError>(history.clips[at].content),
        history.clips[at].payload_kind is Image ==> history.text_of_clip(history.clips[at].id)
            == Err::<Seq<char>, RepositoryError>(RepositoryError::NotText),
        forall|id: Seq<char>|
            !history.has_clip(id) ==> #[trigger] history.text_of_clip(id) == Err::<
                Seq<char>,
                RepositoryError,
            >(RepositoryError::ClipNotFound),
{
    laws::lemma_clip_found(history, at);
    assert forall|id: Seq<char>| !history.has_clip(id) implies #[trigger] history.text_of_clip(id)
        == Err::<Seq<char>, RepositoryError>(RepositoryError::ClipNotFound) by {
        lemma_no_clip(history, id);
    }
}

/// The file of an image is the one with its hash; a text has none.
pub proof fn images_are_handed_out_by_their_file(history: RepositoryView, at: int, b: int)
    requires
        history.wf(),
        0 <= at < history.clips.len(),
    ensures
        history.clips[at].payload_kind is Image && 0 <= b < history.blobs.len()
            && history.clips[at].blob_hash == Some(history.blobs[b].hash) ==> history.file_of_clip(
            history.clips[at].id,
        ) == Some((history.blobs[b].relative_path, history.blobs[b].mime_type)),
        history.clips[at].payload_kind is Text ==> history.file_of_clip(history.clips[at].id) is None,
        history.clips[at].blob_hash is None ==> history.file_of_clip(history.clips[at].id) is None,
{
    laws::lemma_clip_found(history, at);
    if 0 <= b < history.blobs.len() {
        let hash = history.blobs[b].hash;
        sequences::lemma_is_first_index(history.blobs, |row: BlobRowView| row.hash == hash, b);
    }
}

/// A text is put on the clipboard as it is stored, with the fingerprint by which it is known
/// again; a clip that is not there is not found.
pub proof fn stored_texts_are_put_on_the_clipboard<
    F: FnOnce(&str) -> Result<ImagePayload, RepositoryError>,
>(history: RepositoryView, at: int, load: F, result: Result<ClipboardCopy, RepositoryError>)
    requires
        history.wf(),
        0 <= at < history.clips.len(),
        history.clips[at].payload_kind is Text,
        access::copy_fetched(history, history.clips[at].id, load, result),
    ensures
        result matches Ok(copy) && copy.fingerprint@ == copy.payload.fingerprint_text() && (
        copy.payload matches ClipboardPayload::Text(content) && content@
            == history.clips[at].content),
{
    laws::lemma_clip_found(history, at);
}

/// An image is put on the clipboard as it is loaded from its file.
pub proof fn stored_images_are_put_on_the_clipboard<
    F: FnOnce(&str) -> Result<ImagePayload, RepositoryError>,
>(history: RepositoryView, at: int, b: int, load: F, result: Result<ClipboardCopy, RepositoryError>)
    requires
        history.wf(),
        0 <= at < history.clips.len(),
        0 <= b < history.blobs.len(),
        history.clips[at].payload_kind is Image,
        history.clips[at].blob_hash == Some(history.blobs[b].hash),
        history.blob_root is Some,
        access::copy_fetched(history, history.clips[at].id, load, result),
    ensures
        exists|path: &str, image: Result<ImagePayload, RepositoryError>|
            #[trigger] call_ensures(load, (path,), image) && path@ == history.blobs[b].relative_path
                && match image {
                Ok(image) => result matches Ok(copy) && copy.payload == ClipboardPayload::Image(
                    image,
                ) && copy.fingerprint@ == copy.payload.fingerprint_text(),
                Err(error) => result == Err::<ClipboardCopy, RepositoryError>(error),
            },
{
    images_are_handed_out_by_their_file(history, at, b);
    laws::lemma_clip_found(history, at);
}

/// The image of a clip is handed out as a data URL of what is read at its path below the store; a
/// clip without a file is not found.
pub proof fn images_are_handed_out_as_urls<F: FnOnce(&str) -> Option<Vec<u8>>>(
    history: RepositoryView,
    at: int,
    b: int,
    read: F,
    result: Result<String, RepositoryError>,
)
    requires
        history.wf(),
        0 <= at < history.clips.len(),
        0 <= b < history.blobs.len(),
        history.clips[at].payload_kind is Image,
        history.clips[at].blob_hash == Some(history.blobs[b].hash),
        access::data_url_fetched(history, history.clips[at].id, read, result),
    ensures
        history.blob_root is None ==> result == Err::<String, RepositoryError>(
            RepositoryError::BlobStoreUnavailable,
        ),
        history.blob_root is Some && !blob_store::is_safe_relative(history.blobs[b].relative_path)
            ==> result == Err::<String, RepositoryError>(RepositoryError::UnsafePath),
        history.blob_root is Some && blob_store::is_safe_relative(history.blobs[b].relative_path)
            ==> exists|path: &str, file: Option<Vec<u8>>|
            {
                &&& #[trigger] call_ensures(read, (path,), file)
                &&& path@ == blob_store::joined(
                    history.blob_root->0,
                    history.blobs[b].relative_path,
                )
                &&& file is None ==> result == Err::<String, RepositoryError>(
                    RepositoryError::BlobUnreadable,
                )
                &&& file is Some ==> match blob_store::data_url(
                    history.blobs[b].mime_type,
                    file->0@,
                ) {
                    Ok(url) => result is Ok && result->Ok_0@ == url,
                    Err(error) => result == Err::<String, RepositoryError>(error),
                }
            },
{
    images_are_handed_out_by_their_file(history, at, b);
}

/// Without a store, and without a file, an image can neither be put on the clipboard nor be handed
/// out; a clip that is not there can not either.
pub proof fn images_without_files_are_refused<
    F: FnOnce(&str) -> Result<ImagePayload, RepositoryError>,
    G: FnOnce(&str) -> Option<Vec<u8>>,
>(
    history: RepositoryView,
    at: int,
    id: Seq<char>,
    load: F,
    copied: Result<ClipboardCopy, RepositoryError>,
    read: G,
    shown: Result<String, RepositoryError>,
)
    requires
        history.wf(),
        access::copy_fetched(history, id, load, copied),
        access::data_url_fetched(history, id, read, shown),
    ensures
        !history.has_clip(id) ==> copied == Err::<ClipboardCopy, RepositoryError>(
            RepositoryError::ClipNotFound,
        ) && shown == Err::<String, RepositoryError>(RepositoryError::ClipNotFound),
        0 <= at < history.clips.len() && history.clips[at].id == id
            && history.clips[at].payload_kind is Text ==> shown == Err::<String, RepositoryError>(
            RepositoryError::ClipNotFound,
        ),
        0 <= at < history.clips.len() && history.clips[at].id == id
            && history.clips[at].payload_kind is Image && history.blob_root is None ==> copied
            == Err::<ClipboardCopy, RepositoryError>(RepositoryError::BlobStoreUnavailable),
        0 <= at < history.clips.len() && history.clips[at].id == id
            && history.clips[at].payload_kind is Image && history.blob_root is Some
            && history.clips[at].blob_hash is None ==> copied == Err::<
            ClipboardCopy,
            RepositoryError,
        >(RepositoryError::MissingBlob) && shown == Err::<String, RepositoryError>(
            RepositoryError::ClipNotFound,
        ),
{
    if !history.has_clip(id) {
        lemma_no_clip(history, id);
    }
    if 0 <= at < history.clips.len() && history.clips[at].id == id {
        laws::lemma_clip_found(history, at);
    }
}

/// The rows of a history differ where they have to, and every row that another names is there.
pub proof fn rows_keep_the_rules_of_their_tables(history: RepositoryView, i: int, j: int)
    requires
        history.wf(),
        0 <= i < j,
    ensures
        j < history.clips.len() ==> history.clips[i].id != history.clips[j].id,
        j < history.clips.len() && history.clips[i].content_hash == history.clips[j].content_hash
            ==> history.clips[i].domain_key != history.clips[j].domain_key,
        j < history.categories.len() ==> history.categories[i].category.id
            != history.categories[j].category.id,
        j < history.categories.len() ==> history.categories[i].normalized_name
            != history.categories[j].normalized_name,
        j < history.links.len() && history.links[i].clip_id == history.links[j].clip_id
            ==> history.links[i].category_id != history.links[j].category_id,
        j < history.blobs.len() ==> history.blobs[i].hash != history.blobs[j].hash,
        j < history.blobs.len() ==> history.blobs[i].relative_path
            != history.blobs[j].relative_path,
        i < history.clips.len() ==> history.clips[i].copy_count >= 1,
        i < history.links.len() ==> exists|k: int|
            0 <= k < history.clips.len() && (#[trigger] history.clips[k]).id
                == history.links[i].clip_id,
        i < history.links.len() ==> exists|k: int|
            0 <= k < history.categories.len() && (#[trigger] history.categories[k]).category.id
                == history.links[i].category_id,
        i < history.clips.len() && history.clips[i].blob_hash is Some ==> exists|k: int|
            0 <= k < history.blobs.len() && Some((#[trigger] history.blobs[k]).hash)
                == history.clips[i].blob_hash,
{
    if j < history.clips.len() {
        assert(!crate::persistence::same_slot(history.clips[i], history.clips[j]));
    }
    if j < history.links.len() {
        assert(!crate::persistence::same_link(history.links[i], history.links[j]));
    }
    if i < history.links.len() {
        assert(history.has_clip(history.links[i].clip_id));
        assert(history.has_category(history.links[i].category_id));
    }
    if i < history.clips.len() && history.clips[i].blob_hash is Some {
        assert(history.has_blob(history.clips[i].blob_hash->0));
    }
}

} // verus!
