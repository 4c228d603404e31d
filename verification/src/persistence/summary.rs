//! What is shown of a clip.

use crate::domain::{Category, CategoryView, ClipSummary, ContentType, ImageMetadata, PayloadKind};
use crate::persistence::rows;
use crate::persistence::rows::{CategoryRow, CategoryRowView, ClipRowView};
use crate::persistence::{Repository, RepositoryError, RepositoryView};
use crate::ranking;
use crate::ranking::{rank, Ranked};
use crate::text;
use crate::text::{char_len, comes_before, decimal_text, same_text, take_chars, until_nul};
use vstd::prelude::*;

verus! {

/// How many characters of a clip are shown.
pub const PREVIEW_CHARS: usize = 300;

#[verifier::ext_equal]
pub struct ImageMetadataView {
    pub mime_type: Seq<char>,
    pub width: u32,
    pub height: u32,
    pub size_bytes: u64,
    pub thumbnail_data_url: Seq<char>,
}

#[verifier::ext_equal]
pub struct SummaryView {
    pub id: Seq<char>,
    pub preview: Seq<char>,
    pub content_length: nat,
    pub is_truncated: bool,
    pub content_type: ContentType,
    pub payload_kind: PayloadKind,
    pub image: Option<ImageMetadataView>,
    pub domain: Option<Seq<char>>,
    pub page_title: Option<Seq<char>>,
    pub created_at: i64,
    pub last_copied_at: i64,
    pub copy_count: i64,
    pub pinned: bool,
    pub categories: Seq<CategoryView>,
}

impl View for ImageMetadata {
    type V = ImageMetadataView;

    open spec fn view(&self) -> ImageMetadataView {
        ImageMetadataView {
            mime_type: self.mime_type@,
            width: self.width,
            height: self.height,
            size_bytes: self.size_bytes,
            thumbnail_data_url: self.thumbnail_data_url@,
        }
    }
}

pub open spec fn categories_of(categories: Seq<Category>) -> Seq<CategoryView> {
    categories.map_values(|category: Category| category@)
}

impl View for ClipSummary {
    type V = SummaryView;

    open spec fn view(&self) -> SummaryView {
        SummaryView {
            id: self.id@,
            preview: self.preview@,
            content_length: self.content_length as nat,
            is_truncated: self.is_truncated,
            content_type: self.content_type,
            payload_kind: self.payload_kind,
            image: match self.image {
                Some(image) => Some(image@),
                None => None,
            },
            domain: text::text_of(self.domain),
            page_title: text::text_of(self.page_title),
            created_at: self.created_at,
            last_copied_at: self.last_copied_at,
            copy_count: self.copy_count,
            pinned: self.pinned,
            categories: categories_of(self.categories@),
        }
    }
}

/// By sort order, then by name in the order of the code points, then as inserted.
pub open spec fn category_precedes(rows: Seq<CategoryRowView>, i: int, j: int) -> bool {
    let a = rows[i].category;
    let b = rows[j].category;
    a.sort_order < b.sort_order || (a.sort_order == b.sort_order && (text::lex_before(
        a.name,
        b.name,
    ) || (a.name == b.name && i < j)))
}

struct CategoriesInOrder<'a> {
    rows: &'a Vec<CategoryRow>,
}

impl<'a> Ranked for CategoriesInOrder<'a> {
    closed spec fn count(&self) -> nat {
        self.rows@.len()
    }

    closed spec fn precedes(&self, i: int, j: int) -> bool {
        category_precedes(rows::category_views(self.rows@), i, j)
    }

    proof fn order_is_strict(&self) {
        let views = rows::category_views(self.rows@);
        let precedes = |i: int, j: int| self.precedes(i, j);
        assert forall|i: int| 0 <= i < self.count() implies !#[trigger] precedes(i, i) by {
            text::lemma_lex_irreflexive(views[i].category.name);
        }
        assert forall|i: int, j: int, k: int|
            0 <= i < self.count() && 0 <= j < self.count() && 0 <= k < self.count()
                && #[trigger] precedes(i, j) && #[trigger] precedes(j, k) implies precedes(
            i,
            k,
        ) by {
            let a = views[i].category.name;
            let b = views[j].category.name;
            let c = views[k].category.name;
            if text::lex_before(a, b) && text::lex_before(b, c) {
                text::lemma_lex_transitive(a, b, c);
            }
        }
        assert forall|i: int, j: int|
            0 <= i < self.count() && 0 <= j < self.count() && i != j implies (#[trigger] precedes(
            i,
            j,
        ) || precedes(j, i)) by {
            text::lemma_lex_total(views[i].category.name, views[j].category.name);
        }
    }

    fn comes_before(&self, i: usize, j: usize) -> (answer: bool) {
        let a = &self.rows[i].category;
        let b = &self.rows[j].category;
        proof {
            assert(rows::category_views(self.rows@)[i as int].category == a@);
            assert(rows::category_views(self.rows@)[j as int].category == b@);
        }
        a.sort_order < b.sort_order || (a.sort_order == b.sort_order && (comes_before(
            a.name.as_str(),
            b.name.as_str(),
        ) || (same_text(a.name.as_str(), b.name.as_str()) && i < j)))
    }
}

impl RepositoryView {
    /// The positions of all categories in order.
    pub open spec fn category_order(self) -> Seq<int> {
        ranking::ranking(
            self.categories.len(),
            |i: int, j: int| category_precedes(self.categories, i, j),
        )
    }

    /// The categories of a clip in order.
    pub open spec fn categories_of_clip(self, clip_id: Seq<char>) -> Seq<CategoryView> {
        self.category_order().filter(
            |i: int| self.has_link(clip_id, self.categories[i].category.id),
        ).map_values(|i: int| self.categories[i].category)
    }

    /// What is shown of a clip's image; `None` when it has no file.
    pub open spec fn image_of(self, row: ClipRowView) -> Option<ImageMetadataView> {
        if row.blob_hash is Some && self.blob_position(row.blob_hash->0) < self.blobs.len() {
            let blob = self.blobs[self.blob_position(row.blob_hash->0)];
            Some(
                ImageMetadataView {
                    mime_type: blob.mime_type,
                    width: blob.width,
                    height: blob.height,
                    size_bytes: blob.size_bytes,
                    thumbnail_data_url: blob.thumbnail_data_url,
                },
            )
        } else {
            None
        }
    }

    /// Whether the clip can be shown: an image needs its file.
    pub open spec fn is_showable(self, row: ClipRowView) -> bool {
        row.payload_kind is Image ==> self.image_of(row) is Some
    }

    /// What is shown of a clip: the beginning of its text, or the sides of its image.
    pub open spec fn summary_of(self, row: ClipRowView) -> SummaryView {
        let shown = text::before_nul(row.content);
        SummaryView {
            id: row.id,
            preview: match row.payload_kind {
                PayloadKind::Image => image_preview(self.image_of(row)->0),
                PayloadKind::Text => text::prefix(shown, PREVIEW_CHARS as int),
            },
            content_length: shown.len(),
            is_truncated: row.payload_kind is Text && shown.len() > PREVIEW_CHARS,
            content_type: row.content_type,
            payload_kind: row.payload_kind,
            image: match row.payload_kind {
                PayloadKind::Image => self.image_of(row),
                PayloadKind::Text => None,
            },
            domain: row.domain,
            page_title: row.page_title,
            created_at: row.created_at,
            last_copied_at: row.last_copied_at,
            copy_count: row.copy_count,
            pinned: row.pinned,
            categories: self.categories_of_clip(row.id),
        }
    }
}

pub open spec fn image_preview(image: ImageMetadataView) -> Seq<char> {
    "Изображение "@ + text::decimal(image.width as nat) + " × "@ + text::decimal(
        image.height as nat,
    )
}

impl Repository {
    pub(crate) fn is_linked(&self, clip_id: &str, category_id: &str) -> (answer: bool)
        ensures
            answer == self@.has_link(clip_id@, category_id@),
    {
        let mut i: usize = 0;
        while i < self.links.len()
            invariant
                i <= self.links@.len(),
                forall|k: int|
                    0 <= k < i ==> !((#[trigger] self@.links[k]).clip_id == clip_id@
                        && self@.links[k].category_id == category_id@),
            decreases self.links@.len() - i,
        {
            proof {
                assert(self@.links[i as int] == self.links@[i as int]@);
            }
            if same_text(self.links[i].clip_id.as_str(), clip_id) && same_text(
                self.links[i].category_id.as_str(),
                category_id,
            ) {
                return true;
            }
            i += 1;
        }
        false
    }

    fn category_ranking(&self) -> (order: Vec<usize>)
        ensures
            ranking::positions(order@) == self@.category_order(),
            forall|k: int| 0 <= k < order@.len() ==> #[trigger] order@[k] < self@.categories.len(),
    {
        let ranked = CategoriesInOrder { rows: &self.categories };
        let order = rank(&ranked, self.categories.len());
        proof {
            let a = |i: int, j: int| ranked.precedes(i, j);
            let b = |i: int, j: int| category_precedes(self@.categories, i, j);
            assert(a =~= b);
        }
        order
    }

    fn load_categories(&self, clip_id: &str) -> (categories: Vec<Category>)
        ensures
            categories_of(categories@) == self@.categories_of_clip(clip_id@),
    {
        let order = self.category_ranking();
        let ghost positions = ranking::positions(order@);
        let ghost linked = |i: int| self@.has_link(clip_id@, self@.categories[i].category.id);
        let ghost show = |i: int| self@.categories[i].category;
        let mut categories: Vec<Category> = Vec::new();
        let mut k: usize = 0;
        proof {
            reveal(Seq::filter);
            assert(categories_of(categories@) =~= positions.take(0).filter(linked).map_values(show));
        }
        while k < order.len()
            invariant
                k <= order@.len(),
                positions == ranking::positions(order@),
                linked == (|i: int| self@.has_link(clip_id@, self@.categories[i].category.id)),
                show == (|i: int| self@.categories[i].category),
                forall|m: int|
                    0 <= m < order@.len() ==> #[trigger] order@[m] < self@.categories.len(),
                categories_of(categories@) == positions.take(k as int).filter(linked).map_values(
                    show,
                ),
            decreases order@.len() - k,
        {
            let at = order[k];
            proof {
                crate::sequences::lemma_filter_take(positions, linked, k as int);
                assert(self@.categories.len() == self.categories@.len());
                assert(self@.categories[at as int].category
                    == self.categories@[at as int].category@);
            }
            if self.is_linked(clip_id, self.categories[at].category.id.as_str()) {
                let ghost before = categories@;
                let ghost chosen = positions.take(k as int).filter(linked);
                categories.push(self.categories[at].category.clone());
                proof {
                    assert(categories_of(categories@) =~= categories_of(before).push(
                        self@.categories[at as int].category,
                    ));
                    assert(chosen.push(at as int).map_values(show) =~= chosen.map_values(show).push(
                        show(at as int),
                    ));
                }
            }
            k += 1;
        }
        proof {
            assert(positions.take(k as int) =~= positions);
        }
        categories
    }

    /// What is shown of the clip at a position.
    pub(crate) fn load_clip_summary(&self, at: usize) -> (result: Result<ClipSummary, RepositoryError>)
        requires
            at < self@.clips.len(),
        ensures
            if self@.is_showable(self@.clips[at as int]) {
                result matches Ok(summary) && summary@ == self@.summary_of(self@.clips[at as int])
            } else {
                result == Err::<ClipSummary, RepositoryError>(RepositoryError::MissingBlob)
            },
    {
        let row = &self.clips[at];
        proof {
            assert(self@.clips[at as int] == row@);
        }
        let shown = until_nul(row.content.as_str());
        let content_length = char_len(shown.as_str());
        let image = match row.payload_kind {
            PayloadKind::Text => None,
            PayloadKind::Image => {
                let found = match &row.blob_hash {
                    Some(hash) => self.find_blob(hash.as_str()),
                    None => self.blobs.len(),
                };
                if found >= self.blobs.len() {
                    return Err(RepositoryError::MissingBlob);
                }
                let blob = &self.blobs[found];
                proof {
                    assert(self@.blobs[found as int] == blob@);
                }
                Some(
                    ImageMetadata {
                        mime_type: blob.mime_type.clone(),
                        width: blob.width,
                        height: blob.height,
                        size_bytes: blob.size_bytes,
                        thumbnail_data_url: blob.thumbnail_data_url.clone(),
                    },
                )
            },
        };
        let preview = match &image {
            Some(image) => {
                let mut preview = "Изображение ".to_owned();
                preview.push_str(decimal_text(image.width as u64).as_str());
                preview.push_str(" × ");
                preview.push_str(decimal_text(image.height as u64).as_str());
                preview
            },
            None => take_chars(shown.as_str(), PREVIEW_CHARS),
        };
        let is_truncated = match row.payload_kind {
            PayloadKind::Text => content_length > PREVIEW_CHARS,
            PayloadKind::Image => false,
        };
        Ok(
            ClipSummary {
                id: row.id.clone(),
                preview,
                content_length,
                is_truncated,
                content_type: row.content_type,
                payload_kind: row.payload_kind,
                image,
                domain: row.domain.clone(),
                page_title: row.page_title.clone(),
                created_at: row.created_at,
                last_copied_at: row.last_copied_at,
                copy_count: row.copy_count,
                pinned: row.pinned,
                categories: self.load_categories(row.id.as_str()),
            },
        )
    }
}

} // verus!
