//! The rows of a database as an earlier version has left them.

use crate::domain::{ContentType, PayloadKind};
use crate::persistence::rows;
use crate::persistence::rows::{BlobRow, BlobRowView};
use crate::text;
use crate::text::comes_before;
use vstd::prelude::*;

verus! {

/// A moment as it was stored: a number, or a text with the milliseconds that it denotes once it
/// has been read, if it denotes a moment. A text that has been replaced by its milliseconds is
/// told apart from a stored number, which may still count seconds.
#[derive(Debug)]
pub enum StoredTime {
    Number(i64),
    Text { text: String, millis: Option<i64> },
    Millis(i64),
}

#[verifier::ext_equal]
pub enum TimeView {
    Number(i64),
    Text { text: Seq<char>, millis: Option<i64> },
    Millis(i64),
}

impl View for StoredTime {
    type V = TimeView;

    open spec fn view(&self) -> TimeView {
        match self {
            StoredTime::Number(number) => TimeView::Number(*number),
            StoredTime::Text { text, millis } => TimeView::Text { text: text@, millis: *millis },
            StoredTime::Millis(millis) => TimeView::Millis(*millis),
        }
    }
}

impl Clone for StoredTime {
    fn clone(&self) -> (copy: Self)
        ensures
            copy == *self,
    {
        match self {
            StoredTime::Number(number) => StoredTime::Number(*number),
            StoredTime::Text { text, millis } => StoredTime::Text {
                text: text.clone(),
                millis: *millis,
            },
            StoredTime::Millis(millis) => StoredTime::Millis(*millis),
        }
    }
}

impl TimeView {
    /// The number that is stored, if it is no text.
    pub open spec fn number(self) -> Option<i64> {
        match self {
            TimeView::Number(number) => Some(number),
            TimeView::Millis(millis) => Some(millis),
            TimeView::Text { .. } => None,
        }
    }

    /// Stands before the other: numbers before texts.
    pub open spec fn before(self, other: TimeView) -> bool {
        match (self.number(), other.number()) {
            (Some(a), Some(b)) => a < b,
            (Some(_), None) => true,
            (None, Some(_)) => false,
            (None, None) => text::lex_before(self->Text_text, other->Text_text),
        }
    }
}

impl StoredTime {
    fn number(&self) -> (number: Option<i64>)
        ensures
            number == self@.number(),
    {
        match self {
            StoredTime::Number(number) => Some(*number),
            StoredTime::Millis(millis) => Some(*millis),
            StoredTime::Text { .. } => None,
        }
    }

    pub fn is_before(&self, other: &StoredTime) -> (answer: bool)
        ensures
            answer == self@.before(other@),
    {
        match (self, other) {
            (StoredTime::Text { text: a, .. }, StoredTime::Text { text: b, .. }) => comes_before(
                a.as_str(),
                b.as_str(),
            ),
            _ => match (self.number(), other.number()) {
                (Some(a), Some(b)) => a < b,
                (Some(_), None) => true,
                _ => false,
            },
        }
    }
}

/// A clip of an earlier version. Without a key of its own the domain counts.
#[derive(Debug)]
pub struct LegacyClip {
    pub id: String,
    pub content: String,
    pub content_hash: String,
    pub content_type: ContentType,
    pub domain: Option<String>,
    pub domain_key: String,
    pub page_title: Option<String>,
    pub created_at: StoredTime,
    pub last_copied_at: StoredTime,
    pub copy_count: i64,
    pub pinned: bool,
    pub sort_key: i64,
    pub payload_kind: PayloadKind,
    pub blob_hash: Option<String>,
}

#[verifier::ext_equal]
pub struct LegacyClipView {
    pub id: Seq<char>,
    pub content: Seq<char>,
    pub content_hash: Seq<char>,
    pub content_type: ContentType,
    pub domain: Option<Seq<char>>,
    pub domain_key: Seq<char>,
    pub page_title: Option<Seq<char>>,
    pub created_at: TimeView,
    pub last_copied_at: TimeView,
    pub copy_count: i64,
    pub pinned: bool,
    pub sort_key: i64,
    pub payload_kind: PayloadKind,
    pub blob_hash: Option<Seq<char>>,
}

impl View for LegacyClip {
    type V = LegacyClipView;

    open spec fn view(&self) -> LegacyClipView {
        LegacyClipView {
            id: self.id@,
            content: self.content@,
            content_hash: self.content_hash@,
            content_type: self.content_type,
            domain: text::text_of(self.domain),
            domain_key: self.domain_key@,
            page_title: text::text_of(self.page_title),
            created_at: self.created_at@,
            last_copied_at: self.last_copied_at@,
            copy_count: self.copy_count,
            pinned: self.pinned,
            sort_key: self.sort_key,
            payload_kind: self.payload_kind,
            blob_hash: text::text_of(self.blob_hash),
        }
    }
}

/// A category of an earlier version.
#[derive(Debug)]
pub struct LegacyCategory {
    pub id: String,
    pub name: String,
    pub normalized_name: String,
    pub color: String,
    pub created_at: StoredTime,
    pub sort_order: i64,
}

#[verifier::ext_equal]
pub struct LegacyCategoryView {
    pub id: Seq<char>,
    pub name: Seq<char>,
    pub normalized_name: Seq<char>,
    pub color: Seq<char>,
    pub created_at: TimeView,
    pub sort_order: i64,
}

impl View for LegacyCategory {
    type V = LegacyCategoryView;

    open spec fn view(&self) -> LegacyCategoryView {
        LegacyCategoryView {
            id: self.id@,
            name: self.name@,
            normalized_name: self.normalized_name@,
            color: self.color@,
            created_at: self.created_at@,
            sort_order: self.sort_order,
        }
    }
}

/// A link of an earlier version.
#[derive(Debug)]
pub struct LegacyLink {
    pub clip_id: String,
    pub category_id: String,
    pub created_at: StoredTime,
}

#[verifier::ext_equal]
pub struct LegacyLinkView {
    pub clip_id: Seq<char>,
    pub category_id: Seq<char>,
    pub created_at: TimeView,
}

impl View for LegacyLink {
    type V = LegacyLinkView;

    open spec fn view(&self) -> LegacyLinkView {
        LegacyLinkView {
            clip_id: self.clip_id@,
            category_id: self.category_id@,
            created_at: self.created_at@,
        }
    }
}

/// A database of an earlier version, the rows in the order in which they were added.
#[derive(Debug)]
pub struct LegacyDatabase {
    /// The migrations that were applied.
    pub versions: Vec<u32>,
    /// Whether clips still have a column with their normalized content.
    pub has_normalized: bool,
    /// Whether that column is under a constraint and cannot just be dropped.
    pub normalized_is_constrained: bool,
    pub clips: Vec<LegacyClip>,
    pub categories: Vec<LegacyCategory>,
    pub links: Vec<LegacyLink>,
    pub blobs: Vec<BlobRow>,
}

#[verifier::ext_equal]
pub struct DatabaseView {
    pub versions: Seq<u32>,
    pub has_normalized: bool,
    pub normalized_is_constrained: bool,
    pub clips: Seq<LegacyClipView>,
    pub categories: Seq<LegacyCategoryView>,
    pub links: Seq<LegacyLinkView>,
    pub blobs: Seq<BlobRowView>,
}

pub open spec fn legacy_clips(clips: Seq<LegacyClip>) -> Seq<LegacyClipView> {
    clips.map_values(|clip: LegacyClip| clip@)
}

pub open spec fn legacy_categories(categories: Seq<LegacyCategory>) -> Seq<LegacyCategoryView> {
    categories.map_values(|category: LegacyCategory| category@)
}

pub open spec fn legacy_links(links: Seq<LegacyLink>) -> Seq<LegacyLinkView> {
    links.map_values(|link: LegacyLink| link@)
}

impl View for LegacyDatabase {
    type V = DatabaseView;

    open spec fn view(&self) -> DatabaseView {
        DatabaseView {
            versions: self.versions@,
            has_normalized: self.has_normalized,
            normalized_is_constrained: self.normalized_is_constrained,
            clips: legacy_clips(self.clips@),
            categories: legacy_categories(self.categories@),
            links: legacy_links(self.links@),
            blobs: rows::blob_views(self.blobs@),
        }
    }
}

} // verus!
