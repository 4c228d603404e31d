//! The rows of the four tables.

use crate::domain::{Category, CategoryView, ContentType, PayloadKind};
use crate::text;
use vstd::prelude::*;

verus! {

/// One stored clip. An absent domain has the empty key.
#[derive(Debug)]
pub struct ClipRow {
    pub id: String,
    pub content: String,
    pub content_hash: String,
    pub content_type: ContentType,
    pub domain: Option<String>,
    pub domain_key: String,
    pub page_title: Option<String>,
    pub created_at: i64,
    pub last_copied_at: i64,
    pub copy_count: i64,
    pub pinned: bool,
    pub sort_key: i64,
    pub payload_kind: PayloadKind,
    pub blob_hash: Option<String>,
}

#[verifier::ext_equal]
pub struct ClipRowView {
    pub id: Seq<char>,
    pub content: Seq<char>,
    pub content_hash: Seq<char>,
    pub content_type: ContentType,
    pub domain: Option<Seq<char>>,
    pub domain_key: Seq<char>,
    pub page_title: Option<Seq<char>>,
    pub created_at: i64,
    pub last_copied_at: i64,
    pub copy_count: i64,
    pub pinned: bool,
    pub sort_key: i64,
    pub payload_kind: PayloadKind,
    pub blob_hash: Option<Seq<char>>,
}

impl View for ClipRow {
    type V = ClipRowView;

    open spec fn view(&self) -> ClipRowView {
        ClipRowView {
            id: self.id@,
            content: self.content@,
            content_hash: self.content_hash@,
            content_type: self.content_type,
            domain: text::text_of(self.domain),
            domain_key: self.domain_key@,
            page_title: text::text_of(self.page_title),
            created_at: self.created_at,
            last_copied_at: self.last_copied_at,
            copy_count: self.copy_count,
            pinned: self.pinned,
            sort_key: self.sort_key,
            payload_kind: self.payload_kind,
            blob_hash: text::text_of(self.blob_hash),
        }
    }
}

impl Clone for ClipRow {
    fn clone(&self) -> (copy: Self)
        ensures
            copy == *self,
    {
        ClipRow {
            id: self.id.clone(),
            content: self.content.clone(),
            content_hash: self.content_hash.clone(),
            content_type: self.content_type,
            domain: self.domain.clone(),
            domain_key: self.domain_key.clone(),
            page_title: self.page_title.clone(),
            created_at: self.created_at,
            last_copied_at: self.last_copied_at,
            copy_count: self.copy_count,
            pinned: self.pinned,
            sort_key: self.sort_key,
            payload_kind: self.payload_kind,
            blob_hash: self.blob_hash.clone(),
        }
    }
}

/// A user category with the name by which duplicates are found.
#[derive(Debug)]
pub struct CategoryRow {
    pub category: Category,
    pub normalized_name: String,
}

#[verifier::ext_equal]
pub struct CategoryRowView {
    pub category: CategoryView,
    pub normalized_name: Seq<char>,
}

impl View for CategoryRow {
    type V = CategoryRowView;

    open spec fn view(&self) -> CategoryRowView {
        CategoryRowView { category: self.category@, normalized_name: self.normalized_name@ }
    }
}

impl Clone for CategoryRow {
    fn clone(&self) -> (copy: Self)
        ensures
            copy == *self,
    {
        CategoryRow {
            category: self.category.clone(),
            normalized_name: self.normalized_name.clone(),
        }
    }
}

/// A clip belongs to a category.
#[derive(Debug)]
pub struct LinkRow {
    pub clip_id: String,
    pub category_id: String,
    pub created_at: i64,
}

#[verifier::ext_equal]
pub struct LinkRowView {
    pub clip_id: Seq<char>,
    pub category_id: Seq<char>,
    pub created_at: i64,
}

impl View for LinkRow {
    type V = LinkRowView;

    open spec fn view(&self) -> LinkRowView {
        LinkRowView {
            clip_id: self.clip_id@,
            category_id: self.category_id@,
            created_at: self.created_at,
        }
    }
}

impl Clone for LinkRow {
    fn clone(&self) -> (copy: Self)
        ensures
            copy == *self,
    {
        LinkRow {
            clip_id: self.clip_id.clone(),
            category_id: self.category_id.clone(),
            created_at: self.created_at,
        }
    }
}

/// An image file with what is shown of it.
#[derive(Debug)]
pub struct BlobRow {
    pub hash: String,
    pub relative_path: String,
    pub mime_type: String,
    pub width: u32,
    pub height: u32,
    pub size_bytes: u64,
    pub thumbnail_data_url: String,
    pub created_at: i64,
}

#[verifier::ext_equal]
pub struct BlobRowView {
    pub hash: Seq<char>,
    pub relative_path: Seq<char>,
    pub mime_type: Seq<char>,
    pub width: u32,
    pub height: u32,
    pub size_bytes: u64,
    pub thumbnail_data_url: Seq<char>,
    pub created_at: i64,
}

impl View for BlobRow {
    type V = BlobRowView;

    open spec fn view(&self) -> BlobRowView {
        BlobRowView {
            hash: self.hash@,
            relative_path: self.relative_path@,
            mime_type: self.mime_type@,
            width: self.width,
            height: self.height,
            size_bytes: self.size_bytes,
            thumbnail_data_url: self.thumbnail_data_url@,
            created_at: self.created_at,
        }
    }
}

impl Clone for BlobRow {
    fn clone(&self) -> (copy: Self)
        ensures
            copy == *self,
    {
        BlobRow {
            hash: self.hash.clone(),
            relative_path: self.relative_path.clone(),
            mime_type: self.mime_type.clone(),
            width: self.width,
            height: self.height,
            size_bytes: self.size_bytes,
            thumbnail_data_url: self.thumbnail_data_url.clone(),
            created_at: self.created_at,
        }
    }
}

pub open spec fn clip_views(rows: Seq<ClipRow>) -> Seq<ClipRowView> {
    rows.map_values(|row: ClipRow| row@)
}

pub open spec fn category_views(rows: Seq<CategoryRow>) -> Seq<CategoryRowView> {
    rows.map_values(|row: CategoryRow| row@)
}

pub open spec fn link_views(rows: Seq<LinkRow>) -> Seq<LinkRowView> {
    rows.map_values(|row: LinkRow| row@)
}

pub open spec fn blob_views(rows: Seq<BlobRow>) -> Seq<BlobRowView> {
    rows.map_values(|row: BlobRow| row@)
}

} // verus!
