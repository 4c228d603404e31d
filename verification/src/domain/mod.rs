//! Clipboard data: payloads, clips, categories and queries.

pub mod classification;
pub mod normalize;
pub mod self_copy;

pub use classification::{classify, ContentType};
pub use normalize::{content_hash, normalize_content, normalize_domain};
pub use self_copy::{ClipboardEventOrigin, OwnCopyGuard};

use crate::hashing;
use crate::hashing::{hex_encode, sha256};
use crate::text;
use crate::text::byte_len;
use vstd::prelude::*;

verus! {

#[derive(Debug, Clone, Copy, PartialEq, Eq, Structural)]
pub enum PayloadKind {
    Text,
    Image,
}

impl PayloadKind {
    pub open spec fn name(self) -> Seq<char> {
        match self {
            PayloadKind::Text => "text"@,
            PayloadKind::Image => "image"@,
        }
    }

    pub fn as_str(self) -> (name: &'static str)
        ensures
            name@ == self.name(),
    {
        match self {
            Self::Text => "text",
            Self::Image => "image",
        }
    }
}

#[derive(Debug, Clone, Copy, PartialEq, Eq, Structural)]
pub enum CapturedImageSource {
    ClipboardImage,
    CopiedImageFile,
}

impl Default for CapturedImageSource {
    fn default() -> (source: Self)
        ensures
            source == CapturedImageSource::ClipboardImage,
    {
        CapturedImageSource::ClipboardImage
    }
}

/// A decoded image: four bytes per pixel, rows from the top.
#[derive(Debug, Clone)]
pub struct ImagePayload {
    pub width: u32,
    pub height: u32,
    pub rgba: Vec<u8>,
    pub source_mime: Option<String>,
    pub source_bytes: Option<Vec<u8>>,
    pub image_source: CapturedImageSource,
}

/// The largest width and height of an image.
pub const MAX_IMAGE_SIDE: u32 = 32_768;

/// The largest size of a decoded image in bytes.
pub const MAX_DECODED_BYTES: usize = 268_435_456;

/// Why an image is not accepted.
#[derive(Debug, Clone, Copy, PartialEq, Eq, Structural)]
pub enum ImageError {
    ZeroSize,
    SidesTooLarge,
    SizeOverflow,
    CorruptPixels,
    TooManyBytes,
}

impl ImageError {
    pub open spec fn text(self) -> Seq<char> {
        match self {
            ImageError::ZeroSize => "изображение имеет нулевой размер"@,
            ImageError::SidesTooLarge => "размеры изображения слишком велики"@,
            ImageError::SizeOverflow => "размер изображения переполнен"@,
            ImageError::CorruptPixels => "повреждённые RGBA-данные изображения"@,
            ImageError::TooManyBytes => "декодированное изображение превышает 256 МБ"@,
        }
    }

    pub fn message(&self) -> (message: &'static str)
        ensures
            message@ == self.text(),
    {
        match self {
            ImageError::ZeroSize => "изображение имеет нулевой размер",
            ImageError::SidesTooLarge => "размеры изображения слишком велики",
            ImageError::SizeOverflow => "размер изображения переполнен",
            ImageError::CorruptPixels => "повреждённые RGBA-данные изображения",
            ImageError::TooManyBytes => "декодированное изображение превышает 256 МБ",
        }
    }
}

/// What is wrong with an image of these sides and this many bytes of pixels, if anything.
pub open spec fn image_problem(width: u32, height: u32, bytes: nat) -> Option<ImageError> {
    let expected = width * height * 4;
    if width == 0 || height == 0 {
        Some(ImageError::ZeroSize)
    } else if width > MAX_IMAGE_SIDE || height > MAX_IMAGE_SIDE {
        Some(ImageError::SidesTooLarge)
    } else if expected > usize::MAX {
        Some(ImageError::SizeOverflow)
    } else if expected != bytes {
        Some(ImageError::CorruptPixels)
    } else if expected > MAX_DECODED_BYTES {
        Some(ImageError::TooManyBytes)
    } else {
        None
    }
}

impl ImagePayload {
    pub open spec fn problem(&self) -> Option<ImageError> {
        image_problem(self.width, self.height, self.rgba@.len())
    }

    pub fn validate(&self) -> (result: Result<(), ImageError>)
        ensures
            match self.problem() {
                Some(problem) => result == Err::<(), ImageError>(problem),
                None => result is Ok,
            },
    {
        if self.width == 0 || self.height == 0 {
            return Err(ImageError::ZeroSize);
        }
        if self.width > MAX_IMAGE_SIDE || self.height > MAX_IMAGE_SIDE {
            return Err(ImageError::SidesTooLarge);
        }
        assert(self.width * self.height <= 32_768 * 32_768) by (nonlinear_arith)
            requires
                self.width <= 32_768,
                self.height <= 32_768,
        ;
        let expected: u64 = self.width as u64 * self.height as u64 * 4;
        if expected > usize::MAX as u64 {
            return Err(ImageError::SizeOverflow);
        }
        if expected != self.rgba.len() as u64 {
            return Err(ImageError::CorruptPixels);
        }
        if expected > MAX_DECODED_BYTES as u64 {
            return Err(ImageError::TooManyBytes);
        }
        Ok(())
    }

    /// The hash and the length by which an image is matched.
    pub fn match_key(&self) -> (key: (String, usize))
        ensures
            key.0@ == image_hash(self.width, self.height, self.rgba@),
            key.1 == self.rgba@.len(),
            hashing::is_hash_text(key.0@),
    {
        let mut sides: Vec<u8> = Vec::new();
        push_le_bytes(&mut sides, self.width);
        push_le_bytes(&mut sides, self.height);
        proof {
            assert(sides@ =~= le_bytes(self.width) + le_bytes(self.height));
        }
        let digest = sha256(sides.as_slice(), self.rgba.as_slice());
        proof {
            hashing::hex_of_digest_is_hash_text(digest@);
        }
        (hex_encode(digest.as_slice()), self.rgba.len())
    }
}

#[derive(Debug, Clone)]
pub enum ClipboardPayload {
    Text(String),
    Image(ImagePayload),
}

/// A number as four bytes, the least significant first.
pub open spec fn le_bytes(value: u32) -> Seq<u8> {
    seq![
        (value % 256) as u8,
        (value / 256 % 256) as u8,
        (value / 65_536 % 256) as u8,
        (value / 16_777_216) as u8,
    ]
}

fn push_le_bytes(bytes: &mut Vec<u8>, value: u32)
    ensures
        final(bytes)@ == old(bytes)@ + le_bytes(value),
{
    bytes.push((value % 256) as u8);
    bytes.push((value / 256 % 256) as u8);
    bytes.push((value / 65_536 % 256) as u8);
    bytes.push((value / 16_777_216) as u8);
    proof {
        assert(bytes@ =~= old(bytes)@ + le_bytes(value));
    }
}

/// The hash under which an image is matched: that of its sides and its pixels.
pub open spec fn image_hash(width: u32, height: u32, rgba: Seq<u8>) -> Seq<char> {
    hashing::hex_text(hashing::sha256_digest(le_bytes(width) + le_bytes(height) + rgba))
}

impl ClipboardPayload {
    /// The hash and the length by which a payload is matched; none for blank text.
    pub open spec fn key(self) -> Option<(Seq<char>, nat)> {
        match self {
            ClipboardPayload::Text(content) => {
                let normal = normalize::normalized_content(content@);
                if normal.len() == 0 {
                    None
                } else {
                    Some((normalize::hash_of(normal), text::utf8_len(normal)))
                }
            },
            ClipboardPayload::Image(image) => Some(
                (image_hash(image.width, image.height, image.rgba@), image.rgba@.len()),
            ),
        }
    }

    pub open spec fn fingerprint_text(self) -> Seq<char> {
        let prefix = match self {
            ClipboardPayload::Text(_) => "text:"@,
            ClipboardPayload::Image(_) => "image:"@,
        };
        match self.key() {
            Some((hash, _)) => prefix + hash,
            None => prefix + "empty"@,
        }
    }

    pub fn match_key(&self) -> (key: Option<(String, usize)>)
        ensures
            match key {
                Some((hash, length)) => self.key() == Some((hash@, length as nat)),
                None => self.key() is None,
            },
            key matches Some((hash, _)) ==> hashing::is_hash_text(hash@),
    {
        match self {
            Self::Text(content) => {
                let normal = normalize_content(content.as_str());
                if normal.as_str().unicode_len() == 0 {
                    None
                } else {
                    Some((content_hash(normal.as_str()), byte_len(normal.as_str())))
                }
            },
            Self::Image(image) => Some(image.match_key()),
        }
    }

    pub fn fingerprint(&self) -> (fingerprint: String)
        ensures
            fingerprint@ == self.fingerprint_text(),
    {
        let mut fingerprint = match self {
            Self::Text(_) => "text:".to_owned(),
            Self::Image(_) => "image:".to_owned(),
        };
        match self.match_key() {
            Some((hash, _)) => fingerprint.push_str(hash.as_str()),
            None => fingerprint.push_str("empty"),
        }
        fingerprint
    }
}

#[derive(Debug, Clone)]
pub struct ClipboardCopy {
    pub payload: ClipboardPayload,
    pub fingerprint: String,
}

#[derive(Debug, Clone)]
pub struct ImageMetadata {
    pub mime_type: String,
    pub width: u32,
    pub height: u32,
    pub size_bytes: u64,
    pub thumbnail_data_url: String,
}

#[derive(Debug, Clone, Copy, PartialEq, Eq, Structural)]
pub struct StorageStats {
    pub image_count: u64,
    pub image_bytes: u64,
    pub orphan_files_removed: u64,
}

#[derive(Debug)]
pub struct Category {
    pub id: String,
    pub name: String,
    pub color: String,
    pub created_at: i64,
    pub sort_order: i64,
}

#[verifier::ext_equal]
pub struct CategoryView {
    pub id: Seq<char>,
    pub name: Seq<char>,
    pub color: Seq<char>,
    pub created_at: i64,
    pub sort_order: i64,
}

impl View for Category {
    type V = CategoryView;

    open spec fn view(&self) -> CategoryView {
        CategoryView {
            id: self.id@,
            name: self.name@,
            color: self.color@,
            created_at: self.created_at,
            sort_order: self.sort_order,
        }
    }
}

impl Clone for Category {
    fn clone(&self) -> (copy: Self)
        ensures
            copy == *self,
    {
        Category {
            id: self.id.clone(),
            name: self.name.clone(),
            color: self.color.clone(),
            created_at: self.created_at,
            sort_order: self.sort_order,
        }
    }
}

#[derive(Debug, Clone)]
pub struct ClipSummary {
    pub id: String,
    pub preview: String,
    pub content_length: usize,
    /// True when the preview does not hold the whole content.
    pub is_truncated: bool,
    pub content_type: ContentType,
    pub payload_kind: PayloadKind,
    pub image: Option<ImageMetadata>,
    pub domain: Option<String>,
    pub page_title: Option<String>,
    pub created_at: i64,
    pub last_copied_at: i64,
    pub copy_count: i64,
    pub pinned: bool,
    pub categories: Vec<Category>,
}

#[derive(Debug, Clone)]
pub struct Clip {
    pub id: String,
    pub content: String,
    pub content_type: ContentType,
    pub domain: Option<String>,
    pub page_title: Option<String>,
    pub created_at: i64,
    pub last_copied_at: i64,
    pub copy_count: i64,
    pub pinned: bool,
    pub categories: Vec<Category>,
}

#[derive(Debug, Clone)]
pub struct ClipDetails {
    pub id: String,
    pub content: String,
}

#[derive(Debug, Clone)]
pub struct ClipQuery {
    pub search: Option<String>,
    pub content_type: Option<ContentType>,
    pub payload_kind: Option<PayloadKind>,
    pub domain: Option<String>,
    pub category_id: Option<String>,
    pub limit: Option<u32>,
    pub offset: Option<u32>,
}

impl Default for ClipQuery {
    fn default() -> (query: Self)
        ensures
            query.search is None,
            query.content_type is None,
            query.payload_kind is None,
            query.domain is None,
            query.category_id is None,
            query.limit is None,
            query.offset is None,
    {
        ClipQuery {
            search: None,
            content_type: None,
            payload_kind: None,
            domain: None,
            category_id: None,
            limit: None,
            offset: None,
        }
    }
}

#[derive(Debug, Clone)]
pub struct NewClip<'a> {
    pub content: &'a str,
    pub domain: Option<&'a str>,
    pub page_title: Option<&'a str>,
    pub now: i64,
}

#[derive(Debug, Clone)]
pub struct NewImageClip<'a> {
    pub image: &'a ImagePayload,
    pub domain: Option<&'a str>,
    pub page_title: Option<&'a str>,
    pub now: i64,
    pub max_image_bytes: u64,
    pub max_storage_bytes: u64,
}

} // verus!
