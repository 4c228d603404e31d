//! Where image files are kept, and what goes into them.

use crate::domain;
use crate::domain::{CapturedImageSource, ImagePayload, MAX_DECODED_BYTES, MAX_IMAGE_SIDE};
use crate::hashing;
use crate::hashing::{hex_encode, sha256};
use crate::imaging;
use crate::imaging::{decode_image, encode_base64, encode_png};
use crate::persistence::RepositoryError;
use crate::text;
use crate::text::{chars_of, same_text, take_chars};
use vstd::prelude::*;

verus! {

pub const THUMBNAIL_MAX_WIDTH: u32 = 320;

pub const THUMBNAIL_MAX_HEIGHT: u32 = 180;

/// The largest file that is handed out as a data URL, in bytes.
pub const MAX_VIEWED_BYTES: usize = 52_428_800;

/// An image ready to be written to its file.
#[derive(Debug)]
pub struct PreparedImage {
    pub hash: String,
    pub relative_path: String,
    pub mime_type: String,
    pub width: u32,
    pub height: u32,
    pub size_bytes: u64,
    pub thumbnail_data_url: String,
    pub bytes: Vec<u8>,
}

#[verifier::ext_equal]
pub struct PreparedView {
    pub hash: Seq<char>,
    pub relative_path: Seq<char>,
    pub mime_type: Seq<char>,
    pub width: u32,
    pub height: u32,
    pub size_bytes: u64,
    pub thumbnail_data_url: Seq<char>,
    pub bytes: Seq<u8>,
}

impl View for PreparedImage {
    type V = PreparedView;

    open spec fn view(&self) -> PreparedView {
        PreparedView {
            hash: self.hash@,
            relative_path: self.relative_path@,
            mime_type: self.mime_type@,
            width: self.width,
            height: self.height,
            size_bytes: self.size_bytes,
            thumbnail_data_url: self.thumbnail_data_url@,
            bytes: self.bytes@,
        }
    }
}

/// The sides of a thumbnail.
#[derive(Debug, Clone, Copy, PartialEq, Eq, Structural)]
pub struct ThumbnailSize {
    pub width: u32,
    pub height: u32,
}

impl ThumbnailSize {
    pub open spec fn fits(self) -> bool {
        1 <= self.width <= THUMBNAIL_MAX_WIDTH && 1 <= self.height <= THUMBNAIL_MAX_HEIGHT
    }
}

/// The directory of the image files.
pub struct BlobStore {
    root: String,
}

impl View for BlobStore {
    type V = Seq<char>;

    closed spec fn view(&self) -> Seq<char> {
        self.root@
    }
}

/// A path that names something below the directory it is taken from: not absolute, no leading
/// `.` and no `..` among its parts.
pub open spec fn is_safe_relative(path: Seq<char>) -> bool {
    &&& path.len() > 0 ==> path[0] != '/'
    &&& !(path.len() > 0 && path[0] == '.' && (path.len() == 1 || path[1] == '/'))
    &&& forall|i: int| !#[trigger] is_parent_part(path, i)
}

/// A part `..` begins at this position.
pub open spec fn is_parent_part(path: Seq<char>, at: int) -> bool {
    &&& 0 <= at
    &&& at + 2 <= path.len()
    &&& path[at] == '.'
    &&& path[at + 1] == '.'
    &&& at == 0 || path[at - 1] == '/'
    &&& at + 2 == path.len() || path[at + 2] == '/'
}

/// A relative path appended to a directory.
pub open spec fn joined(directory: Seq<char>, relative: Seq<char>) -> Seq<char> {
    if directory.len() == 0 || directory.last() == '/' {
        directory + relative
    } else {
        directory.push('/') + relative
    }
}

pub(crate) fn join_path(directory: &str, relative: &str) -> (path: String)
    ensures
        path@ == joined(directory@, relative@),
{
    let chars = chars_of(directory);
    let mut path = directory.to_owned();
    if chars.len() > 0 && chars[chars.len() - 1] != '/' {
        path.push('/');
    }
    path.push_str(relative);
    path
}

fn parent_part_at(path: &Vec<char>, at: usize) -> (answer: bool)
    requires
        at < path@.len(),
    ensures
        answer == is_parent_part(path@, at as int),
{
    if path.len() - at < 2 {
        return false;
    }
    path[at] == '.' && path[at + 1] == '.' && (at == 0 || path[at - 1] == '/') && (path.len() - at
        == 2 || path[at + 2] == '/')
}

fn path_is_safe(path: &str) -> (answer: bool)
    ensures
        answer == is_safe_relative(path@),
{
    let chars = chars_of(path);
    if chars.len() > 0 && chars[0] == '/' {
        return false;
    }
    if chars.len() > 0 && chars[0] == '.' && (chars.len() == 1 || chars[1] == '/') {
        return false;
    }
    let mut i: usize = 0;
    while i < chars.len()
        invariant
            i <= chars@.len(),
            chars@ == path@,
            forall|k: int| k < i ==> !#[trigger] is_parent_part(chars@, k),
        decreases chars@.len() - i,
    {
        if parent_part_at(&chars, i) {
            return false;
        }
        i += 1;
    }
    proof {
        assert forall|k: int| !#[trigger] is_parent_part(path@, k) by {
            if k >= i {
            }
        }
    }
    true
}

/// The pixels of a thumbnail: each is the pixel of the image at the same fraction of the way
/// from the top left corner.
pub open spec fn thumbnail_pixels(width: u32, height: u32, rgba: Seq<u8>, size: ThumbnailSize) -> Seq<
    u8,
> {
    Seq::new(
        (size.width * size.height * 4) as nat,
        |k: int|
            {
                let x = k / 4 % (size.width as int);
                let y = k / 4 / (size.width as int);
                let source_x = x * width / (size.width as int);
                let source_y = y * height / (size.height as int);
                rgba[(source_y * width + source_x) * 4 + k % 4]
            },
    )
}

proof fn lemma_source_pixel(x: int, side: int, thumbnail: int)
    by (nonlinear_arith)
    requires
        0 <= x < thumbnail,
        0 < side,
    ensures
        0 <= x * side / thumbnail < side,
{
}

proof fn lemma_pixel_in_image(x: int, y: int, width: int, height: int)
    by (nonlinear_arith)
    requires
        0 <= x < width,
        0 <= y < height,
    ensures
        0 <= y * width + x < width * height,
{
}

proof fn lemma_thumbnail_row(p: int, width: int, height: int)
    by (nonlinear_arith)
    requires
        0 < width,
        0 <= p < width * height,
    ensures
        0 <= p / width < height,
        0 <= p % width < width,
{
}

/// Samples an image down to the given sides.
pub fn make_thumbnail(image: &ImagePayload, size: ThumbnailSize) -> (thumbnail: ImagePayload)
    requires
        image.problem() is None,
        size.fits(),
    ensures
        thumbnail.width == size.width,
        thumbnail.height == size.height,
        thumbnail.rgba@ == thumbnail_pixels(image.width, image.height, image.rgba@, size),
        thumbnail.source_mime is None,
        thumbnail.source_bytes is None,
        thumbnail.image_source == image.image_source,
        thumbnail.problem() is None,
{
    let ghost pixels = thumbnail_pixels(image.width, image.height, image.rgba@, size);
    let mut rgba: Vec<u8> = Vec::new();
    assert(1 <= size.width * size.height <= 57_600) by (nonlinear_arith)
        requires
            1 <= size.width <= 320,
            1 <= size.height <= 180,
    ;
    let count: u32 = size.width * size.height;
    let mut p: u32 = 0;
    while p < count
        invariant
            p <= count,
            count == size.width * size.height,
            count <= 57_600,
            size.fits(),
            image.problem() is None,
            pixels == thumbnail_pixels(image.width, image.height, image.rgba@, size),
            rgba@ == pixels.take(4 * p),
        decreases count - p,
    {
        let x: u32 = p % size.width;
        let y: u32 = p / size.width;
        proof {
            lemma_thumbnail_row(p as int, size.width as int, size.height as int);
            lemma_source_pixel(x as int, image.width as int, size.width as int);
            lemma_source_pixel(y as int, image.height as int, size.height as int);
            assert(x * image.width <= 320 * 32_768) by (nonlinear_arith)
                requires
                    x <= 320,
                    image.width <= 32_768,
            ;
            assert(y * image.height <= 180 * 32_768) by (nonlinear_arith)
                requires
                    y <= 180,
                    image.height <= 32_768,
            ;
        }
        let source_x: u64 = x as u64 * image.width as u64 / size.width as u64;
        let source_y: u64 = y as u64 * image.height as u64 / size.height as u64;
        proof {
            lemma_pixel_in_image(
                source_x as int,
                source_y as int,
                image.width as int,
                image.height as int,
            );
            assert(image.width * image.height * 4 == image.rgba@.len());
            assert(source_y * image.width + source_x < image.width * image.height);
            assert(0 <= source_y * image.width) by (nonlinear_arith);
        }
        let source: usize = ((source_y * image.width as u64 + source_x) * 4) as usize;
        rgba.push(image.rgba[source]);
        rgba.push(image.rgba[source + 1]);
        rgba.push(image.rgba[source + 2]);
        rgba.push(image.rgba[source + 3]);
        proof {
            assert forall|c: int| 0 <= c < 4 implies #[trigger] pixels[4 * p + c]
                == image.rgba@[source + c] by {
                assert((4 * p + c) / 4 == p);
                assert((4 * p + c) % 4 == c);
            }
            assert(rgba@ =~= pixels.take(4 * (p + 1))) by {
                assert(pixels[4 * p + 0] == image.rgba@[source + 0]);
                assert(pixels[4 * p + 1] == image.rgba@[source + 1]);
                assert(pixels[4 * p + 2] == image.rgba@[source + 2]);
                assert(pixels[4 * p + 3] == image.rgba@[source + 3]);
            }
        }
        p += 1;
    }
    proof {
        assert(pixels.take(pixels.len() as int) =~= pixels);
    }
    ImagePayload {
        width: size.width,
        height: size.height,
        rgba,
        source_mime: None,
        source_bytes: None,
        image_source: image.image_source,
    }
}

/// The extension of the file in which an image of this media type is kept as it came.
pub open spec fn kept_extension(mime: Seq<char>) -> Option<Seq<char>> {
    if mime == "image/png"@ {
        Some("png"@)
    } else if mime == "image/jpeg"@ {
        Some("jpg"@)
    } else if mime == "image/webp"@ {
        Some("webp"@)
    } else {
        None
    }
}

fn extension_for(mime: &str) -> (extension: Option<&'static str>)
    ensures
        text::slice_of(extension) == kept_extension(mime@),
{
    if same_text(mime, "image/png") {
        Some("png")
    } else if same_text(mime, "image/jpeg") {
        Some("jpg")
    } else if same_text(mime, "image/webp") {
        Some("webp")
    } else {
        None
    }
}

/// The file of an image: the one it came in, if it is of a kind that is kept, else a PNG file.
pub struct FileView {
    pub bytes: Seq<u8>,
    pub mime_type: Seq<char>,
    pub extension: Seq<char>,
}

/// The file that the image came in is of a kind that is kept.
pub open spec fn keeps_source(image: ImagePayload) -> bool {
    image.source_mime is Some && image.source_bytes is Some && kept_extension(
        image.source_mime->0@,
    ) is Some
}

pub open spec fn file_of(image: ImagePayload) -> FileView {
    if keeps_source(image) {
        FileView {
            bytes: image.source_bytes->0@,
            mime_type: image.source_mime->0@,
            extension: kept_extension(image.source_mime->0@)->0,
        }
    } else {
        FileView {
            bytes: imaging::png_file(image.width, image.height, image.rgba@)->0,
            mime_type: "image/png"@,
            extension: "png"@,
        }
    }
}

/// The path of a file within the store.
pub open spec fn file_path(hash: Seq<char>, extension: Seq<char>) -> Seq<char> {
    hash.take(2).push('/') + hash.push('.') + extension
}

pub open spec fn thumbnail_url(image: ImagePayload, size: ThumbnailSize) -> Seq<char> {
    "data:image/png;base64,"@ + imaging::base64_text(
        imaging::png_file(
            size.width,
            size.height,
            thumbnail_pixels(image.width, image.height, image.rgba@, size),
        )->0,
    )
}

/// The prepared image, or why there is none.
pub open spec fn prepared(image: ImagePayload, max_image_bytes: u64, size: ThumbnailSize) -> Result<
    PreparedView,
    RepositoryError,
> {
    let file = file_of(image);
    let hash = hashing::hex_text(hashing::sha256_digest(file.bytes));
    match image.problem() {
        Some(problem) => Err(RepositoryError::Image(problem)),
        None => if file.bytes.len() > max_image_bytes {
            Err(RepositoryError::ImageFileTooLarge { limit_mb: max_image_bytes / 1_048_576 })
        } else {
            Ok(
                PreparedView {
                    hash,
                    relative_path: file_path(hash, file.extension),
                    mime_type: file.mime_type,
                    width: image.width,
                    height: image.height,
                    size_bytes: file.bytes.len() as u64,
                    thumbnail_data_url: thumbnail_url(image, size),
                    bytes: file.bytes,
                },
            )
        },
    }
}

fn copy_bytes(bytes: &Vec<u8>) -> (copy: Vec<u8>)
    ensures
        copy@ == bytes@,
{
    let mut copy: Vec<u8> = Vec::new();
    copy.extend_from_slice(bytes.as_slice());
    proof {
        assert(copy@ =~= bytes@);
    }
    copy
}

/// The image in a decoded file, or why there is none.
pub open spec fn loaded(decoded: Option<(u32, u32, Seq<u8>)>) -> Result<
    (u32, u32, Seq<u8>),
    RepositoryError,
> {
    match decoded {
        None => Err(RepositoryError::BlobUnreadable),
        Some((width, height, rgba)) => match domain::image_problem(width, height, rgba.len()) {
            Some(problem) => Err(RepositoryError::Image(problem)),
            None => Ok((width, height, rgba)),
        },
    }
}

/// What is decoded from a file of the store.
pub open spec fn stored_image(file: Seq<u8>) -> Option<(u32, u32, Seq<u8>)> {
    imaging::decoded_image(file, MAX_IMAGE_SIDE, MAX_DECODED_BYTES as u64)
}

/// Accepts what was decoded from a file of the store.
pub fn image_from_decoded(decoded: Option<(u32, u32, Vec<u8>)>) -> (result: Result<
    ImagePayload,
    RepositoryError,
>)
    ensures
        match loaded(imaging::pixels_of(decoded)) {
            Ok((width, height, rgba)) => result matches Ok(image) && image.width == width
                && image.height == height && image.rgba@ == rgba && image.source_mime is None
                && image.source_bytes is None && image.image_source
                == CapturedImageSource::ClipboardImage,
            Err(error) => result == Err::<ImagePayload, RepositoryError>(error),
        },
{
    let (width, height, rgba) = match decoded {
        Some(decoded) => decoded,
        None => return Err(RepositoryError::BlobUnreadable),
    };
    let image = ImagePayload {
        width,
        height,
        rgba,
        source_mime: None,
        source_bytes: None,
        image_source: CapturedImageSource::ClipboardImage,
    };
    match image.validate() {
        Ok(()) => Ok(image),
        Err(problem) => Err(RepositoryError::Image(problem)),
    }
}

/// If the file is the PNG file of a valid image, that image came back.
pub open spec fn comes_back(file: Seq<u8>, result: Result<ImagePayload, RepositoryError>) -> bool {
    forall|width: u32, height: u32, rgba: Seq<u8>|
        #![trigger imaging::png_file(width, height, rgba)]
        imaging::png_file(width, height, rgba) == Some(file) && domain::image_problem(
            width,
            height,
            rgba.len(),
        ) is None ==> (result matches Ok(image) && image.width == width && image.height == height
            && image.rgba@ == rgba)
}

/// The image in a file of the store. What [`BlobStore::prepare`] has encoded comes back as it
/// was.
pub fn image_from_file(file: &[u8]) -> (result: Result<ImagePayload, RepositoryError>)
    ensures
        match loaded(stored_image(file@)) {
            Ok((width, height, rgba)) => result matches Ok(image) && image.width == width
                && image.height == height && image.rgba@ == rgba && image.source_mime is None
                && image.source_bytes is None && image.image_source
                == CapturedImageSource::ClipboardImage,
            Err(error) => result == Err::<ImagePayload, RepositoryError>(error),
        },
        comes_back(file@, result),
{
    image_from_decoded(decode_image(file, MAX_IMAGE_SIDE, MAX_DECODED_BYTES as u64))
}

/// An image that was prepared and stored is loaded as it was, unless the file that it came in is
/// kept, which may hold it in another encoding.
pub proof fn stored_images_come_back(
    image: ImagePayload,
    max_image_bytes: u64,
    size: ThumbnailSize,
    file: Seq<u8>,
    result: Result<ImagePayload, RepositoryError>,
)
    requires
        !keeps_source(image),
        prepared(image, max_image_bytes, size) matches Ok(stored) && stored.bytes == file,
        imaging::png_file(image.width, image.height, image.rgba@) == Some(file),
        comes_back(file, result),
    ensures
        result matches Ok(found) && found.width == image.width && found.height == image.height
            && found.rgba@ == image.rgba@,
{
}

/// The data URL of a file, or why there is none.
pub open spec fn data_url(mime_type: Seq<char>, file: Seq<u8>) -> Result<
    Seq<char>,
    RepositoryError,
> {
    if file.len() > MAX_VIEWED_BYTES {
        Err(RepositoryError::BlobTooLarge)
    } else {
        Ok("data:"@ + mime_type + ";base64,"@ + imaging::base64_text(file))
    }
}

pub fn data_url_of(mime_type: &str, file: &Vec<u8>) -> (result: Result<String, RepositoryError>)
    ensures
        match data_url(mime_type@, file@) {
            Ok(url) => result matches Ok(found) && found@ == url,
            Err(error) => result == Err::<String, RepositoryError>(error),
        },
{
    if file.len() > MAX_VIEWED_BYTES {
        return Err(RepositoryError::BlobTooLarge);
    }
    let mut url = "data:".to_owned();
    url.push_str(mime_type);
    url.push_str(";base64,");
    url.push_str(encode_base64(file.as_slice()).as_str());
    Ok(url)
}

impl BlobStore {
    /// The store in this directory.
    pub fn new(root: &str) -> (store: Self)
        ensures
            store@ == root@,
    {
        BlobStore { root: root.to_owned() }
    }

    /// Encodes an image, names its file and draws its thumbnail.
    pub fn prepare(&self, image: &ImagePayload, max_image_bytes: u64, size: ThumbnailSize) -> (result:
        Result<PreparedImage, RepositoryError>)
        requires
            size.fits(),
        ensures
            match prepared(*image, max_image_bytes, size) {
                Ok(view) => result matches Ok(found) && found@ == view,
                Err(error) => result == Err::<PreparedImage, RepositoryError>(error),
            },
            result matches Ok(found) ==> hashing::is_hash_text(found@.hash) && is_safe_relative(
                found@.relative_path,
            ) && (!keeps_source(*image) ==> imaging::png_file(
                image.width,
                image.height,
                image.rgba@,
            ) == Some(found@.bytes)),
    {
        match image.validate() {
            Ok(()) => {},
            Err(problem) => return Err(RepositoryError::Image(problem)),
        }
        let kept = match (&image.source_mime, &image.source_bytes) {
            (Some(mime), Some(bytes)) => match extension_for(mime.as_str()) {
                Some(extension) => Some((copy_bytes(bytes), mime.clone(), extension)),
                None => None,
            },
            _ => None,
        };
        let (bytes, mime_type, extension) = match kept {
            Some(kept) => kept,
            None => match encode_png(image.width, image.height, image.rgba.as_slice()) {
                Some(bytes) => (bytes, "image/png".to_owned(), "png"),
                None => return Err(RepositoryError::EncodingFailed),
            },
        };
        if bytes.len() as u64 > max_image_bytes {
            return Err(
                RepositoryError::ImageFileTooLarge { limit_mb: max_image_bytes / 1_048_576 },
            );
        }
        let nothing: Vec<u8> = Vec::new();
        let digest = sha256(nothing.as_slice(), bytes.as_slice());
        proof {
            assert(nothing@ + bytes@ =~= bytes@);
            hashing::hex_of_digest_is_hash_text(digest@);
        }
        let hash = hex_encode(digest.as_slice());
        let mut relative_path = take_chars(hash.as_str(), 2);
        relative_path.push('/');
        relative_path.push_str(hash.as_str());
        relative_path.push('.');
        relative_path.push_str(extension);
        proof {
            assert(relative_path@ =~= file_path(hash@, extension@));
            lemma_file_path_is_safe(hash@, extension@);
        }
        let thumbnail = make_thumbnail(image, size);
        let encoded = match encode_png(
            thumbnail.width,
            thumbnail.height,
            thumbnail.rgba.as_slice(),
        ) {
            Some(encoded) => encoded,
            None => return Err(RepositoryError::EncodingFailed),
        };
        let mut thumbnail_data_url = "data:image/png;base64,".to_owned();
        thumbnail_data_url.push_str(encode_base64(encoded.as_slice()).as_str());
        Ok(
            PreparedImage {
                hash,
                relative_path,
                mime_type,
                width: image.width,
                height: image.height,
                size_bytes: bytes.len() as u64,
                thumbnail_data_url,
                bytes,
            },
        )
    }

    /// Where a file of the store lies; only paths below the store are answered.
    pub fn absolute_path(&self, relative_path: &str) -> (result: Result<String, RepositoryError>)
        ensures
            match result {
                Ok(path) => is_safe_relative(relative_path@) && path@ == joined(
                    self@,
                    relative_path@,
                ),
                Err(error) => !is_safe_relative(relative_path@) && error
                    == RepositoryError::UnsafePath,
            },
    {
        if path_is_safe(relative_path) {
            Ok(join_path(self.root.as_str(), relative_path))
        } else {
            Err(RepositoryError::UnsafePath)
        }
    }

    /// The image in a file, which `read` fetches from an absolute path. An image that was
    /// encoded as PNG comes back as it was.
    pub fn load<F: FnOnce(&str) -> Option<Vec<u8>>>(&self, relative_path: &str, read: F) -> (result:
        Result<ImagePayload, RepositoryError>)
        requires
            forall|path: &str| path@ == joined(self@, relative_path@) ==> call_requires(read, (path,)),
        ensures
            !is_safe_relative(relative_path@) ==> result == Err::<ImagePayload, RepositoryError>(
                RepositoryError::UnsafePath,
            ),
            is_safe_relative(relative_path@) ==> exists|path: &str, file: Option<Vec<u8>>|
                {
                    &&& path@ == joined(self@, relative_path@)
                    &&& #[trigger] call_ensures(read, (path,), file)
                    &&& match file {
                        Some(file) => comes_back(file@, result) && match loaded(
                            stored_image(file@),
                        ) {
                            Ok((width, height, rgba)) => result matches Ok(image) && image.width
                                == width && image.height == height && image.rgba@ == rgba
                                && image.source_mime is None && image.source_bytes is None
                                && image.image_source == CapturedImageSource::ClipboardImage,
                            Err(error) => result == Err::<ImagePayload, RepositoryError>(error),
                        },
                        None => result == Err::<ImagePayload, RepositoryError>(
                            RepositoryError::BlobUnreadable,
                        ),
                    }
                },
    {
        let path = match self.absolute_path(relative_path) {
            Ok(path) => path,
            Err(error) => return Err(error),
        };
        let file = read(path.as_str());
        match &file {
            Some(file) => image_from_file(file.as_slice()),
            None => Err(RepositoryError::BlobUnreadable),
        }
    }

    /// The data URL of a file, which `read` fetches from an absolute path.
    pub fn read_data_url<F: FnOnce(&str) -> Option<Vec<u8>>>(
        &self,
        relative_path: &str,
        mime_type: &str,
        read: F,
    ) -> (result: Result<String, RepositoryError>)
        requires
            forall|path: &str| path@ == joined(self@, relative_path@) ==> call_requires(read, (path,)),
        ensures
            !is_safe_relative(relative_path@) ==> result == Err::<String, RepositoryError>(
                RepositoryError::UnsafePath,
            ),
            is_safe_relative(relative_path@) ==> exists|path: &str, file: Option<Vec<u8>>|
                {
                    &&& path@ == joined(self@, relative_path@)
                    &&& #[trigger] call_ensures(read, (path,), file)
                    &&& match file {
                        Some(file) => match data_url(mime_type@, file@) {
                            Ok(url) => result matches Ok(found) && found@ == url,
                            Err(error) => result == Err::<String, RepositoryError>(error),
                        },
                        None => result == Err::<String, RepositoryError>(
                            RepositoryError::BlobUnreadable,
                        ),
                    }
                },
    {
        let path = match self.absolute_path(relative_path) {
            Ok(path) => path,
            Err(error) => return Err(error),
        };
        let file = read(path.as_str());
        match &file {
            Some(file) => data_url_of(mime_type, file),
            None => Err(RepositoryError::BlobUnreadable),
        }
    }
}

/// The path of a file named by a hash stays within the store.
proof fn lemma_file_path_is_safe(hash: Seq<char>, extension: Seq<char>)
    requires
        hashing::is_hash_text(hash),
        extension == "png"@ || extension == "jpg"@ || extension == "webp"@,
    ensures
        is_safe_relative(file_path(hash, extension)),
{
    reveal_strlit("png");
    reveal_strlit("jpg");
    reveal_strlit("webp");
    let path = file_path(hash, extension);
    assert(path[0] == hash[0]);
    assert(hashing::is_lower_hex(hash[0]));
    assert forall|i: int| !#[trigger] is_parent_part(path, i) by {
        if 0 <= i && i + 2 <= path.len() {
            if i < 2 {
                assert(path[i] == hash[i]);
                assert(hashing::is_lower_hex(hash[i]));
            } else if i == 2 {
                assert(path[2] == '/');
            } else if i < 67 {
                assert(path[i] == hash[i - 3]);
                assert(hashing::is_lower_hex(hash[i - 3]));
            } else if i == 67 {
                assert(path[68] == extension[0]);
            } else {
                assert(path[i] == extension[i - 68]);
            }
        }
    }
}

/// A path below the store is the store's directory followed by the relative path.
pub proof fn safe_path_stays_below_root(root: Seq<char>, relative: Seq<char>)
    requires
        is_safe_relative(relative),
        root.len() > 0,
    ensures
        joined(root, relative).len() >= root.len(),
        joined(root, relative).take(root.len() as int) == root,
        forall|i: int| !#[trigger] is_parent_part(relative, i),
{
    assert(joined(root, relative).take(root.len() as int) =~= root);
}

/// The files that nothing refers to.
pub open spec fn unreferenced(files: Seq<Seq<char>>, referenced: Seq<Seq<char>>) -> Seq<Seq<char>> {
    files.filter(|file: Seq<char>| !referenced.contains(file))
}

/// Of the files found in the store, those that nothing refers to and that are to be removed.
pub fn cleanup_orphans(files: &Vec<String>, referenced: &Vec<String>) -> (orphans: Vec<String>)
    ensures
        text::texts_of(orphans@) == unreferenced(text::texts_of(files@), text::texts_of(referenced@)),
{
    let ghost all = text::texts_of(files@);
    let ghost kept = text::texts_of(referenced@);
    let ghost orphan = |file: Seq<char>| !kept.contains(file);
    let mut orphans: Vec<String> = Vec::new();
    let mut i: usize = 0;
    proof {
        reveal(Seq::filter);
        assert(text::texts_of(orphans@) =~= all.take(0).filter(orphan));
    }
    while i < files.len()
        invariant
            i <= files@.len(),
            all == text::texts_of(files@),
            kept == text::texts_of(referenced@),
            orphan == (|file: Seq<char>| !kept.contains(file)),
            text::texts_of(orphans@) == all.take(i as int).filter(orphan),
        decreases files@.len() - i,
    {
        proof {
            crate::sequences::lemma_filter_take(all, orphan, i as int);
        }
        if !contains_string(referenced, files[i].as_str()) {
            let ghost before = orphans@;
            orphans.push(files[i].clone());
            proof {
                assert(text::texts_of(orphans@) =~= text::texts_of(before).push(all[i as int]));
            }
        }
        i += 1;
    }
    proof {
        assert(all.take(i as int) =~= all);
    }
    orphans
}

fn contains_string(items: &Vec<String>, wanted: &str) -> (answer: bool)
    ensures
        answer == text::texts_of(items@).contains(wanted@),
{
    let mut i: usize = 0;
    while i < items.len()
        invariant
            i <= items@.len(),
            forall|k: int| 0 <= k < i ==> #[trigger] text::texts_of(items@)[k] != wanted@,
        decreases items@.len() - i,
    {
        if same_text(items[i].as_str(), wanted) {
            proof {
                assert(text::texts_of(items@)[i as int] == wanted@);
            }
            return true;
        }
        i += 1;
    }
    false
}

} // verus!
