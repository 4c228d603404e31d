//! Reading what the clipboard holds.

use crate::domain;
use crate::domain::{CapturedImageSource, ClipboardPayload, ImagePayload, MAX_DECODED_BYTES, MAX_IMAGE_SIDE};
use crate::imaging;
use crate::imaging::{decode_image, guess_mime};
use crate::text;
use crate::text::{same_text, to_ascii_lower};
use vstd::prelude::*;

verus! {

/// A file that was copied: where it lies and the extension of its name.
#[derive(Debug)]
pub struct CopiedFile {
    pub path: String,
    pub extension: Option<String>,
}

/// What is known of a file before it is read.
#[derive(Debug, Clone, Copy, PartialEq, Eq, Structural)]
pub struct FileInfo {
    pub is_file: bool,
    pub len: u64,
}

/// Pixels as the clipboard hands them out.
#[derive(Debug)]
pub struct RawImage {
    pub width: usize,
    pub height: usize,
    pub bytes: Vec<u8>,
}

/// Where the contents of the clipboard, and the files that were copied, can be read.
pub trait ClipboardReader {
    /// The copied files, if the clipboard holds a list of files.
    fn file_list(&self) -> (files: Option<Vec<CopiedFile>>);

    fn file_info(&self, path: &str) -> (info: Option<FileInfo>);

    fn read_file(&self, path: &str) -> (bytes: Option<Vec<u8>>);

    fn get_image(&self) -> (image: Option<RawImage>);

    fn get_text(&self) -> (text: Option<String>);

    /// The window that owns the clipboard.
    fn get_selection_owner(&self) -> (owner: Option<u32>);
}

/// The media type that an extension promises, for the images that are kept as files.
pub open spec fn promised_mime(extension: Option<Seq<char>>) -> Option<Seq<char>> {
    match extension {
        None => None,
        Some(extension) => {
            let lower = text::ascii_lowercase(extension);
            if lower == "png"@ {
                Some("image/png"@)
            } else if lower == "jpg"@ || lower == "jpeg"@ {
                Some("image/jpeg"@)
            } else if lower == "webp"@ {
                Some("image/webp"@)
            } else {
                None
            }
        },
    }
}

fn mime_for(file: &CopiedFile) -> (mime: Option<&'static str>)
    ensures
        text::slice_of(mime) == promised_mime(text::text_of(file.extension)),
{
    match &file.extension {
        None => None,
        Some(extension) => {
            let lower = to_ascii_lower(extension.as_str());
            if same_text(lower.as_str(), "png") {
                Some("image/png")
            } else if same_text(lower.as_str(), "jpg") || same_text(lower.as_str(), "jpeg") {
                Some("image/jpeg")
            } else if same_text(lower.as_str(), "webp") {
                Some("image/webp")
            } else {
                None
            }
        },
    }
}

/// A file that is neither empty nor larger than allowed.
pub open spec fn is_readable(info: Option<FileInfo>, max_image_bytes: u64) -> bool {
    info matches Some(info) && info.is_file && 0 < info.len <= max_image_bytes
}

/// The image in a file: the file must be what its name promises, and the image valid.
pub open spec fn accepted(
    mime: Seq<char>,
    guessed: Option<Seq<char>>,
    decoded: Option<(u32, u32, Seq<u8>)>,
) -> Option<(u32, u32, Seq<u8>)> {
    match decoded {
        Some((width, height, rgba)) if guessed == Some(mime) && domain::image_problem(
            width,
            height,
            rgba.len(),
        ) is None => decoded,
        _ => None,
    }
}

/// An image with these pixels that keeps the file it came in.
pub open spec fn keeps_file(
    image: Option<ImagePayload>,
    mime: Seq<char>,
    bytes: Seq<u8>,
    pixels: Option<(u32, u32, Seq<u8>)>,
) -> bool {
    match pixels {
        Some((width, height, rgba)) => image matches Some(image) && image.width == width
            && image.height == height && image.rgba@ == rgba && text::text_of(image.source_mime)
            == Some(mime) && (image.source_bytes matches Some(source) && source@ == bytes)
            && image.image_source == CapturedImageSource::CopiedImageFile,
        None => image is None,
    }
}

/// Accepts what was found in a copied file.
pub fn image_from_copied(
    mime: &str,
    bytes: Vec<u8>,
    guessed: Option<String>,
    decoded: Option<(u32, u32, Vec<u8>)>,
) -> (image: Option<ImagePayload>)
    ensures
        keeps_file(
            image,
            mime@,
            bytes@,
            accepted(mime@, text::text_of(guessed), imaging::pixels_of(decoded)),
        ),
{
    match guessed {
        Some(guessed) => {
            if !same_text(guessed.as_str(), mime) {
                return None;
            }
        },
        None => return None,
    }
    let (width, height, rgba) = match decoded {
        Some(decoded) => decoded,
        None => return None,
    };
    let image = ImagePayload {
        width,
        height,
        rgba,
        source_mime: Some(mime.to_owned()),
        source_bytes: Some(bytes),
        image_source: CapturedImageSource::CopiedImageFile,
    };
    match image.validate() {
        Ok(()) => Some(image),
        Err(_) => None,
    }
}

/// The image in a copied file with these contents.
pub open spec fn copied_image(mime: Seq<char>, bytes: Seq<u8>) -> Option<(u32, u32, Seq<u8>)> {
    accepted(
        mime,
        imaging::guessed_mime(bytes),
        imaging::decoded_image(bytes, MAX_IMAGE_SIDE, MAX_DECODED_BYTES as u64),
    )
}

/// What reading a copied file as an image comes to.
pub open spec fn reads_image<R: ClipboardReader>(
    reader: &R,
    file: CopiedFile,
    max_image_bytes: u64,
    image: Option<ImagePayload>,
) -> bool {
    match promised_mime(text::text_of(file.extension)) {
        None => image is None,
        Some(mime) => exists|path: &str, info: Option<FileInfo>|
            {
                &&& #[trigger] call_ensures(R::file_info, (reader, path), info)
                &&& path@ == file.path@
                &&& if is_readable(info, max_image_bytes) {
                    exists|bytes: Option<Vec<u8>>|
                        {
                            &&& #[trigger] call_ensures(R::read_file, (reader, path), bytes)
                            &&& match bytes {
                                Some(bytes) => keeps_file(
                                    image,
                                    mime,
                                    bytes@,
                                    copied_image(mime, bytes@),
                                ),
                                None => image is None,
                            }
                        }
                } else {
                    image is None
                }
            },
    }
}

/// The image in a copied file. The file is not read unless its name promises an image and its
/// size is allowed.
pub fn decode_image_file<R: ClipboardReader>(
    reader: &R,
    file: &CopiedFile,
    max_image_bytes: u64,
) -> (image: Option<ImagePayload>)
    ensures
        reads_image(reader, *file, max_image_bytes, image),
{
    let mime = match mime_for(file) {
        Some(mime) => mime,
        None => return None,
    };
    let path = file.path.as_str();
    let info = reader.file_info(path);
    let readable = match info {
        Some(info) => info.is_file && info.len > 0 && info.len <= max_image_bytes,
        None => false,
    };
    if !readable {
        return None;
    }
    let contents = reader.read_file(path);
    assert(call_ensures(R::read_file, (reader, path), contents));
    let bytes = match contents {
        Some(bytes) => bytes,
        None => return None,
    };
    let guessed = guess_mime(bytes.as_slice());
    let decoded = decode_image(bytes.as_slice(), MAX_IMAGE_SIDE, MAX_DECODED_BYTES as u64);
    image_from_copied(mime, bytes, guessed, decoded)
}

/// What reading the text of the clipboard comes to.
pub open spec fn reads_text<R: ClipboardReader>(reader: &R, payload: Option<ClipboardPayload>) -> bool {
    exists|text: Option<String>|
        {
            &&& #[trigger] call_ensures(R::get_text, (reader,), text)
            &&& match text {
                Some(text) => payload == Some(ClipboardPayload::Text(text)),
                None => payload is None,
            }
        }
}

fn read_text<R: ClipboardReader>(reader: &R) -> (payload: Option<ClipboardPayload>)
    ensures
        reads_text(reader, payload),
{
    match reader.get_text() {
        Some(text) => Some(ClipboardPayload::Text(text)),
        None => None,
    }
}

/// Pixels that make a valid image.
pub open spec fn is_valid_raw(image: RawImage) -> bool {
    image.width <= u32::MAX && image.height <= u32::MAX && domain::image_problem(
        image.width as u32,
        image.height as u32,
        image.bytes@.len(),
    ) is None
}

/// Accepts pixels of the clipboard.
pub fn image_from_raw(image: RawImage) -> (accepted: Option<ImagePayload>)
    ensures
        accepted is Some == is_valid_raw(image),
        accepted matches Some(found) ==> found == (ImagePayload {
            width: image.width as u32,
            height: image.height as u32,
            rgba: image.bytes,
            source_mime: None,
            source_bytes: None,
            image_source: CapturedImageSource::ClipboardImage,
        }),
{
    if image.width > u32::MAX as usize || image.height > u32::MAX as usize {
        return None;
    }
    let payload = ImagePayload {
        width: image.width as u32,
        height: image.height as u32,
        rgba: image.bytes,
        source_mime: None,
        source_bytes: None,
        image_source: CapturedImageSource::ClipboardImage,
    };
    match payload.validate() {
        Ok(()) => Some(payload),
        Err(_) => None,
    }
}

/// What reading the clipboard comes to, given the list of copied files.
pub open spec fn reads_payload<R: ClipboardReader>(
    reader: &R,
    max_image_bytes: u64,
    files: Option<Vec<CopiedFile>>,
    payload: Option<ClipboardPayload>,
) -> bool {
    match files {
        Some(files) if files@.len() == 1 => exists|image: Option<ImagePayload>|
            {
                &&& #[trigger] reads_image(reader, files@[0], max_image_bytes, image)
                &&& match image {
                    Some(image) => payload == Some(ClipboardPayload::Image(image)),
                    None => reads_text(reader, payload),
                }
            },
        Some(_) => reads_text(reader, payload),
        None => exists|raw: Option<RawImage>|
            {
                &&& #[trigger] call_ensures(R::get_image, (reader,), raw)
                &&& match raw {
                    Some(image) if is_valid_raw(image) => payload == Some(
                        ClipboardPayload::Image(
                            ImagePayload {
                                width: image.width as u32,
                                height: image.height as u32,
                                rgba: image.bytes,
                                source_mime: None,
                                source_bytes: None,
                                image_source: CapturedImageSource::ClipboardImage,
                            },
                        ),
                    ),
                    _ => reads_text(reader, payload),
                }
            },
    }
}

/// Reads the clipboard. A single copied image file is read as an image; with any other list of
/// files only the text counts, so that copied files stay files. Without a list of files an image
/// comes before the text.
pub fn read_payload_with_reader<R: ClipboardReader>(reader: &R, max_image_bytes: u64) -> (payload:
    Option<ClipboardPayload>)
    ensures
        exists|files: Option<Vec<CopiedFile>>|
            {
                &&& #[trigger] call_ensures(R::file_list, (reader,), files)
                &&& reads_payload(reader, max_image_bytes, files, payload)
            },
{
    let listed = reader.file_list();
    match &listed {
        Some(files) => {
            if files.len() == 1 {
                match decode_image_file(reader, &files[0], max_image_bytes) {
                    Some(image) => return Some(ClipboardPayload::Image(image)),
                    None => {},
                }
            }
            read_text(reader)
        },
        None => {
            let raw = reader.get_image();
            assert(call_ensures(R::get_image, (reader,), raw));
            match raw {
                Some(image) => match image_from_raw(image) {
                    Some(image) => Some(ClipboardPayload::Image(image)),
                    None => read_text(reader),
                },
                None => read_text(reader),
            }
        },
    }
}

} // verus!
