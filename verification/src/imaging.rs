//! Image files: encoding, decoding, recognising, and data URLs.

use crate::domain;
use base64::Engine as _;
use vstd::prelude::*;

verus! {

/// The PNG file of an image with four bytes per pixel; `None` if it cannot be written.
pub uninterp spec fn png_file(width: u32, height: u32, rgba: Seq<u8>) -> Option<Seq<u8>>;

/// `png::Encoder` with eight-bit RGBA colour, for images within the limits: the file depends on
/// the image alone, and it can be written.
#[verifier::external_body]
pub(crate) fn encode_png(width: u32, height: u32, rgba: &[u8]) -> (file: Option<Vec<u8>>)
    requires
        domain::image_problem(width, height, rgba@.len()) is None,
    ensures
        file is Some,
        match file {
            Some(bytes) => png_file(width, height, rgba@) == Some(bytes@),
            None => png_file(width, height, rgba@) is None,
        },
{
    let mut encoded = Vec::new();
    let mut encoder = png::Encoder::new(&mut encoded, width, height);
    encoder.set_color(png::ColorType::Rgba);
    encoder.set_depth(png::BitDepth::Eight);
    let mut writer = encoder.write_header().ok()?;
    writer.write_image_data(rgba).ok()?;
    drop(writer);
    Some(encoded)
}

/// The sides and pixels of an image file; `None` if it cannot be decoded within the limits.
pub uninterp spec fn decoded_image(file: Seq<u8>, max_side: u32, max_alloc: u64) -> Option<
    (u32, u32, Seq<u8>),
>;

/// The pixels taken by their view.
pub open spec fn pixels_of(image: Option<(u32, u32, Vec<u8>)>) -> Option<(u32, u32, Seq<u8>)> {
    match image {
        Some((width, height, rgba)) => Some((width, height, rgba@)),
        None => None,
    }
}

/// Whatever image within the limits the file is the PNG file of, that image was decoded.
pub open spec fn restores_png(
    file: Seq<u8>,
    max_side: u32,
    max_alloc: u64,
    decoded: Option<(u32, u32, Seq<u8>)>,
) -> bool {
    forall|width: u32, height: u32, rgba: Seq<u8>|
        #![trigger png_file(width, height, rgba)]
        png_file(width, height, rgba) == Some(file) && domain::image_problem(
            width,
            height,
            rgba.len(),
        ) is None && width <= max_side && height <= max_side && rgba.len() <= max_alloc ==> decoded
            == Some((width, height, rgba))
}

/// `image::ImageReader` with the format guessed from the file, limits on the sides and on the
/// memory taken, and `into_rgba8`: the image depends on the file and the limits alone. PNG keeps
/// every pixel, so the file that [`encode_png`] writes of an image within the limits is decoded
/// to that image.
#[verifier::external_body]
pub(crate) fn decode_image(file: &[u8], max_side: u32, max_alloc: u64) -> (image: Option<
    (u32, u32, Vec<u8>),
>)
    ensures
        pixels_of(image) == decoded_image(file@, max_side, max_alloc),
        restores_png(file@, max_side, max_alloc, pixels_of(image)),
{
    let mut reader = image::ImageReader::new(std::io::Cursor::new(file)).with_guessed_format().ok()?;
    let mut limits = image::Limits::default();
    limits.max_image_width = Some(max_side);
    limits.max_image_height = Some(max_side);
    limits.max_alloc = Some(max_alloc);
    reader.limits(limits);
    let decoded = reader.decode().ok()?.into_rgba8();
    let (width, height) = decoded.dimensions();
    Some((width, height, decoded.into_raw()))
}

/// The media type that the first bytes of an image file show; `None` for an unknown one.
pub uninterp spec fn guessed_mime(file: Seq<u8>) -> Option<Seq<char>>;

/// `image::ImageReader::with_guessed_format` and `format`, as a media type: the answer depends on
/// the file alone.
#[verifier::external_body]
pub(crate) fn guess_mime(file: &[u8]) -> (mime: Option<String>)
    ensures
        crate::text::text_of(mime) == guessed_mime(file@),
{
    let reader = image::ImageReader::new(std::io::Cursor::new(file)).with_guessed_format().ok()?;
    Some(reader.format()?.to_mime_type().to_owned())
}

/// The character for six bits in the standard alphabet of base64.
pub open spec fn base64_char(bits: int) -> char {
    if bits < 26 {
        ((65 + bits) as u32) as char
    } else if bits < 52 {
        ((71 + bits) as u32) as char
    } else if bits < 62 {
        ((bits - 4) as u32) as char
    } else if bits == 62 {
        '+'
    } else {
        '/'
    }
}

/// The base64 text: four characters for every three bytes, padded with `=`.
pub open spec fn base64_text(bytes: Seq<u8>) -> Seq<char>
    decreases bytes.len(),
{
    if bytes.len() == 0 {
        Seq::empty()
    } else {
        let a = bytes[0] as int;
        let b = if bytes.len() > 1 {
            bytes[1] as int
        } else {
            0
        };
        let c = if bytes.len() > 2 {
            bytes[2] as int
        } else {
            0
        };
        let group = seq![
            base64_char(a / 4),
            base64_char(a % 4 * 16 + b / 16),
            if bytes.len() > 1 {
                base64_char(b % 16 * 4 + c / 64)
            } else {
                '='
            },
            if bytes.len() > 2 {
                base64_char(c % 64)
            } else {
                '='
            },
        ];
        if bytes.len() <= 3 {
            group
        } else {
            group + base64_text(bytes.skip(3))
        }
    }
}

/// `base64`'s standard engine: the standard alphabet, with padding.
#[verifier::external_body]
pub(crate) fn encode_base64(bytes: &[u8]) -> (encoded: String)
    ensures
        encoded@ == base64_text(bytes@),
{
    base64::engine::general_purpose::STANDARD.encode(bytes)
}

} // verus!
