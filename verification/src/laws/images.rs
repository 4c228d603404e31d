//! What is stored of an image, and how it is shown.

use crate::blob_store;
use crate::blob_store::{PreparedView, ThumbnailSize};
use crate::clock::Moment;
use crate::domain;
use crate::domain::{ClipboardPayload, ImageError, ImagePayload};
use crate::hashing;
use crate::imaging;
use crate::persistence::RepositoryError;
use crate::sequences;
use vstd::prelude::*;

verus! {

/// An image is accepted exactly if it has four bytes for every pixel, no side is zero or longer
/// than 32768 pixels, and the pixels take no more than 256 megabytes.
pub proof fn accepted_images_have_all_their_pixels(width: u32, height: u32, bytes: nat)
    ensures
        domain::image_problem(width, height, bytes) is None <==> {
            &&& 1 <= width <= 32_768
            &&& 1 <= height <= 32_768
            &&& bytes == width * height * 4
            &&& bytes <= 268_435_456
        },
        width == 0 || height == 0 ==> domain::image_problem(width, height, bytes) == Some(
            ImageError::ZeroSize,
        ),
        width > 32_768 && height > 0 || width > 0 && height > 32_768 ==> domain::image_problem(
            width,
            height,
            bytes,
        ) == Some(ImageError::SidesTooLarge),
        1 <= width <= 32_768 && 1 <= height <= 32_768 && width * height * 4 <= usize::MAX && bytes
            != width * height * 4 ==> domain::image_problem(width, height, bytes) == Some(
            ImageError::CorruptPixels,
        ),
        1 <= width <= 32_768 && 1 <= height <= 32_768 && bytes == width * height * 4
            && 268_435_456 < bytes <= usize::MAX ==> domain::image_problem(width, height, bytes)
            == Some(ImageError::TooManyBytes),
{
}

/// The four bytes of a number give it back.
pub proof fn numbers_are_read_back_from_their_bytes(value: u32)
    ensures
        ({
            let bytes = domain::le_bytes(value);
            &&& bytes.len() == 4
            &&& bytes[0] + 256 * bytes[1] + 65_536 * bytes[2] + 16_777_216 * bytes[3] == value
        }),
{
    let v = value as int;
    assert(v / 65_536 == v / 256 / 256);
    assert(v / 16_777_216 == v / 65_536 / 256);
    assert(0 <= v / 16_777_216 < 256);
}

/// Images are told apart by their sides and their pixels: the hash is that of these bytes.
pub proof fn images_are_known_by_sides_and_pixels(width: u32, height: u32, rgba: Seq<u8>)
    ensures
        domain::image_hash(width, height, rgba) == hashing::hex_text(
            hashing::sha256_digest(domain::le_bytes(width) + domain::le_bytes(height) + rgba),
        ),
{
}

/// A text and an image are never taken for the same payload, and blank text has no key.
pub proof fn payloads_are_told_apart(content: String, image: ImagePayload)
    ensures
        ({
            let normal = domain::normalize::normalized_content(content@);
            let copied = ClipboardPayload::Text(content);
            &&& normal.len() == 0 ==> copied.key() is None && copied.fingerprint_text()
                == "text:"@ + "empty"@
            &&& normal.len() > 0 ==> copied.key() == Some(
                (domain::normalize::hash_of(normal), crate::text::utf8_len(normal)),
            ) && copied.fingerprint_text() == "text:"@ + domain::normalize::hash_of(normal)
        }),
        ({
            let hash = domain::image_hash(image.width, image.height, image.rgba@);
            let copied = ClipboardPayload::Image(image);
            &&& copied.key() == Some((hash, image.rgba@.len()))
            &&& copied.fingerprint_text() == "image:"@ + hash
        }),
        ClipboardPayload::Text(content).fingerprint_text() != ClipboardPayload::Image(
            image,
        ).fingerprint_text(),
{
    reveal_strlit("text:");
    reveal_strlit("image:");
    let a = ClipboardPayload::Text(content).fingerprint_text();
    let b = ClipboardPayload::Image(image).fingerprint_text();
    assert(a[0] == 't');
    assert(b[0] == 'i');
}

/// An image is stored in the file that it came in, if that is a PNG, JPEG or WebP file, and as a
/// PNG file else.
pub proof fn sources_of_known_kinds_are_kept(image: ImagePayload)
    ensures
        ({
            let file = blob_store::file_of(image);
            let mime = image.source_mime->0@;
            let came = image.source_mime is Some && image.source_bytes is Some;
            &&& came && mime == "image/png"@ ==> file.bytes == image.source_bytes->0@
                && file.mime_type == "image/png"@ && file.extension == "png"@
            &&& came && mime == "image/jpeg"@ ==> file.bytes == image.source_bytes->0@
                && file.mime_type == "image/jpeg"@ && file.extension == "jpg"@
            &&& came && mime == "image/webp"@ ==> file.bytes == image.source_bytes->0@
                && file.mime_type == "image/webp"@ && file.extension == "webp"@
            &&& !came || mime != "image/png"@ && mime != "image/jpeg"@ && mime != "image/webp"@
                ==> file.mime_type == "image/png"@ && file.extension == "png"@
            &&& !came || mime != "image/png"@ && mime != "image/jpeg"@ && mime != "image/webp"@ ==> (
            imaging::png_file(image.width, image.height, image.rgba@) matches Some(bytes)
                ==> file.bytes == bytes)
        }),
{
    reveal_strlit("image/png");
    reveal_strlit("image/jpeg");
    reveal_strlit("image/webp");
    assert("image/png"@.len() != "image/jpeg"@.len());
    assert("image/png"@[6] != "image/webp"@[6]);
    assert("image/jpeg"@[6] != "image/webp"@[6]);
}

/// A prepared image has the bytes of its file, their hash and number, and a path made of the hash,
/// below a directory named by its first two digits; a file that is too large is refused.
pub proof fn prepared_images_are_named_by_their_hash(
    image: ImagePayload,
    max_image_bytes: u64,
    size: ThumbnailSize,
)
    ensures
        ({
            let file = blob_store::file_of(image);
            let hash = hashing::hex_text(hashing::sha256_digest(file.bytes));
            match domain::image_problem(image.width, image.height, image.rgba@.len()) {
                Some(problem) => blob_store::prepared(image, max_image_bytes, size) == Err::<
                    PreparedView,
                    RepositoryError,
                >(RepositoryError::Image(problem)),
                None => if file.bytes.len() > max_image_bytes {
                    blob_store::prepared(image, max_image_bytes, size) == Err::<
                        PreparedView,
                        RepositoryError,
                    >(RepositoryError::ImageFileTooLarge { limit_mb: max_image_bytes / 1_048_576 })
                } else {
                    blob_store::prepared(image, max_image_bytes, size) matches Ok(prepared) && {
                        &&& prepared.bytes == file.bytes
                        &&& prepared.size_bytes == file.bytes.len()
                        &&& prepared.hash == hash
                        &&& prepared.mime_type == file.mime_type
                        &&& prepared.width == image.width
                        &&& prepared.height == image.height
                        &&& hash.len() >= 2 ==> prepared.relative_path == seq![hash[0], hash[1], '/']
                            + hash + seq!['.'] + file.extension
                    }
                },
            }
        }),
{
    let file = blob_store::file_of(image);
    let hash = hashing::hex_text(hashing::sha256_digest(file.bytes));
    if hash.len() >= 2 {
        assert(blob_store::file_path(hash, file.extension) =~= seq![hash[0], hash[1], '/'] + hash
            + seq!['.'] + file.extension);
    }
}

/// A thumbnail is shown as a PNG file of the sampled pixels.
pub proof fn thumbnails_are_shown_as_files(
    image: ImagePayload,
    max_image_bytes: u64,
    size: ThumbnailSize,
)
    requires
        blob_store::prepared(image, max_image_bytes, size) is Ok,
    ensures
        blob_store::prepared(image, max_image_bytes, size)->Ok_0.thumbnail_data_url
            == "data:image/png;base64,"@ + imaging::base64_text(
            imaging::png_file(
                size.width,
                size.height,
                blob_store::thumbnail_pixels(image.width, image.height, image.rgba@, size),
            )->0,
        ),
{
}

/// A pixel of a thumbnail is the pixel of the image at the same fraction of the way from the left
/// and from the top.
pub proof fn thumbnails_sample_the_image(
    width: u32,
    height: u32,
    rgba: Seq<u8>,
    size: ThumbnailSize,
    x: int,
    y: int,
    c: int,
)
    requires
        0 <= x < size.width,
        0 <= y < size.height,
        0 <= c < 4,
    ensures
        ({
            let thumbnail = blob_store::thumbnail_pixels(width, height, rgba, size);
            &&& thumbnail.len() == size.width * size.height * 4
            &&& thumbnail[(y * size.width + x) * 4 + c] == rgba[((y * height / (size.height as int))
                * width + x * width / (size.width as int)) * 4 + c]
        }),
{
    let w = size.width as int;
    let h = size.height as int;
    let p = y * w + x;
    assert(0 <= w * h * 4) by (nonlinear_arith)
        requires
            w >= 0,
            h >= 0,
    ;
    assert(0 <= p < w * h && p / w == y && p % w == x) by {
        assert(0 <= y * w + x < w * h) by (nonlinear_arith)
            requires
                0 <= x < w,
                0 <= y < h,
        ;
        vstd::arithmetic::div_mod::lemma_fundamental_div_mod_converse(p, w, y, x);
    }
    let k = p * 4 + c;
    assert(k / 4 == p && k % 4 == c);
    assert(0 <= k < w * h * 4);
}

/// What the six bits of a character of base64 are.
pub open spec fn bits_of(c: char) -> int {
    let code = c as int;
    if 65 <= code <= 90 {
        code - 65
    } else if 97 <= code <= 122 {
        code - 71
    } else if 48 <= code <= 57 {
        code + 4
    } else if code == 43 {
        62
    } else {
        63
    }
}

/// The bytes of a file are read back from its base64 text, three from every four characters.
pub proof fn bytes_are_read_back_from_base64(bytes: Seq<u8>, i: int)
    requires
        0 <= i,
        3 * i < bytes.len(),
    ensures
        ({
            let shown = imaging::base64_text(bytes);
            let a = bits_of(shown[4 * i]);
            let b = bits_of(shown[4 * i + 1]);
            let c = bits_of(shown[4 * i + 2]);
            let d = bits_of(shown[4 * i + 3]);
            &&& shown.len() == (bytes.len() + 2) / 3 * 4
            &&& bytes[3 * i] == a * 4 + b / 16
            &&& 3 * i + 1 < bytes.len() ==> bytes[3 * i + 1] == b % 16 * 16 + c / 4
            &&& 3 * i + 2 < bytes.len() ==> bytes[3 * i + 2] == c % 4 * 64 + d
            &&& 3 * i + 1 >= bytes.len() ==> shown[4 * i + 2] == '='
            &&& 3 * i + 2 >= bytes.len() ==> shown[4 * i + 3] == '='
        }),
    decreases bytes.len(),
{
    let shown = imaging::base64_text(bytes);
    assert forall|bits: int| 0 <= bits < 64 implies bits_of(
        #[trigger] imaging::base64_char(bits),
    ) == bits by {}
    if bytes.len() <= 3 {
    } else {
        let rest = bytes.skip(3);
        if i > 0 {
            bytes_are_read_back_from_base64(rest, i - 1);
            let tail = imaging::base64_text(rest);
            assert(shown.len() == 4 + tail.len());
            assert(shown[4 * i] == tail[4 * (i - 1)]);
            assert(shown[4 * i + 1] == tail[4 * (i - 1) + 1]);
            assert(shown[4 * i + 2] == tail[4 * (i - 1) + 2]);
            assert(shown[4 * i + 3] == tail[4 * (i - 1) + 3]);
            assert(rest[3 * (i - 1)] == bytes[3 * i]);
        } else {
            bytes_are_read_back_from_base64(rest, 0);
        }
    }
}

/// A file is handed out with its media type, unless it takes more than fifty megabytes.
pub proof fn small_files_are_handed_out(mime_type: Seq<char>, file: Seq<u8>)
    ensures
        blob_store::data_url(mime_type, file) == if file.len() <= 52_428_800 {
            Ok::<Seq<char>, RepositoryError>(
                "data:"@ + mime_type + ";base64,"@ + imaging::base64_text(file),
            )
        } else {
            Err::<Seq<char>, RepositoryError>(RepositoryError::BlobTooLarge)
        },
{
}

/// What is decoded from a file of the store is handed out exactly if it is an image within the
/// limits.
pub proof fn decoded_images_are_checked(width: u32, height: u32, rgba: Seq<u8>)
    ensures
        blob_store::loaded(None) == Err::<(u32, u32, Seq<u8>), RepositoryError>(
            RepositoryError::BlobUnreadable,
        ),
        match domain::image_problem(width, height, rgba.len()) {
            None => blob_store::loaded(Some((width, height, rgba))) == Ok::<
                (u32, u32, Seq<u8>),
                RepositoryError,
            >((width, height, rgba)),
            Some(problem) => blob_store::loaded(Some((width, height, rgba))) == Err::<
                (u32, u32, Seq<u8>),
                RepositoryError,
            >(RepositoryError::Image(problem)),
        },
{
}

/// A path leads out of the store if it begins at the root, or if one of its parts is `..`; else it
/// stays within, unless it begins with the part `.`, which is refused too.
pub proof fn safe_paths_have_no_parent_part(head: Seq<char>, tail: Seq<char>)
    ensures
        !blob_store::is_safe_relative(seq!['/'] + tail),
        !blob_store::is_safe_relative(seq!['.', '.']),
        !blob_store::is_safe_relative(seq!['.', '.', '/'] + tail),
        !blob_store::is_safe_relative(head + seq!['/', '.', '.']),
        !blob_store::is_safe_relative(head + seq!['/', '.', '.', '/'] + tail),
        !blob_store::is_safe_relative(seq!['.']),
        !blob_store::is_safe_relative(seq!['.', '/'] + tail),
        forall|path: Seq<char>|
            (forall|i: int| 0 <= i < path.len() ==> #[trigger] path[i] != '.') && (path.len() > 0
                ==> path[0] != '/') ==> #[trigger] blob_store::is_safe_relative(path),
{
    assert((seq!['/'] + tail)[0] == '/');
    assert(blob_store::is_parent_part(seq!['.', '.'], 0));
    assert(blob_store::is_parent_part(seq!['.', '.', '/'] + tail, 0));
    assert(blob_store::is_parent_part(head + seq!['/', '.', '.'], (head.len() + 1) as int));
    assert(blob_store::is_parent_part(head + seq!['/', '.', '.', '/'] + tail, (head.len() + 1) as int));
    assert((seq!['.', '/'] + tail)[1] == '/');
}

/// A file lies in its directory, with one slash between the two.
pub proof fn paths_are_joined_by_one_slash(directory: Seq<char>, relative: Seq<char>)
    ensures
        directory.len() > 0 && directory.last() != '/' ==> blob_store::joined(directory, relative)
            == directory + seq!['/'] + relative,
        directory.len() > 0 && directory.last() == '/' ==> blob_store::joined(directory, relative)
            == directory + relative,
        directory.len() == 0 ==> blob_store::joined(directory, relative) == relative,
{
    assert(directory.push('/') + relative =~= directory + seq!['/'] + relative);
    if directory.len() == 0 {
        assert(directory + relative =~= relative);
    }
}

/// A file of the store is to be removed exactly if nothing refers to it.
pub proof fn unknown_files_are_removed(
    files: Seq<Seq<char>>,
    referenced: Seq<Seq<char>>,
    file: Seq<char>,
)
    ensures
        blob_store::unreferenced(files, referenced).contains(file) <==> files.contains(file)
            && !referenced.contains(file),
{
    sequences::lemma_filter_members(files, |file: Seq<char>| !referenced.contains(file));
}

/// Two moments without leap seconds are within so many milliseconds of each other exactly if the
/// whole milliseconds between them are no more.
pub proof fn moments_are_compared_by_milliseconds(a: Moment, b: Moment, millis: u32)
    requires
        a.nanos < 1_000_000_000,
        b.nanos < 1_000_000_000,
    ensures
        ({
            let apart = (a.secs * 1_000_000_000 + a.nanos) - (b.secs * 1_000_000_000 + b.nanos);
            let distance = if apart < 0 {
                -apart
            } else {
                apart
            };
            a.within(b, millis as int) <==> distance / 1_000_000 <= millis
        }),
        a.millis() == (a.secs * 1_000_000_000 + a.nanos) / 1_000_000,
{
    assert(a.leap_between(b) == 0);
}

/// It does not matter which of two moments is compared with the other, and a leap second between
/// them counts.
pub proof fn leap_seconds_count(a: Moment, b: Moment, millis: u32)
    ensures
        a.within(b, millis as int) <==> b.within(a, millis as int),
        b.nanos >= 1_000_000_000 && a.secs as int % 86_400 > b.secs as int % 86_400
            ==> a.nanos_after(b) == (a.secs - b.secs + 1) * 1_000_000_000 + a.nanos - b.nanos,
        a.secs as int % 86_400 == b.secs as int % 86_400 ==> a.nanos_after(b) == (a.secs - b.secs)
            * 1_000_000_000 + a.nanos - b.nanos,
{
    assert(a.leap_between(b) == -b.leap_between(a));
    assert(a.nanos_after(b) == -b.nanos_after(a));
}

/// A thumbnail has at most 320 by 180 pixels, and at least one.
pub proof fn thumbnails_are_small(size: ThumbnailSize)
    ensures
        size.fits() <==> 1 <= size.width <= 320 && 1 <= size.height <= 180,
{
}

} // verus!
