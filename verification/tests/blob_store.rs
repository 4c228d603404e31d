use kitsupin::blob_store::{make_thumbnail, BlobStore, ThumbnailSize};
use kitsupin::domain::{CapturedImageSource, ImageError, ImagePayload};
use kitsupin::persistence::RepositoryError;
use std::collections::HashMap;

fn payload() -> ImagePayload {
    ImagePayload {
        width: 2,
        height: 1,
        rgba: vec![255, 0, 0, 255, 0, 255, 0, 255],
        source_mime: None,
        source_bytes: None,
        image_source: CapturedImageSource::ClipboardImage,
    }
}

const SIZE: ThumbnailSize = ThumbnailSize { width: 2, height: 1 };

#[test]
fn stores_deduplicates_and_loads_canonical_png() {
    let store = BlobStore::new("/t/blobs");
    let payload = payload();
    let prepared = store.prepare(&payload, 1024 * 1024, SIZE).unwrap();
    let mut disk: HashMap<String, Vec<u8>> = HashMap::new();
    let path = store.absolute_path(&prepared.relative_path).unwrap();
    assert!(disk.insert(path.clone(), prepared.bytes.clone()).is_none());
    let again = store.prepare(&payload, 1024 * 1024, SIZE).unwrap();
    assert!(disk.contains_key(&store.absolute_path(&again.relative_path).unwrap()));
    let loaded =
        store.load(&prepared.relative_path, |path: &str| disk.get(path).cloned()).unwrap();
    assert_eq!(loaded.rgba, payload.rgba);
    assert_eq!(loaded.source_mime, None);
    assert_eq!(loaded.source_bytes, None);
    assert_eq!(loaded.image_source, CapturedImageSource::ClipboardImage);
    assert!(prepared.thumbnail_data_url.starts_with("data:image/png;base64,"));
    assert_eq!(prepared.relative_path, format!("{}/{}.png", &prepared.hash[..2], prepared.hash));
}

#[test]
fn rejects_unsafe_relative_paths() {
    let store = BlobStore::new("/t/blobs");
    assert!(store.load("../outside.png", |_: &str| Some(vec![])).is_err());
    assert_eq!(store.absolute_path("/etc/passwd"), Err(RepositoryError::UnsafePath));
    assert_eq!(store.absolute_path("a/../../b"), Err(RepositoryError::UnsafePath));
}

#[test]
fn copied_files_keep_their_bytes_and_extension() {
    let store = BlobStore::new("/t/blobs");
    let mut image = payload();
    image.source_mime = Some("image/jpeg".to_owned());
    image.source_bytes = Some(vec![1, 2, 3]);
    let prepared = store.prepare(&image, 3, SIZE).unwrap();
    assert_eq!(prepared.bytes, vec![1, 2, 3]);
    assert!(prepared.relative_path.ends_with(".jpg"));
    assert_eq!(
        prepared.hash,
        "039058c6f2c0cb492c533b0a4d14ef77cc0f78abccced5287d84a1a2011cfb81"
    );
    assert_eq!(
        store.prepare(&image, 2, SIZE).err(),
        Some(RepositoryError::ImageFileTooLarge { limit_mb: 0 })
    );
    image.rgba.pop();
    assert_eq!(
        store.prepare(&image, 3, SIZE).err(),
        Some(RepositoryError::Image(ImageError::CorruptPixels))
    );
}

#[test]
fn files_are_shown_as_data_urls() {
    let store = BlobStore::new("/t/blobs");
    let url = store.read_data_url("ab/x.png", "image/png", |path: &str| {
        assert_eq!(path, "/t/blobs/ab/x.png");
        Some(vec![1, 2, 3, 255])
    });
    assert_eq!(url.unwrap(), "data:image/png;base64,AQID/w==");
    assert_eq!(
        store.read_data_url("ab/x.png", "image/png", |_: &str| None),
        Err(RepositoryError::BlobUnreadable)
    );
    assert_eq!(
        store.load("ab/x.png", |_: &str| Some(vec![0; 9])).err(),
        Some(RepositoryError::BlobUnreadable)
    );
}

#[test]
fn thumbnails_take_the_nearest_pixel() {
    let thumbnail = make_thumbnail(&payload(), ThumbnailSize { width: 1, height: 1 });
    assert_eq!((thumbnail.width, thumbnail.height), (1, 1));
    assert_eq!(thumbnail.rgba, vec![255, 0, 0, 255]);
}
