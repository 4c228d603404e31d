use kitsupin::domain::{
    classify, normalize_content, normalize_domain, CapturedImageSource, ClipboardEventOrigin,
    ClipboardPayload, ContentType, ImageError, ImagePayload, OwnCopyGuard,
};

#[test]
fn classifies_all_types() {
    assert_eq!(classify("mail@example.com"), ContentType::Email);
    assert_eq!(classify("https://example.com/a?q=1"), ContentType::Links);
    assert_eq!(classify(" -12.50 "), ContentType::Numbers);
    assert_eq!(classify("echo 42"), ContentType::Text);
    assert_eq!(classify("read example.com"), ContentType::Text);
}

#[test]
fn classifies_extended_url_schemes() {
    assert_eq!(classify("https://github.com/mootxed/KitsuPin"), ContentType::Links);
    assert_eq!(classify("chrome://extensions/?id=abc"), ContentType::Links);
    assert_eq!(classify("edge://extensions/"), ContentType::Links);
    assert_eq!(classify("about:blank"), ContentType::Links);
    assert_eq!(classify("file:///home/user/file.txt"), ContentType::Links);
    assert_eq!(classify("ftp://example.com/file"), ContentType::Links);

    assert_eq!(classify("example.com"), ContentType::Text);
    assert_eq!(classify("read example.com"), ContentType::Text);
    assert_eq!(classify("C:\\Users\\Test"), ContentType::Text);
    assert_eq!(classify("text: value"), ContentType::Text);
}

#[test]
fn normalizes_line_endings_and_outer_space() {
    assert_eq!(normalize_content("  a\r\nb  "), "a\nb");
}

#[test]
fn normalizes_domains_consistently() {
    assert_eq!(normalize_domain(" WWW.YouTube.COM. ").as_deref(), Some("youtube.com"));
    assert_eq!(normalize_domain("https://example.com"), None);
}

#[test]
fn suppresses_exactly_one_recent_matching_copy() {
    let mut guard = OwnCopyGuard::default();
    let token = guard.mark_pending("hello");
    guard.commit(token);
    assert!(!guard.should_suppress("other"));
    assert!(guard.should_suppress("hello"));
    assert!(!guard.should_suppress("hello"));
}

#[test]
fn suppresses_pending_mark_before_commit() {
    let mut guard = OwnCopyGuard::default();
    let _token = guard.mark_pending("hello");
    assert!(guard.should_suppress("hello"));
    assert!(!guard.should_suppress("hello"));
}

#[test]
fn cancel_removes_pending_mark() {
    let mut guard = OwnCopyGuard::default();
    let token = guard.mark_pending("hello");
    guard.cancel(token);
    assert!(!guard.should_suppress("hello"));
}

#[test]
fn suppresses_multiple_fast_consecutive_copies() {
    let mut guard = OwnCopyGuard::default();
    let token1 = guard.mark_pending("card1");
    let token2 = guard.mark_pending("card2");
    guard.commit(token1);
    guard.commit(token2);
    assert!(guard.should_suppress("card1"));
    assert!(guard.should_suppress("card2"));
    assert!(!guard.should_suppress("card1"));
    assert!(!guard.should_suppress("card2"));
}

#[test]
fn owner_mismatch_does_not_suppress_external_copy() {
    let mut guard = OwnCopyGuard::default();
    let token = guard.mark_pending_with_details(
        "same_content",
        ClipboardEventOrigin::KitsuPin,
        Some(1001),
    );
    guard.commit(token);
    assert!(!guard.should_suppress_with_owner("same_content", Some(2002)));
    assert!(guard.should_suppress_with_owner("same_content", Some(1001)));
}

#[test]
fn marks_are_forgotten_in_time() {
    let mut guard = OwnCopyGuard::default();
    guard.mark("hello");
    assert!(!guard.should_suppress_with_owner_at("hello", None, u128::from(u64::MAX)));
}

fn image(width: u32, height: u32, bytes: usize) -> ImagePayload {
    ImagePayload {
        width,
        height,
        rgba: vec![0; bytes],
        source_mime: None,
        source_bytes: None,
        image_source: CapturedImageSource::ClipboardImage,
    }
}

#[test]
fn images_are_checked() {
    assert_eq!(image(1, 1, 4).validate(), Ok(()));
    assert_eq!(image(0, 1, 0).validate(), Err(ImageError::ZeroSize));
    assert_eq!(image(32_769, 1, 4).validate(), Err(ImageError::SidesTooLarge));
    assert_eq!(image(1, 1, 5).validate(), Err(ImageError::CorruptPixels));
}

#[test]
fn fingerprints_tell_the_kind_and_the_content() {
    assert_eq!(
        ClipboardPayload::Text("abc".to_owned()).fingerprint(),
        "text:ba7816bf8f01cfea414140de5dae2223b00361a396177a9cb410ff61f20015ad"
    );
    assert_eq!(ClipboardPayload::Text(" \n".to_owned()).fingerprint(), "text:empty");
    assert!(ClipboardPayload::Image(image(1, 1, 4)).fingerprint().starts_with("image:"));
}
