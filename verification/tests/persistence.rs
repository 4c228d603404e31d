use kitsupin::blob_store::{BlobStore, PreparedImage, ThumbnailSize};
use kitsupin::browser_metadata::{BrowserCopyEvent, ClipUpsertReceipt, MetadataBuffer};
use kitsupin::clock::Moment;
use kitsupin::domain::{
    content_hash, normalize_content, CapturedImageSource, ClipQuery, ClipSummary,
    ClipboardPayload, ContentType, ImagePayload, NewClip, NewImageClip, PayloadKind,
};
use kitsupin::persistence::legacy::{
    LegacyCategory, LegacyClip, LegacyDatabase, LegacyLink, StoredTime,
};
use kitsupin::persistence::Repository;
use std::collections::HashMap;

/// Files by their absolute paths.
type Disk = HashMap<String, Vec<u8>>;

const ROOT: &str = "/data/blobs";

const SIZE: ThumbnailSize = ThumbnailSize { width: 2, height: 1 };

fn add(
    repo: &mut Repository,
    text: &str,
    domain: Option<&str>,
    title: Option<&str>,
    now: i64,
) -> ClipSummary {
    add_with_receipt(repo, text, domain, title, now).0
}

fn add_with_receipt(
    repo: &mut Repository,
    text: &str,
    domain: Option<&str>,
    title: Option<&str>,
    now: i64,
) -> (ClipSummary, Option<ClipUpsertReceipt>) {
    repo.upsert_clip(NewClip { content: text, domain, page_title: title, now }).unwrap()
}

fn image(red: u8) -> ImagePayload {
    ImagePayload {
        width: 2,
        height: 1,
        rgba: vec![red, 0, 0, 255, 0, 255, 0, 255],
        source_mime: None,
        source_bytes: None,
        image_source: CapturedImageSource::ClipboardImage,
    }
}

fn persist(disk: &mut Disk, prepared: &PreparedImage) -> bool {
    let path = BlobStore::new(ROOT).absolute_path(&prepared.relative_path).unwrap();
    disk.entry(path).or_insert_with(|| prepared.bytes.clone());
    true
}

fn remove(disk: &mut Disk, orphans: &[String]) {
    for relative in orphans {
        disk.remove(&BlobStore::new(ROOT).absolute_path(relative).unwrap());
    }
}

fn add_image(
    repo: &mut Repository,
    disk: &mut Disk,
    image: &ImagePayload,
    domain: Option<&str>,
    now: i64,
) -> ClipSummary {
    repo.upsert_image(
        NewImageClip {
            image,
            domain,
            page_title: Some("Image source"),
            now,
            max_image_bytes: 1024 * 1024,
            max_storage_bytes: 10 * 1024 * 1024,
        },
        SIZE,
        |prepared: &PreparedImage| persist(disk, prepared),
    )
    .unwrap()
    .0
}

fn searched(repo: &Repository, text: &str) -> Vec<ClipSummary> {
    repo.list_clips(&ClipQuery { search: Some(text.to_owned()), ..ClipQuery::default() }).unwrap()
}

fn all(repo: &Repository) -> Vec<ClipSummary> {
    repo.list_clips(&ClipQuery::default()).unwrap()
}

fn make_browser_event(
    hash: &str,
    length: usize,
    domain: &str,
    title: Option<&str>,
    timestamp_ms: i64,
) -> BrowserCopyEvent {
    let at = chrono::DateTime::from_timestamp_millis(timestamp_ms).unwrap();
    BrowserCopyEvent {
        event_id: uuid::Uuid::new_v4().as_u128(),
        version: 1,
        event: "copy".to_owned(),
        content_hash: hash.to_owned(),
        content_length: length,
        domain: domain.to_owned(),
        page_title: title.unwrap_or("").to_owned(),
        timestamp: at.to_rfc3339(),
    }
}

fn moment(at: chrono::DateTime<chrono::Utc>) -> Moment {
    Moment { secs: at.timestamp(), nanos: at.timestamp_subsec_nanos() }
}

#[test]
fn image_blobs_are_deduplicated_and_copy_back_as_rgba() {
    let mut disk = Disk::new();
    let mut repo = Repository::open_in_memory_with_blobs(ROOT);
    let payload = image(255);
    let first = add_image(&mut repo, &mut disk, &payload, None, 1_000);
    let second = add_image(&mut repo, &mut disk, &payload, None, 2_000);
    assert_eq!(first.id, second.id);
    assert_eq!(second.copy_count, 2);
    assert_eq!(second.payload_kind, PayloadKind::Image);
    assert_eq!(repo.storage_stats().unwrap().image_count, 1);
    let store = BlobStore::new(ROOT);
    let copy = repo
        .get_clip_for_copy(&first.id, |relative: &str| {
            store.load(relative, |path: &str| disk.get(path).cloned())
        })
        .unwrap();
    assert_eq!(copy.fingerprint, ClipboardPayload::Image(payload.clone()).fingerprint());
    match copy.payload {
        ClipboardPayload::Image(restored) => assert_eq!(restored.rgba, payload.rgba),
        ClipboardPayload::Text(_) => panic!("expected image payload"),
    }
}

#[test]
fn deleting_last_image_reference_removes_blob_file() {
    let mut disk = Disk::new();
    let mut repo = Repository::open_in_memory_with_blobs(ROOT);
    let payload = image(100);
    let first = add_image(&mut repo, &mut disk, &payload, Some("one.example"), 1_000);
    let second = add_image(&mut repo, &mut disk, &payload, Some("two.example"), 2_000);
    let path = repo.image_file_path(&first.id).unwrap();
    assert!(disk.contains_key(&path));
    let orphans = repo.delete_clip(&first.id);
    remove(&mut disk, &orphans);
    assert!(disk.contains_key(&path));
    let orphans = repo.delete_clip(&second.id);
    remove(&mut disk, &orphans);
    assert!(!disk.contains_key(&path));
    assert_eq!(repo.storage_stats().unwrap().image_count, 0);
}

#[test]
fn image_storage_limit_rejects_without_leaving_orphan() {
    let mut disk = Disk::new();
    let mut repo = Repository::open_in_memory_with_blobs(ROOT);
    let payload = image(75);
    let result = repo.upsert_image(
        NewImageClip {
            image: &payload,
            domain: None,
            page_title: None,
            now: 1_000,
            max_image_bytes: 1024 * 1024,
            max_storage_bytes: 1,
        },
        SIZE,
        |prepared: &PreparedImage| persist(&mut disk, prepared),
    );
    assert!(result.is_err());
    assert_eq!(repo.storage_stats().unwrap().image_count, 0);
    let files: Vec<String> = disk.keys().cloned().collect();
    assert_eq!(repo.cleanup_orphan_blobs(&files).len(), 0);
}

#[test]
fn clearing_images_preserves_pinned_image_and_blob() {
    let mut disk = Disk::new();
    let mut repo = Repository::open_in_memory_with_blobs(ROOT);
    let pinned = add_image(&mut repo, &mut disk, &image(20), None, 1_000);
    let unpinned = add_image(&mut repo, &mut disk, &image(40), None, 2_000);
    let pinned_path = repo.image_file_path(&pinned.id).unwrap();
    let unpinned_path = repo.image_file_path(&unpinned.id).unwrap();
    repo.set_pinned(&pinned.id, true);
    let swept = repo.clear_unpinned_images();
    assert_eq!(swept.removed, 1);
    remove(&mut disk, &swept.orphans);
    assert!(disk.contains_key(&pinned_path));
    assert!(!disk.contains_key(&unpinned_path));
    assert_eq!(repo.storage_stats().unwrap().image_count, 1);
}

#[test]
fn deduplicates_only_same_content_and_domain_and_updates_fields() {
    let mut r = Repository::open_in_memory();
    let a = add(&mut r, "hello", Some("github.com"), Some("A"), 1_700_000_000_000);
    let b = add(&mut r, "hello", Some("github.com"), Some("B"), 1_700_000_001_000);
    let c = add(&mut r, "hello", Some("youtube.com"), None, 1_700_000_002_000);
    let d = add(&mut r, "hello", None, None, 1_700_000_003_000);
    let e = add(&mut r, "hello", None, Some("No Domain Title"), 1_700_000_004_000);
    assert_eq!(a.id, b.id);
    assert_eq!(b.copy_count, 2);
    assert_eq!(b.page_title.as_deref(), Some("B"));
    assert_eq!(b.last_copied_at, 1_700_000_001_000);
    assert_ne!(b.id, c.id);
    assert_ne!(c.id, d.id);
    assert_eq!(d.id, e.id);
    assert_eq!(e.copy_count, 2);
}

#[test]
fn cleanup_preserves_pins() {
    let mut r = Repository::open_in_memory();
    let old = add(&mut r, "old", None, None, 1_000_000_000_000);
    let pin = add(&mut r, "pin", None, None, 1_000_000_000_000);
    r.set_pinned(&pin.id, true);
    let now_ms = 1_000_000_000_000 + 100 * 86_400_000;
    assert_eq!(r.cleanup(90, now_ms).unwrap().removed, 1);
    let left = all(&r);
    assert_eq!(left.len(), 1);
    assert_eq!(left[0].id, pin.id);
    assert_ne!(old.id, pin.id);
}

#[test]
fn categories_are_many_to_many_and_delete_cascades_only_links() {
    let mut r = Repository::open_in_memory();
    let clip = add(&mut r, "x", None, None, 1_700_000_000_000);
    let a = r.create_category("Japanese", "#ffd166", 1_700_000_000_000).unwrap();
    let b = r.create_category("Saved", "#70c1b3", 1_700_000_000_000).unwrap();
    r.assign_category(&clip.id, &a.id, 1_700_000_000_000).unwrap();
    r.assign_category(&clip.id, &b.id, 1_700_000_000_000).unwrap();
    r.assign_category(&clip.id, &a.id, 1_700_000_000_000).unwrap();
    assert_eq!(all(&r)[0].categories.len(), 2);
    r.delete_category(&a.id);
    assert_eq!(all(&r)[0].categories.len(), 1);
}

#[test]
fn migration_is_idempotent_and_searches_all_fields() {
    let mut r = Repository::open_in_memory();
    let c = add(
        &mut r,
        "Привет, Konnichiwa",
        Some("example.com"),
        Some("Study page"),
        1_700_000_000_000,
    );
    let cat = r.create_category("Японский", "#123abc", 1_700_000_000_000).unwrap();
    r.assign_category(&c.id, &cat.id, 1_700_000_000_000).unwrap();
    for q in ["ПРИВЕТ", "konn", "EXAMPLE", "study", "ЯПОНСКИЙ"] {
        assert_eq!(searched(&r, q).len(), 1, "query '{q}' should return 1 result");
    }
    assert!(r.create_category("яПОНСКИЙ", "#abcdef", 1_700_000_000_000).is_err());
    let migrated = Repository::migrate(stored(&r), None, 1_700_000_000_000).unwrap();
    assert_eq!(searched(&migrated, "konn").len(), 1);
}

/// What a database of the latest version holds of a history.
fn stored(repo: &Repository) -> LegacyDatabase {
    LegacyDatabase {
        versions: (1..=10).collect(),
        has_normalized: false,
        normalized_is_constrained: false,
        clips: repo
            .clip_rows()
            .iter()
            .cloned()
            .map(|row| LegacyClip {
                id: row.id,
                content: row.content,
                content_hash: row.content_hash,
                content_type: row.content_type,
                domain: row.domain,
                domain_key: row.domain_key,
                page_title: row.page_title,
                created_at: StoredTime::Number(row.created_at),
                last_copied_at: StoredTime::Number(row.last_copied_at),
                copy_count: row.copy_count,
                pinned: row.pinned,
                sort_key: row.sort_key,
                payload_kind: row.payload_kind,
                blob_hash: row.blob_hash,
            })
            .collect(),
        categories: repo
            .category_rows()
            .iter()
            .cloned()
            .map(|row| LegacyCategory {
                id: row.category.id,
                name: row.category.name,
                normalized_name: row.normalized_name,
                color: row.category.color,
                created_at: StoredTime::Number(row.category.created_at),
                sort_order: row.category.sort_order,
            })
            .collect(),
        links: repo
            .link_rows()
            .iter()
            .cloned()
            .map(|row| LegacyLink {
                clip_id: row.clip_id,
                category_id: row.category_id,
                created_at: StoredTime::Number(row.created_at),
            })
            .collect(),
        blobs: repo.blob_rows().to_vec(),
    }
}

#[test]
fn mark_clip_copied_updates_stats_without_returning_content() {
    let mut r = Repository::open_in_memory();
    let clip = add(&mut r, "Original Text", None, None, 1_700_000_000_000);
    r.mark_clip_copied(&clip.id, 1_700_000_100_000).unwrap();
    let updated = all(&r);
    assert_eq!(updated[0].last_copied_at, 1_700_000_100_000);
    assert_eq!(updated[0].copy_count, 2);
}

#[test]
fn touch_clip_updates_copied_stats_and_returns_stored_content() {
    let mut r = Repository::open_in_memory();
    let clip = add(&mut r, "Original Text", None, None, 1_700_000_000_000);
    let content = r.touch_clip(&clip.id, 1_700_000_100_000).unwrap();
    assert_eq!(content, "Original Text");
    let updated = all(&r);
    assert_eq!(updated[0].last_copied_at, 1_700_000_100_000);
    assert_eq!(updated[0].copy_count, 2);
}

#[test]
fn sort_key_acts_as_secondary_sort_criterion() {
    let mut r = Repository::open_in_memory();
    let t = 1_700_000_000_000;
    let first = add(&mut r, "first item", None, None, t);
    let _second = add(&mut r, "second item", None, None, t);
    r.touch_clip(&first.id, t).unwrap();
    let list = all(&r);
    assert_eq!(list[0].id, first.id);
}

#[test]
fn is_truncated_reflects_whether_preview_is_complete() {
    let mut r = Repository::open_in_memory();
    let short = add(&mut r, "short text", None, None, 1_700_000_000_000);
    let long_text = "x".repeat(400);
    let long = add(&mut r, &long_text, None, None, 1_700_000_001_000);
    let clips = all(&r);
    let short_s = clips.iter().find(|c| c.id == short.id).unwrap();
    let long_s = clips.iter().find(|c| c.id == long.id).unwrap();
    assert!(!short_s.is_truncated);
    assert!(long_s.is_truncated);
    assert_eq!(long_s.preview.chars().count(), 300);
    assert_eq!(long_s.content_length, 400);
}

#[test]
fn attach_metadata_reconciles_after_clipboard_save() {
    let mut r = Repository::open_in_memory();
    let now = 1_700_000_000_000i64;
    let text = "hello reconcile";
    let normalized = normalize_content(text);
    let hash = content_hash(&normalized);
    let byte_len = normalized.len();
    let (_clip, receipt) = add_with_receipt(&mut r, text, None, None, now);

    let event =
        make_browser_event(&hash, byte_len, "example.com", Some("Example Page"), now + 200);
    let result = r.attach_metadata_with_receipt(&event, receipt.unwrap()).unwrap();
    assert!(result.is_some());

    let clips = all(&r);
    assert_eq!(clips.len(), 1);
    assert_eq!(clips[0].domain.as_deref(), Some("example.com"));
    assert_eq!(clips[0].page_title.as_deref(), Some("Example Page"));
}

#[test]
fn attach_metadata_merges_with_existing_domain_clip() {
    let mut r = Repository::open_in_memory();
    let now = 1_700_000_000_000i64;
    let text = "merge test content";
    let normalized = normalize_content(text);
    let hash = content_hash(&normalized);
    let byte_len = normalized.len();

    let existing = add(&mut r, text, Some("example.com"), Some("Old Title"), now - 10_000);
    let (temp, receipt) = add_with_receipt(&mut r, text, None, None, now);

    let cat = r.create_category("Test", "#aabbcc", now).unwrap();
    r.assign_category(&temp.id, &cat.id, now).unwrap();

    let event = make_browser_event(&hash, byte_len, "example.com", Some("New Title"), now + 100);
    let result = r.attach_metadata_with_receipt(&event, receipt.unwrap()).unwrap();
    assert_eq!(result.as_deref(), Some(existing.id.as_str()));

    let clips = all(&r);
    assert_eq!(clips.len(), 1);
    assert_eq!(clips[0].id, existing.id);
    assert_eq!(clips[0].copy_count, 2);
    assert_eq!(clips[0].categories.len(), 1);
}

#[test]
fn attach_metadata_rejects_wrong_hash() {
    let mut r = Repository::open_in_memory();
    let now = 1_700_000_000_000i64;
    let text = "some content";
    let byte_len = normalize_content(text).len();
    let (_clip, receipt) = add_with_receipt(&mut r, text, None, None, now);

    let event = make_browser_event(&"a".repeat(64), byte_len, "example.com", None, now + 100);
    let result = r.attach_metadata_with_receipt(&event, receipt.unwrap()).unwrap();
    assert!(result.is_none());
}

#[test]
fn attach_metadata_rejects_wrong_length() {
    let mut r = Repository::open_in_memory();
    let now = 1_700_000_000_000i64;
    let text = "length mismatch test";
    let hash = content_hash(&normalize_content(text));
    let (_clip, receipt) = add_with_receipt(&mut r, text, None, None, now);

    let event = make_browser_event(&hash, 9999, "example.com", None, now + 100);
    let result = r.attach_metadata_with_receipt(&event, receipt.unwrap()).unwrap();
    assert!(result.is_none());
}

#[test]
fn test_scenario_a_metadata_before_clipboard() {
    let mut buffer = MetadataBuffer::default();
    let mut repo = Repository::open_in_memory();

    let text = "metadata before clipboard content";
    let norm = normalize_content(text);
    let hash = content_hash(&norm);
    let len = norm.len();
    let now = chrono::Utc::now();
    let now_ms = now.timestamp_millis();

    let event =
        make_browser_event(&hash, len, "chrome.example.com", Some("Chrome Title"), now_ms);
    buffer.push(event).unwrap();

    let receipt = buffer.take_matching_receipt(&hash, len, now_ms, 2000);
    assert!(receipt.is_none(), "No receipt should exist yet");

    let matched_event = buffer.take_match(&hash, len, moment(now)).unwrap();
    let (clip, _) = repo
        .upsert_clip(NewClip {
            content: text,
            domain: Some(&matched_event.domain),
            page_title: Some(&matched_event.page_title),
            now: now_ms,
        })
        .unwrap();

    assert_eq!(clip.domain.as_deref(), Some("chrome.example.com"));
    assert_eq!(clip.page_title.as_deref(), Some("Chrome Title"));
    assert!(buffer.take_match(&hash, len, moment(now)).is_none());
}

#[test]
fn test_scenario_b_metadata_after_clipboard() {
    let mut buffer = MetadataBuffer::default();
    let mut repo = Repository::open_in_memory();

    let text = "metadata after clipboard content";
    let norm = normalize_content(text);
    let hash = content_hash(&norm);
    let len = norm.len();
    let now_ms = chrono::Utc::now().timestamp_millis();

    let (_clip, receipt) = repo
        .upsert_clip(NewClip { content: text, domain: None, page_title: None, now: now_ms })
        .unwrap();

    let receipt = receipt.unwrap();
    let clip_id = receipt.clip_id.clone();
    buffer.push_receipt(&hash, len, receipt);

    let event =
        make_browser_event(&hash, len, "after.example.com", Some("After Title"), now_ms + 100);
    let matched_receipt = buffer.take_matching_receipt(&hash, len, now_ms + 100, 2000).unwrap();

    let attached_id = repo.attach_metadata_with_receipt(&event, matched_receipt).unwrap();
    assert_eq!(attached_id.as_deref(), Some(clip_id.as_str()));

    let clips = all(&repo);
    assert_eq!(clips.len(), 1);
    assert_eq!(clips[0].domain.as_deref(), Some("after.example.com"));
}

#[test]
fn test_scenario_c_terminal_then_chrome_same_text() {
    let mut buffer = MetadataBuffer::default();
    let mut repo = Repository::open_in_memory();

    let text = "terminal vs chrome content";
    let norm = normalize_content(text);
    let hash = content_hash(&norm);
    let len = norm.len();
    let t_terminal = 1_700_000_000_000i64;

    let (_clip_term, receipt_term) = repo
        .upsert_clip(NewClip { content: text, domain: None, page_title: None, now: t_terminal })
        .unwrap();
    buffer.push_receipt(&hash, len, receipt_term.unwrap());

    let t_chrome = t_terminal + 10_000;
    let receipt_match = buffer.take_matching_receipt(&hash, len, t_chrome, 2000);
    assert!(receipt_match.is_none(), "Old terminal receipt must not match distant Chrome event");

    assert_eq!(all(&repo)[0].domain, None);
}

#[test]
fn test_scenario_d_stale_receipt_rejected() {
    let mut repo = Repository::open_in_memory();
    let now = 1_700_000_000_000i64;
    let text = "stale receipt content";
    let norm = normalize_content(text);
    let hash = content_hash(&norm);
    let len = norm.len();

    let (_clip, receipt) = repo
        .upsert_clip(NewClip { content: text, domain: None, page_title: None, now })
        .unwrap();
    let stale_receipt = receipt.unwrap();

    let _ = repo.mark_clip_copied(&stale_receipt.clip_id, now + 5000);

    let event = make_browser_event(&hash, len, "example.com", None, now + 100);
    let res = repo.attach_metadata_with_receipt(&event, stale_receipt).unwrap();
    assert!(res.is_none(), "Stale receipt must be rejected if DB state changed");
}

#[test]
fn test_reconcile_crlf_and_whitespace() {
    let mut r = Repository::open_in_memory();
    let now = 1_700_000_000_000i64;

    let test_cases = ["  日本語\r\n  ", "  Привет\r\n", "\r\n  Emoji 🚀 Test \r\n"];

    for text in test_cases {
        let normalized = normalize_content(text);
        let hash = content_hash(&normalized);
        let byte_len = normalized.len();

        let (_clip, receipt) = add_with_receipt(&mut r, text, None, None, now);
        let event = make_browser_event(&hash, byte_len, "example.org", Some("Title"), now + 50);
        let res = r.attach_metadata_with_receipt(&event, receipt.unwrap()).unwrap();
        assert!(res.is_some(), "reconciliation should succeed for normalized text: {}", text);
    }
}

#[test]
fn test_copy_receipt_rollback() {
    let mut r = Repository::open_in_memory();
    let t_old = 1_700_000_000_000i64;

    let text = "multi copy clip";
    let normalized = normalize_content(text);
    let hash = content_hash(&normalized);

    for i in 0..5 {
        let _ = add_with_receipt(&mut r, text, None, None, t_old + i * 1000);
    }

    let t_new = 1_700_000_100_000i64;
    let (_, receipt) = add_with_receipt(&mut r, text, None, None, t_new);

    let event =
        make_browser_event(&hash, normalized.len(), "github.com", Some("GitHub Page"), t_new);
    let canon = r.attach_metadata_with_receipt(&event, receipt.unwrap()).unwrap();
    assert!(canon.is_some());

    let clips = all(&r);
    assert_eq!(clips.len(), 2);

    let github_clip = clips.iter().find(|c| c.domain.as_deref() == Some("github.com")).unwrap();
    let domainless_clip = clips.iter().find(|c| c.domain.is_none()).unwrap();

    assert_eq!(github_clip.copy_count, 1);
    assert_eq!(github_clip.last_copied_at, t_new);

    assert_eq!(domainless_clip.copy_count, 5);
    assert_eq!(domainless_clip.last_copied_at, t_old + 4000);
}

#[test]
fn test_short_search_query() {
    let mut r = Repository::open_in_memory();
    let now = 1_700_000_000_000i64;
    add(&mut r, "Learning JS today", None, None, now);
    add(&mut r, "The 猫 is soft", None, None, now + 100);
    add(&mut r, "Building AI agent", None, None, now + 200);

    for q in ["JS", "猫", "AI", "日本"] {
        let res = searched(&r, q);
        if q == "日本" {
            assert_eq!(res.len(), 0);
        } else {
            assert_eq!(res.len(), 1, "Short query '{}' should match 1 clip", q);
        }
    }
}

#[test]
fn fts_search_cyrillic_and_japanese() {
    let mut r = Repository::open_in_memory();
    add(
        &mut r,
        "Привет мир на русском языке",
        None,
        Some("Русская страница"),
        1_700_000_000_000,
    );
    add(&mut r, "日本語のテキスト", None, Some("Japanese content"), 1_700_000_001_000);
    add(&mut r, "unrelated english text", None, None, 1_700_000_002_000);

    assert_eq!(searched(&r, "Привет").len(), 1, "Cyrillic search should find Russian clip");
    assert_eq!(
        searched(&r, "日本語").len(),
        1,
        "Japanese search by content should find Japanese clip"
    );
    assert_eq!(searched(&r, "english").len(), 1, "English search should find English clip");
}

#[test]
fn fts_search_special_chars_do_not_crash() {
    let mut r = Repository::open_in_memory();
    add(&mut r, "test content", None, None, 1_700_000_000_000);
    for q in ["%", "_", "\"", "'", "AND", "OR", "NOT", "NEAR", ".", "---"] {
        let _ = searched(&r, q);
    }
}

#[test]
fn fts_trigger_not_fired_on_copy_count_update() {
    let mut r = Repository::open_in_memory();
    let clip = add(&mut r, "trigger test", None, None, 1_700_000_000_000);
    let found_before = searched(&r, "trigger").len();
    r.mark_clip_copied(&clip.id, 1_700_000_100_000).unwrap();
    let found_after = searched(&r, "trigger").len();
    assert_eq!(
        found_before, found_after,
        "FTS should not be updated on copy_count change"
    );
}

#[test]
fn search_escapes_backslashes_properly() {
    let mut r = Repository::open_in_memory();
    let clip1 = add(&mut r, "path\\to\\file", Some("example.com"), None, 1_700_000_000_000);
    let clip2 = add(&mut r, "unrelated content", Some("example.com"), None, 1_700_000_001_000);

    let res = searched(&r, "path\\to");

    assert_eq!(res.len(), 1);
    assert_eq!(res[0].id, clip1.id);
    assert_ne!(res[0].id, clip2.id);
}

#[test]
fn test_exact_content_preservation_on_receipt_reconciliation() {
    let mut r = Repository::open_in_memory();
    let now = 1_700_000_000_000;

    let (c1, r1) = add_with_receipt(&mut r, "foo", None, None, now);
    assert_eq!(r1.unwrap().previous_copy_count, 0);

    let (c2, r2) = add_with_receipt(&mut r, "foo ", None, None, now + 1000);
    let receipt2 = r2.unwrap();
    assert_eq!(c1.id, c2.id);
    assert_eq!(receipt2.previous_copy_count, 1);
    assert_eq!(receipt2.previous_content.as_deref(), Some("foo"));

    assert_eq!(r.get_clip_content(&c1.id).unwrap(), "foo ");

    let event = make_browser_event(
        &receipt2.content_hash,
        normalize_content("foo ").len(),
        "example.com",
        Some("Foo Page"),
        now + 1000,
    );
    let domain_id = r.attach_metadata_with_receipt(&event, receipt2).unwrap().unwrap();

    assert_eq!(r.get_clip_content(&domain_id).unwrap(), "foo ");
    assert_eq!(r.get_clip_content(&c1.id).unwrap(), "foo");
}

#[test]
fn test_image_clip_late_reconciliation_via_receipt() {
    let mut disk = Disk::new();
    let mut r = Repository::open_in_memory_with_blobs(ROOT);
    let now = 1_700_000_000_000;
    let picture = ImagePayload {
        width: 2,
        height: 1,
        rgba: vec![255, 0, 0, 255, 0, 255, 0, 255],
        source_mime: Some("image/png".to_owned()),
        source_bytes: None,
        image_source: CapturedImageSource::ClipboardImage,
    };
    let (hash, len) = ClipboardPayload::Image(picture.clone()).match_key().unwrap();

    let (summary, receipt_opt) = r
        .upsert_image(
            NewImageClip {
                image: &picture,
                domain: None,
                page_title: None,
                now,
                max_image_bytes: 10 * 1024 * 1024,
                max_storage_bytes: 50 * 1024 * 1024,
            },
            SIZE,
            |prepared: &PreparedImage| persist(&mut disk, prepared),
        )
        .unwrap();

    assert_eq!(summary.domain, None);
    assert_eq!(summary.payload_kind, PayloadKind::Image);
    let receipt = receipt_opt.expect("missing domain image upsert generates a receipt");
    assert_eq!(receipt.normalized_length_bytes, len);

    let event = make_browser_event(&hash, len, "chrome.org", Some("Chrome Image"), now);
    let attached_id = r
        .attach_metadata_with_receipt(&event, receipt)
        .unwrap()
        .expect("metadata successfully attached");

    let updated = all(&r).into_iter().find(|c| c.id == attached_id).unwrap();
    assert_eq!(updated.domain.as_deref(), Some("chrome.org"));
    assert_eq!(updated.page_title.as_deref(), Some("Chrome Image"));
    assert_eq!(updated.payload_kind, PayloadKind::Image);
}

#[test]
fn test_text_filter_excludes_image_clips() {
    let mut disk = Disk::new();
    let mut r = Repository::open_in_memory_with_blobs(ROOT);
    let now = 1_700_000_000_000;

    add(&mut r, "Hello World", None, None, now);

    let picture = ImagePayload {
        width: 2,
        height: 1,
        rgba: vec![255, 0, 0, 255, 0, 255, 0, 255],
        source_mime: Some("image/png".to_owned()),
        source_bytes: None,
        image_source: CapturedImageSource::ClipboardImage,
    };
    r.upsert_image(
        NewImageClip {
            image: &picture,
            domain: None,
            page_title: None,
            now: now + 100,
            max_image_bytes: 10 * 1024 * 1024,
            max_storage_bytes: 50 * 1024 * 1024,
        },
        SIZE,
        |prepared: &PreparedImage| persist(&mut disk, prepared),
    )
    .unwrap();

    let text_filtered = r
        .list_clips(&ClipQuery {
            content_type: Some(ContentType::Text),
            payload_kind: None,
            ..ClipQuery::default()
        })
        .unwrap();
    assert_eq!(text_filtered.len(), 1);
    assert_eq!(text_filtered[0].payload_kind, PayloadKind::Text);
    assert_eq!(text_filtered[0].preview, "Hello World");

    let image_filtered = r
        .list_clips(&ClipQuery { payload_kind: Some(PayloadKind::Image), ..ClipQuery::default() })
        .unwrap();
    assert_eq!(image_filtered.len(), 1);
    assert_eq!(image_filtered[0].payload_kind, PayloadKind::Image);
}
