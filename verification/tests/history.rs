use kitsupin::blob_store::{BlobStore, PreparedImage, ThumbnailSize};
use kitsupin::browser_metadata::{BrowserCopyEvent, ClipUpsertReceipt};
use kitsupin::domain::{
    content_hash, normalize_content, CapturedImageSource, ClipQuery, ClipSummary, ContentType,
    ImageError, ImagePayload, NewClip, NewImageClip, PayloadKind,
};
use kitsupin::persistence::categories::{
    is_valid_hex_color, normalize_category_name, validate_color,
};
use kitsupin::persistence::rows::{BlobRow, CategoryRow, ClipRow};
use kitsupin::persistence::search::format_fts_query;
use kitsupin::persistence::{Repository, RepositoryError};

const ROOT: &str = "/data/blobs";

fn save(
    repo: &mut Repository,
    content: &str,
    domain: Option<&str>,
    now: i64,
) -> (ClipSummary, Option<ClipUpsertReceipt>) {
    repo.upsert_clip(NewClip { content, domain, page_title: None, now }).unwrap()
}

fn report(content: &str, domain: &str, title: &str) -> BrowserCopyEvent {
    let normal = normalize_content(content);
    BrowserCopyEvent {
        event_id: 7,
        version: 1,
        event: "copy".to_owned(),
        content_hash: content_hash(&normal),
        content_length: normal.len(),
        domain: domain.to_owned(),
        page_title: title.to_owned(),
        timestamp: "2023-11-14T22:13:20Z".to_owned(),
    }
}

fn row(id: &str, hash: &str, last: i64) -> ClipRow {
    ClipRow {
        id: id.to_owned(),
        content: format!("content of {id}"),
        content_hash: hash.to_owned(),
        content_type: ContentType::Text,
        domain: None,
        domain_key: String::new(),
        page_title: None,
        created_at: last,
        last_copied_at: last,
        copy_count: 1,
        pinned: false,
        sort_key: 0,
        payload_kind: PayloadKind::Text,
        blob_hash: None,
    }
}

fn with_rows(rows: Vec<ClipRow>) -> Repository {
    Repository::open(rows, vec![], vec![], vec![], None).unwrap()
}

fn image(width: u32, height: u32, bytes: usize) -> ImagePayload {
    ImagePayload {
        width,
        height,
        rgba: vec![9; bytes],
        source_mime: None,
        source_bytes: None,
        image_source: CapturedImageSource::ClipboardImage,
    }
}

fn save_image(
    repo: &mut Repository,
    image: &ImagePayload,
    max_image_bytes: u64,
    max_storage_bytes: u64,
    is_written: bool,
) -> Result<ClipSummary, RepositoryError> {
    repo.upsert_image(
        NewImageClip {
            image,
            domain: None,
            page_title: None,
            now: 1,
            max_image_bytes,
            max_storage_bytes,
        },
        ThumbnailSize { width: 1, height: 1 },
        |_: &PreparedImage| is_written,
    )
    .map(|(summary, _)| summary)
}

#[test]
fn copying_again_counts_one_clip() {
    let mut repo = Repository::open_in_memory();
    let first = save(&mut repo, "text\n", Some("Example.com"), 10).0;
    let again = save(&mut repo, "text\r\n", Some("example.com"), 20).0;
    assert_eq!(first.id, again.id);
    assert_eq!(again.copy_count, 2);
    assert_eq!(again.last_copied_at, 20);
    assert_eq!(repo.clip_rows().len(), 1);
    assert_eq!(repo.clip_rows()[0].created_at, 10);
    assert_eq!(repo.clip_rows()[0].sort_key, 1);
    assert_eq!(repo.clip_rows()[0].content, "text\r\n");
}

#[test]
fn saving_leaves_other_clips_alone() {
    let mut repo = with_rows(vec![row("a", "h", 5), row("b", "g", 6)]);
    save(&mut repo, "new", None, 50);
    assert_eq!(repo.clip_rows().len(), 3);
    assert_eq!(repo.clip_rows()[0].last_copied_at, 5);
    assert_eq!(repo.clip_rows()[1].copy_count, 1);
}

#[test]
fn titles_are_trimmed_and_cut() {
    let mut repo = Repository::open_in_memory();
    let long = format!("  {}  ", "я".repeat(600));
    let (clip, _) = repo
        .upsert_clip(NewClip { content: "x", domain: None, page_title: Some(&long), now: 1 })
        .unwrap();
    assert_eq!(clip.page_title, Some("я".repeat(500)));
    let (clip, _) = repo
        .upsert_clip(NewClip { content: "y", domain: None, page_title: Some("  "), now: 1 })
        .unwrap();
    assert_eq!(clip.page_title, None);
}

#[test]
fn texts_that_are_not_saved() {
    let mut repo = Repository::open_in_memory();
    let empty = repo.upsert_clip(NewClip { content: " \r\n", domain: None, page_title: None, now: 1 });
    assert_eq!(empty.err(), Some(RepositoryError::EmptyContent));
    let large = "x".repeat(1_000_001);
    let refused =
        repo.upsert_clip(NewClip { content: &large, domain: None, page_title: None, now: 1 });
    assert_eq!(refused.err(), Some(RepositoryError::ContentTooLarge));
    let fits = "x".repeat(1_000_000);
    assert!(repo
        .upsert_clip(NewClip { content: &fits, domain: None, page_title: None, now: 1 })
        .is_ok());
    assert_eq!(repo.clip_rows().len(), 1);
}

#[test]
fn full_counters_are_not_counted_further() {
    let mut full = row("a", &content_hash("text"), 5);
    full.copy_count = i64::MAX;
    let mut repo = with_rows(vec![full]);
    let refused = repo.upsert_clip(NewClip { content: "text", domain: None, page_title: None, now: 9 });
    assert_eq!(refused.err(), Some(RepositoryError::CounterOverflow));
    assert_eq!(repo.mark_clip_copied("a", 9), Err(RepositoryError::CounterOverflow));
    assert_eq!(repo.clip_rows()[0].last_copied_at, 5);
}

#[test]
fn report_takes_the_copy_to_its_domain() {
    let mut repo = Repository::open_in_memory();
    save(&mut repo, "text", Some("example.com"), 1);
    save(&mut repo, "text", None, 2);
    let (_, receipt) = save(&mut repo, "text", None, 3);
    let receipt = receipt.unwrap();
    let event = report("text", "example.com", "Title");
    let attached = repo.attach_metadata_with_receipt(&event, receipt.clone()).unwrap();
    let rows = repo.clip_rows();
    assert_eq!(rows.len(), 2);
    assert_eq!(attached, Some(rows[0].id.clone()));
    assert_eq!(rows[0].copy_count, 2);
    assert_eq!(rows[0].last_copied_at, 1_700_000_000_000);
    assert_eq!(rows[0].page_title, Some("Title".to_owned()));
    assert_eq!(rows[1].copy_count, 1);
    assert_eq!(rows[1].last_copied_at, 2);
    assert_eq!(rows[1].sort_key, 0);
    // A second time nothing changes.
    assert_eq!(repo.attach_metadata_with_receipt(&event, receipt).unwrap(), None);
    assert_eq!(repo.clip_rows()[0].copy_count, 2);
}

#[test]
fn receipt_is_stale_after_another_copy() {
    let mut repo = Repository::open_in_memory();
    let (_, receipt) = save(&mut repo, "text", None, 1);
    save(&mut repo, "text", None, 2);
    let event = report("text", "example.com", "");
    assert_eq!(repo.attach_metadata_with_receipt(&event, receipt.unwrap()).unwrap(), None);
    assert_eq!(repo.clip_rows()[0].copy_count, 2);
    assert_eq!(repo.clip_rows()[0].domain, None);
}

#[test]
fn receipt_with_an_impossible_count_is_refused() {
    let mut repo = Repository::open_in_memory();
    let (_, receipt) = save(&mut repo, "text", None, 1);
    let mut receipt = receipt.unwrap();
    receipt.previous_copy_count = -1;
    let event = report("text", "example.com", "");
    assert_eq!(
        repo.attach_metadata_with_receipt(&event, receipt).err(),
        Some(RepositoryError::ConstraintViolation)
    );
}

#[test]
fn pages_are_in_order_and_bounded() {
    let rows = (0..250).map(|n| row(&format!("id{n}"), &format!("h{n}"), n / 2)).collect();
    let repo = with_rows(rows);
    let ids = |limit: Option<u32>, offset: Option<u32>| -> Vec<String> {
        repo.list_clips(&ClipQuery { limit, offset, ..ClipQuery::default() })
            .unwrap()
            .into_iter()
            .map(|clip| clip.id)
            .collect()
    };
    assert_eq!(ids(None, None).len(), 100);
    assert_eq!(ids(Some(0), None), ["id248"]);
    assert_eq!(ids(Some(1_000), None).len(), 200);
    assert_eq!(ids(Some(3), Some(1)), ["id249", "id246", "id247"]);
    assert_eq!(ids(Some(3), Some(249)), ["id1"]);
    assert_eq!(ids(Some(3), Some(250)), Vec::<String>::new());
}

#[test]
fn filters_and_categories_are_asked_together() {
    let mut repo = Repository::open_in_memory();
    let link = save(&mut repo, "https://example.com/a", Some("example.com"), 1).0;
    let text = save(&mut repo, "plain words", Some("other.org"), 2).0;
    let work = repo.create_category("Работа", "#00ff7f", 3).unwrap();
    repo.assign_category(&text.id, &work.id, 4).unwrap();
    repo.assign_category(&text.id, &work.id, 5).unwrap();
    assert_eq!(repo.link_rows().len(), 1);
    let ids = |query: ClipQuery| -> Vec<String> {
        repo.list_clips(&query).unwrap().into_iter().map(|clip| clip.id).collect()
    };
    let links =
        ids(ClipQuery { content_type: Some(ContentType::Links), ..ClipQuery::default() });
    assert_eq!(links, [link.id.clone()]);
    let of_domain =
        ids(ClipQuery { domain: Some("other.org".to_owned()), ..ClipQuery::default() });
    assert_eq!(of_domain, [text.id.clone()]);
    let in_category =
        ids(ClipQuery { category_id: Some(work.id.clone()), ..ClipQuery::default() });
    assert_eq!(in_category, [text.id.clone()]);
    let by_name = ids(ClipQuery { search: Some(" РАБОТ ".to_owned()), ..ClipQuery::default() });
    assert_eq!(by_name, [text.id.clone()]);
    let by_domain = ids(ClipQuery { search: Some("example.c".to_owned()), ..ClipQuery::default() });
    assert_eq!(by_domain, [link.id]);
}

#[test]
fn what_the_index_finds_is_listed() {
    let repo = with_rows(vec![row("a", "h", 1), row("b", "g", 2), row("c", "f", 3)]);
    let query = ClipQuery { search: Some("sought".to_owned()), ..ClipQuery::default() };
    let found = repo.list_clips_with(&query, &vec![true, false, true]).unwrap();
    let ids: Vec<&str> = found.iter().map(|clip| clip.id.as_str()).collect();
    assert_eq!(ids, ["c", "a"]);
    assert!(repo.list_clips(&query).unwrap().is_empty());
}

#[test]
fn nul_characters_end_what_is_compared() {
    let mut repo = Repository::open_in_memory();
    save(&mut repo, "ab\u{0}cd", None, 1);
    save(&mut repo, "xab", None, 2);
    let found = |search: &str| -> usize {
        let query = ClipQuery { search: Some(search.to_owned()), ..ClipQuery::default() };
        repo.list_clips(&query).unwrap().len()
    };
    assert_eq!(found("ab"), 2);
    assert_eq!(found("c"), 0);
    assert_eq!(found("b\u{0}"), 2);
    assert_eq!(found("a\u{0}"), 0);
}

#[test]
fn search_expressions_quote_every_word() {
    assert_eq!(format_fts_query("foo bar-баз"), "\"foo\"* \"bar\"* \"баз\"*");
    assert_eq!(format_fts_query(" -- "), "");
}

#[test]
fn category_rules() {
    let mut repo = Repository::open_in_memory();
    assert_eq!(
        repo.create_category("  ", "#112233", 1).err(),
        Some(RepositoryError::InvalidCategoryName)
    );
    assert_eq!(
        repo.create_category(&"x".repeat(61), "#112233", 1).err(),
        Some(RepositoryError::InvalidCategoryName)
    );
    assert_eq!(repo.create_category("a", "red", 1).err(), Some(RepositoryError::InvalidColor));
    assert_eq!(validate_color("#12345g"), Err(RepositoryError::InvalidColor));
    assert!(is_valid_hex_color("#aBcDeF"));
    assert_eq!(
        normalize_category_name(" Дом "),
        Ok(("Дом".to_owned(), "дом".to_owned()))
    );
    let home = repo.create_category(" Дом ", "#112233", 1).unwrap();
    assert_eq!(home.name, "Дом");
    assert_eq!(home.sort_order, 0);
    assert_eq!(
        repo.create_category("ДОМ", "#112233", 1).err(),
        Some(RepositoryError::DuplicateCategory)
    );
    let work = repo.create_category("Work", "#445566", 2).unwrap();
    assert_eq!(
        repo.update_category(&work.id, "дом", "#445566").err(),
        Some(RepositoryError::DuplicateCategory)
    );
    repo.update_category(&work.id, "Office", "#000000").unwrap();
    let names: Vec<String> = repo.list_categories().into_iter().map(|c| c.name).collect();
    assert!(names.contains(&"Office".to_owned()));
    assert_eq!(
        repo.assign_category("nobody", &work.id, 3).err(),
        Some(RepositoryError::ConstraintViolation)
    );
}

#[test]
fn assigning_and_unassigning() {
    let mut repo = with_rows(vec![row("a", "h", 1)]);
    let work = repo.create_category("Work", "#445566", 2).unwrap();
    repo.assign_category("a", &work.id, 3).unwrap();
    assert_eq!(repo.link_rows().len(), 1);
    repo.unassign_category("a", &work.id);
    assert_eq!(repo.link_rows().len(), 0);
    repo.assign_category("a", &work.id, 3).unwrap();
    repo.delete_category(&work.id);
    assert_eq!(repo.link_rows().len(), 0);
    assert_eq!(repo.clip_rows().len(), 1);
}

#[test]
fn cleaning_up_takes_what_is_old_and_not_pinned() {
    let day = 86_400_000i64;
    let mut pinned = row("pinned", "p", 0);
    pinned.pinned = true;
    let mut repo =
        with_rows(vec![row("old", "o", 4 * day), pinned, row("edge", "e", 5 * day), row("new", "n", 9 * day)]);
    let swept = repo.cleanup(5, 10 * day).unwrap();
    assert_eq!(swept.removed, 1);
    let ids: Vec<&str> = repo.clip_rows().iter().map(|clip| clip.id.as_str()).collect();
    assert_eq!(ids, ["pinned", "edge", "new"]);
    assert_eq!(repo.cleanup(0, day).err(), Some(RepositoryError::InvalidRetention { days: 0 }));
    assert_eq!(
        repo.cleanup(3_651, day).err(),
        Some(RepositoryError::InvalidRetention { days: 3_651 })
    );
    assert_eq!(repo.clear_unpinned().removed, 2);
    assert_eq!(repo.clip_rows().len(), 1);
}

#[test]
fn unknown_clips() {
    let mut repo = Repository::open_in_memory();
    assert_eq!(repo.get_clip_content("x").err(), Some(RepositoryError::ClipNotFound));
    assert_eq!(repo.touch_clip("x", 1).err(), Some(RepositoryError::ClipNotFound));
    assert_eq!(repo.mark_clip_copied("x", 1), Err(RepositoryError::ClipNotFound));
    assert_eq!(repo.image_file("x").err(), Some(RepositoryError::ClipNotFound));
    assert!(repo.delete_clip("x").is_empty());
    repo.set_pinned("x", true);
    assert!(repo.clip_rows().is_empty());
}

#[test]
fn pins_are_set_and_taken_away() {
    let mut repo = with_rows(vec![row("a", "h", 1)]);
    repo.set_pinned("a", true);
    assert!(repo.clip_rows()[0].pinned);
    repo.set_pinned("a", false);
    assert!(!repo.clip_rows()[0].pinned);
}

#[test]
fn images_that_are_not_saved() {
    let mut repo = Repository::open_in_memory();
    let good = image(1, 1, 4);
    assert_eq!(
        save_image(&mut repo, &good, 1_000, 1_000, true).err(),
        Some(RepositoryError::BlobStoreUnavailable)
    );
    let mut repo = Repository::open_in_memory_with_blobs(ROOT);
    let problem = |repo: &mut Repository, image: &ImagePayload| {
        save_image(repo, image, 1_000_000, 1_000_000, true).err()
    };
    assert_eq!(
        problem(&mut repo, &image(0, 1, 0)),
        Some(RepositoryError::Image(ImageError::ZeroSize))
    );
    assert_eq!(
        problem(&mut repo, &image(32_769, 1, 4)),
        Some(RepositoryError::Image(ImageError::SidesTooLarge))
    );
    assert_eq!(
        problem(&mut repo, &image(1, 1, 3)),
        Some(RepositoryError::Image(ImageError::CorruptPixels))
    );
    assert_eq!(
        save_image(&mut repo, &good, 10, 1_000_000, true).err(),
        Some(RepositoryError::ImageFileTooLarge { limit_mb: 0 })
    );
    assert_eq!(
        save_image(&mut repo, &good, 1_000_000, 10, true).err(),
        Some(RepositoryError::StorageFull { limit_mb: 0 })
    );
    assert_eq!(
        save_image(&mut repo, &good, 1_000_000, 1_000_000, false).err(),
        Some(RepositoryError::BlobUnwritable)
    );
    assert!(repo.clip_rows().is_empty());
    assert!(repo.blob_rows().is_empty());
}

#[test]
fn images_are_not_text() {
    let mut repo = Repository::open_in_memory_with_blobs(ROOT);
    let clip = save_image(&mut repo, &image(1, 1, 4), 1_000_000, 1_000_000, true).unwrap();
    assert_eq!(repo.get_clip_content(&clip.id).err(), Some(RepositoryError::NotText));
    assert_eq!(
        repo.get_image_data_url(&clip.id, |_: &str| None).err(),
        Some(RepositoryError::BlobUnreadable)
    );
    let (relative, mime) = repo.image_file(&clip.id).unwrap();
    assert_eq!(mime, "image/png");
    assert_eq!(repo.image_file_path(&clip.id).unwrap(), format!("{ROOT}/{relative}"));
    let stats = repo.storage_stats().unwrap();
    assert_eq!(stats.image_count, 1);
    assert_eq!(stats.image_bytes, repo.blob_rows()[0].size_bytes);
    let orphans = repo.cleanup_orphan_blobs(&vec![relative.clone(), "aa/left.png".to_owned()]);
    assert_eq!(orphans, ["aa/left.png"]);
    assert_eq!(repo.delete_clip(&clip.id), [relative]);
}

fn blob(hash: &str, path: &str, size_bytes: u64) -> BlobRow {
    BlobRow {
        hash: hash.to_owned(),
        relative_path: path.to_owned(),
        mime_type: "image/png".to_owned(),
        width: 1,
        height: 1,
        size_bytes,
        thumbnail_data_url: String::new(),
        created_at: 1,
    }
}

#[test]
fn images_without_a_file_are_not_shown() {
    let mut broken = row("a", "h", 1);
    broken.payload_kind = PayloadKind::Image;
    let repo = with_rows(vec![broken]);
    assert_eq!(
        repo.list_clips(&ClipQuery::default()).err(),
        Some(RepositoryError::MissingBlob)
    );
}

#[test]
fn files_outside_the_store_are_not_touched() {
    let mut outside = row("a", "h", 1);
    outside.payload_kind = PayloadKind::Image;
    outside.blob_hash = Some("b".to_owned());
    let repo = Repository::open(
        vec![outside],
        vec![],
        vec![],
        vec![blob("b", "../secret.png", 1)],
        Some(BlobStore::new(ROOT)),
    )
    .unwrap();
    assert_eq!(repo.image_file_path("a").err(), Some(RepositoryError::UnsafePath));
    assert_eq!(
        repo.get_image_data_url("a", |_: &str| Some(vec![1])).err(),
        Some(RepositoryError::UnsafePath)
    );
}

#[test]
fn sizes_that_cannot_be_told() {
    let repo = Repository::open(
        vec![],
        vec![],
        vec![],
        vec![blob("a", "aa/a.png", i64::MAX as u64), blob("b", "bb/b.png", 1)],
        None,
    )
    .unwrap();
    assert_eq!(repo.storage_stats().err(), Some(RepositoryError::SizeOverflow));
}

#[test]
fn a_history_that_fits_is_taken_in_with_its_categories() {
    let mut repo = with_rows(vec![row("a", "h", 1)]);
    let own = repo.create_category("Work", "#112233", 1).unwrap();
    let mut other = with_rows(vec![row("b", "h", 2), row("c", "g", 3)]);
    let same = other.create_category(" WORK", "#445566", 1).unwrap();
    let new = other.create_category("Home", "#445566", 1).unwrap();
    other.assign_category("b", &same.id, 5).unwrap();
    other.assign_category("c", &new.id, 6).unwrap();
    repo.import_history(&other).unwrap();
    let names: Vec<&str> = repo
        .category_rows()
        .iter()
        .map(|row: &CategoryRow| row.category.name.as_str())
        .collect();
    assert_eq!(names, ["Work", "Home"]);
    let links: Vec<(&str, &str)> = repo
        .link_rows()
        .iter()
        .map(|link| (link.clip_id.as_str(), link.category_id.as_str()))
        .collect();
    assert_eq!(links, [("a", own.id.as_str()), ("c", new.id.as_str())]);
    assert_eq!(repo.clip_rows()[0].content, "content of b");
}

#[test]
fn messages_name_the_limits() {
    assert_eq!(
        RepositoryError::StorageFull { limit_mb: 512 }.message(),
        "хранилище изображений достигло лимита 512 МБ"
    );
    assert_eq!(
        RepositoryError::ImageFileTooLarge { limit_mb: 20 }.message(),
        "изображение превышает лимит 20 МБ"
    );
    assert_eq!(
        RepositoryError::InvalidRetention { days: 0 }.message(),
        "Недопустимый срок хранения: 0"
    );
    assert_eq!(RepositoryError::EmptyContent.message(), "пустой Clipboard не сохраняется");
}

#[test]
fn a_text_that_is_too_long_cannot_be_sought() {
    let mut repo = Repository::open_in_memory();
    let search = |length: usize| ClipQuery {
        search: Some("a".repeat(length)),
        ..ClipQuery::default()
    };
    assert!(repo.list_clips(&search(49_999)).unwrap().is_empty());
    save(&mut repo, "text", None, 1);
    assert!(repo.list_clips(&search(49_998)).unwrap().is_empty());
    assert_eq!(repo.list_clips(&search(49_999)).err(), Some(RepositoryError::SearchFailed));
    let escaped = ClipQuery { search: Some("%".repeat(25_000)), ..ClipQuery::default() };
    assert_eq!(repo.list_clips(&escaped).err(), Some(RepositoryError::SearchFailed));
    let elsewhere = ClipQuery { domain: Some("a.org".to_owned()), ..search(49_999) };
    assert!(repo.list_clips(&elsewhere).unwrap().is_empty());
    let found = repo.list_clips_with(&search(49_999), &vec![true]).unwrap();
    assert_eq!(found.len(), 1);
}

#[test]
fn a_report_takes_the_copy_back() {
    let mut repo = Repository::open_in_memory();
    let (first, _) = save(&mut repo, "text", None, 1_000);
    let before = repo.clip_rows()[0].content.clone();
    let (_, receipt) = save(&mut repo, " text ", None, 2_000);
    let event = report("text", "example.com", "");
    let id = repo.attach_metadata_with_receipt(&event, receipt.unwrap()).unwrap().unwrap();
    assert_ne!(id, first.id);
    assert_eq!(repo.clip_rows()[0].content, before);
    assert_eq!(repo.clip_rows()[0].copy_count, 1);
    assert_eq!(repo.clip_rows()[0].last_copied_at, 1_000);
    assert_eq!(repo.clip_rows()[0].sort_key, 0);
    assert_eq!(repo.get_clip_content(&id).unwrap(), " text ");
    assert_eq!(repo.clip_rows()[1].domain.as_deref(), Some("example.com"));
}

#[test]
fn identifiers_are_uuids() {
    let mut repo = Repository::open_in_memory();
    let (clip, receipt) = save(&mut repo, "text", None, 1);
    assert!(uuid::Uuid::parse_str(&clip.id).is_ok_and(|id| !id.is_nil()));
    assert_ne!(receipt.unwrap().receipt_id, 0);
}

#[test]
fn categories_are_listed_by_what_stands_before_a_nul() {
    let mut repo = Repository::open_in_memory();
    for name in ["a\u{0}bb", "B", "A\u{0}z", "ab", "a", "a\u{0}y"] {
        repo.create_category(name, "#123456", 1).unwrap();
    }
    let names: Vec<String> =
        repo.list_categories().into_iter().map(|category| category.name).collect();
    assert_eq!(names, ["a", "A\u{0}z", "a\u{0}y", "a\u{0}bb", "ab", "B"]);
}
