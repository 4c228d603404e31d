use kitsupin::domain::{ContentType, PayloadKind};
use kitsupin::migration::{
    migrate_pastily_to_kitsupin, DataMove, DirectoryFacts, FileStep, FormerFile, LegacyFacts,
    LegacyMigrationResult,
};
use kitsupin::persistence::legacy::{
    LegacyCategory, LegacyClip, LegacyDatabase, LegacyLink, StoredTime,
};
use kitsupin::persistence::rows::ClipRow;
use kitsupin::persistence::{Repository, RepositoryError};

const NOW: i64 = 1_800_000_000_000;

fn text_time(text: &str) -> StoredTime {
    StoredTime::Text { text: text.to_owned(), millis: None }
}

fn clip(id: &str, hash: &str, created: StoredTime, last: StoredTime) -> LegacyClip {
    LegacyClip {
        id: id.to_owned(),
        content: "hello world".to_owned(),
        content_hash: hash.to_owned(),
        content_type: ContentType::Text,
        domain: None,
        domain_key: String::new(),
        page_title: None,
        created_at: created,
        last_copied_at: last,
        copy_count: 1,
        pinned: false,
        sort_key: 0,
        payload_kind: PayloadKind::Text,
        blob_hash: None,
    }
}

fn database(versions: &[u32], clips: Vec<LegacyClip>) -> LegacyDatabase {
    LegacyDatabase {
        versions: versions.to_vec(),
        has_normalized: false,
        normalized_is_constrained: false,
        clips,
        categories: vec![],
        links: vec![],
        blobs: vec![],
    }
}

#[test]
fn migration6_handles_integer_second_timestamps() {
    let legacy = database(
        &[1, 2, 3, 4, 5],
        vec![clip(
            "id1",
            "aabbcc",
            StoredTime::Number(1_700_000_000),
            StoredTime::Number(1_700_000_000),
        )],
    );
    let repo = Repository::migrate(legacy, None, NOW).unwrap();
    assert_eq!(
        repo.clip_rows()[0].created_at,
        1_700_000_000_000,
        "timestamp should be converted to milliseconds"
    );
}

fn first_version() -> LegacyDatabase {
    let hash = "5eb63bbbe01eeed093cb22bb8f5acdc3";
    let mut first = clip(
        "id1",
        hash,
        text_time("2023-05-01T12:00:00Z"),
        text_time("2023-05-01T12:00:00Z"),
    );
    first.page_title = Some("Title 1".to_owned());
    first.copy_count = 5;
    first.pinned = true;
    first.sort_key = 10;
    let mut second = clip(
        "id2",
        hash,
        text_time("2023-05-02T12:00:00Z"),
        text_time("2023-05-02T14:00:00Z"),
    );
    second.page_title = Some("Title 2".to_owned());
    second.copy_count = 3;
    second.sort_key = 15;
    let mut legacy = database(&[1], vec![first, second]);
    legacy.has_normalized = true;
    legacy.normalized_is_constrained = true;
    legacy.categories.push(LegacyCategory {
        id: "cat1".to_owned(),
        name: "Work".to_owned(),
        normalized_name: "work".to_owned(),
        color: "#123456".to_owned(),
        created_at: text_time("2023-05-01T10:00:00Z"),
        sort_order: 0,
    });
    legacy.links.push(LegacyLink {
        clip_id: "id2".to_owned(),
        category_id: "cat1".to_owned(),
        created_at: text_time("2023-05-02T12:00:00Z"),
    });
    legacy
}

#[test]
fn full_legacy_pastily_v1_migration_preserves_categories_and_pins() {
    let migrated = first_version().run_migrations(NOW).unwrap();
    assert!(!migrated.has_normalized, "normalized_content column must be removed");
    assert!(!migrated.normalized_is_constrained);
    assert_eq!(migrated.versions, [1, 2, 3, 4, 5, 6, 7, 8, 9, 10]);

    let repo = Repository::migrate(first_version(), None, NOW).unwrap();

    let clips = repo.clip_rows();
    assert_eq!(clips.len(), 1, "Duplicate clips should be merged into 1 canonical clip");
    assert_eq!(clips[0].id, "id1");
    assert_eq!(clips[0].copy_count, 8, "copy_count should be summed (5 + 3 = 8)");
    assert!(clips[0].pinned, "pinned status should be preserved (max(1, 0) = 1)");
    assert!(
        clips[0].created_at > 1_600_000_000_000,
        "created_at TEXT must be converted to Unix ms"
    );
    assert!(
        clips[0].last_copied_at > 1_600_000_000_000,
        "last_copied_at TEXT must be converted to Unix ms"
    );
    assert_eq!(clips[0].created_at, 1_682_942_400_000);
    assert_eq!(clips[0].last_copied_at, 1_683_036_000_000);
    assert_eq!(clips[0].sort_key, 15);
    assert_eq!(clips[0].page_title.as_deref(), Some("Title 2"));

    let links = repo.link_rows();
    assert_eq!(links.len(), 1, "Category link must be preserved during migration");
    assert_eq!(links[0].clip_id, "id1", "Category link must point to canonical clip ID");
    assert_eq!(links[0].category_id, "cat1");
}

#[test]
fn first_of_duplicates_stays_without_normalized_content() {
    let mut second = clip("b", "h", StoredTime::Number(NOW), StoredTime::Number(NOW));
    second.pinned = true;
    let legacy = database(
        &[1],
        vec![clip("a", "h", StoredTime::Number(NOW), StoredTime::Number(NOW)), second],
    );
    let repo = Repository::migrate(legacy, None, NOW).unwrap();
    assert_eq!(repo.clip_rows().len(), 1);
    assert_eq!(repo.clip_rows()[0].id, "a");
    assert!(!repo.clip_rows()[0].pinned);
}

#[test]
fn unreadable_moments_become_the_present() {
    let legacy = database(
        &[1, 2, 3, 4],
        vec![clip("a", "h", text_time("yesterday"), text_time("now"))],
    );
    let repo = Repository::migrate(legacy, None, NOW).unwrap();
    assert_eq!(repo.clip_rows()[0].created_at, NOW);
    assert_eq!(repo.clip_rows()[0].last_copied_at, NOW);
}

#[test]
fn a_current_database_is_opened_as_it_is() {
    let legacy = database(
        &[1, 2, 3, 4, 5, 6, 7, 8, 9, 10],
        vec![clip("a", "h", StoredTime::Number(5), StoredTime::Number(7))],
    );
    let repo = Repository::migrate(legacy, None, NOW).unwrap();
    assert_eq!(repo.clip_rows()[0].created_at, 5);
    assert_eq!(repo.clip_rows()[0].last_copied_at, 7);
}

#[test]
fn broken_rules_are_refused() {
    let legacy = database(
        &[1, 2, 3, 4, 5, 6],
        vec![
            clip("a", "h", StoredTime::Number(NOW), StoredTime::Number(NOW)),
            clip("a", "g", StoredTime::Number(NOW), StoredTime::Number(NOW)),
        ],
    );
    assert_eq!(
        Repository::migrate(legacy, None, NOW).err(),
        Some(RepositoryError::ConstraintViolation)
    );
}

fn row(id: &str, hash: &str, last: i64, count: i64, pinned: bool) -> ClipRow {
    ClipRow {
        id: id.to_owned(),
        content: format!("content of {id}"),
        content_hash: hash.to_owned(),
        content_type: ContentType::Text,
        domain: None,
        domain_key: String::new(),
        page_title: None,
        created_at: last,
        last_copied_at: last,
        copy_count: count,
        pinned,
        sort_key: 0,
        payload_kind: PayloadKind::Text,
        blob_hash: None,
    }
}

#[test]
fn importing_merges_by_hash_and_domain() {
    let mut present =
        Repository::open(vec![row("own", "h", 200, 2, false)], vec![], vec![], vec![], None)
            .unwrap();
    let mut former = Repository::open(
        vec![row("old", "h", 100, 7, true), row("new", "g", 50, 1, false)],
        vec![],
        vec![],
        vec![],
        None,
    )
    .unwrap();
    let work = former.create_category("Work", "#123456", 1).unwrap();
    former.assign_category("old", &work.id, 1).unwrap();
    present.import_history(&former).unwrap();
    let rows = present.clip_rows();
    assert_eq!(rows.len(), 2);
    assert_eq!(rows[0].id, "own");
    assert!(rows[0].pinned);
    assert_eq!(rows[0].copy_count, 7);
    assert_eq!(rows[0].last_copied_at, 200);
    assert_eq!(rows[0].created_at, 100);
    assert_eq!(rows[0].content, "content of own");
    assert_eq!(rows[1].id, "new");
    assert_eq!(present.link_rows().len(), 1);
    assert_eq!(present.link_rows()[0].clip_id, "own");
}

#[test]
fn importing_is_refused_as_a_whole() {
    let mut present =
        Repository::open(vec![row("same", "h", 200, 2, false)], vec![], vec![], vec![], None)
            .unwrap();
    let former = Repository::open(
        vec![row("fine", "f", 1, 1, false), row("same", "g", 100, 7, true)],
        vec![],
        vec![],
        vec![],
        None,
    )
    .unwrap();
    assert_eq!(
        present.import_history(&former).err(),
        Some(RepositoryError::ConstraintViolation)
    );
    assert_eq!(present.clip_rows().len(), 1);
}

fn nothing() -> DirectoryFacts {
    DirectoryFacts {
        exists: false,
        former_database: false,
        former_wal: false,
        former_shm: false,
        database: false,
        wal: false,
        shm: false,
        socket: false,
        database_is_empty: false,
    }
}

fn nothing_found() -> LegacyFacts {
    LegacyFacts {
        locked: false,
        former: nothing(),
        present: nothing(),
        former_autostart: FormerFile::Missing,
        autostart: false,
        former_chrome_manifest: FormerFile::Missing,
        chrome_manifest: false,
        former_chromium_manifest: FormerFile::Missing,
        chromium_manifest: false,
    }
}

/// Tries each step; `fails` tells which of them fail.
fn moved(
    mut moving: DataMove,
    fails: impl Fn(&FileStep) -> bool,
) -> (LegacyMigrationResult, Vec<String>) {
    let mut steps = Vec::new();
    while let Some(step) = moving.pending() {
        steps.push(format!("{step:?}"));
        let failed = fails(step);
        moving.advance(failed);
    }
    (moving.result(), steps)
}

fn shown(steps: &[FileStep]) -> Vec<String> {
    steps.iter().map(|step| format!("{step:?}")).collect()
}

#[test]
fn test_migration_paths() {
    let (result, steps) = moved(
        migrate_pastily_to_kitsupin(
            Some("/home/u/.local/share"),
            Some("/home/u/.config"),
            &nothing_found(),
        ),
        |_| false,
    );
    assert_eq!(result, LegacyMigrationResult::NothingToDo);
    assert!(steps.is_empty());
    let (result, steps) = moved(migrate_pastily_to_kitsupin(None, None, &nothing_found()), |_| false);
    assert_eq!(result, LegacyMigrationResult::NothingToDo);
    assert!(steps.is_empty());
}

#[test]
fn former_directory_is_renamed_with_its_database() {
    let mut facts = nothing_found();
    facts.former = DirectoryFacts { exists: true, former_database: true, ..nothing() };
    let (result, steps) = moved(migrate_pastily_to_kitsupin(Some("/d"), None, &facts), |_| false);
    assert_eq!(result, LegacyMigrationResult::Renamed);
    assert_eq!(
        steps,
        shown(&[
            FileStep::Rename { from: "/d/pastily".to_owned(), to: "/d/kitsupin".to_owned() },
            FileStep::Rename {
                from: "/d/kitsupin/pastily.sqlite3".to_owned(),
                to: "/d/kitsupin/kitsupin.sqlite3".to_owned(),
            },
        ])
    );
}

#[test]
fn former_database_is_copied_replaces_an_empty_one_or_is_merged() {
    let from = "/d/pastily/pastily.sqlite3".to_owned();
    let to = "/d/kitsupin/kitsupin.sqlite3".to_owned();
    let aside = "/d/kitsupin/kitsupin.sqlite3.empty.bak".to_owned();
    let mut facts = nothing_found();
    facts.former = DirectoryFacts { exists: true, former_database: true, ..nothing() };
    facts.present = DirectoryFacts { exists: true, ..nothing() };
    let (result, steps) = moved(migrate_pastily_to_kitsupin(Some("/d"), None, &facts), |_| false);
    assert_eq!(result, LegacyMigrationResult::Copied);
    assert_eq!(
        steps,
        shown(&[
            FileStep::CopyDatabase { from: from.clone(), to: to.clone() },
            FileStep::Rename { from: from.clone(), to: "/d/pastily/pastily.sqlite3.bak".to_owned() },
        ])
    );

    facts.present = DirectoryFacts {
        exists: true,
        database: true,
        database_is_empty: true,
        ..nothing()
    };
    let (result, steps) = moved(migrate_pastily_to_kitsupin(Some("/d"), None, &facts), |_| false);
    assert_eq!(result, LegacyMigrationResult::ReplacedEmpty);
    assert_eq!(
        steps,
        shown(&[
            FileStep::Rename { from: to.clone(), to: aside.clone() },
            FileStep::CopyDatabase { from: from.clone(), to: to.clone() },
            FileStep::Remove(aside),
        ])
    );

    facts.present = DirectoryFacts { exists: true, database: true, ..nothing() };
    let (result, steps) = moved(migrate_pastily_to_kitsupin(Some("/d"), None, &facts), |_| false);
    assert_eq!(result, LegacyMigrationResult::Merged);
    assert_eq!(
        steps,
        shown(&[FileStep::MergeDatabase { from, into: to }])
    );

    facts.locked = true;
    let (result, steps) = moved(migrate_pastily_to_kitsupin(Some("/d"), None, &facts), |_| false);
    assert_eq!(result, LegacyMigrationResult::ConflictPreserved);
    assert!(steps.is_empty());
}

#[test]
fn entries_and_manifests_get_the_new_names() {
    let mut facts = nothing_found();
    facts.former_autostart = FormerFile::Readable("Name=Pastily\nExec=pastily\n".to_owned());
    facts.former_chrome_manifest =
        FormerFile::Readable("{\"name\":\"app.pastily.native\"}".to_owned());
    facts.former_chromium_manifest = FormerFile::Unreadable;
    let (_, steps) = moved(migrate_pastily_to_kitsupin(None, Some("/c"), &facts), |_| false);
    assert_eq!(
        steps,
        shown(&[
            FileStep::Write {
                path: "/c/autostart/kitsupin.desktop".to_owned(),
                contents: "Name=KitsuPin\nExec=kitsupin\n".to_owned(),
            },
            FileStep::Remove("/c/autostart/pastily.desktop".to_owned()),
            FileStep::Write {
                path: "/c/google-chrome/NativeMessagingHosts/io.github.mootxed.kitsupin.native.json"
                    .to_owned(),
                contents: "{\"name\":\"io.github.mootxed.kitsupin.native\"}".to_owned(),
            },
            FileStep::Remove(
                "/c/google-chrome/NativeMessagingHosts/app.pastily.native.json".to_owned()
            ),
            FileStep::Remove("/c/chromium/NativeMessagingHosts/app.pastily.native.json".to_owned()),
        ])
    );
}

#[test]
fn texts_denote_milliseconds_in_every_year() {
    let times = || vec![clip("a", "h", text_time("1985-10-26T09:00:00Z"), text_time("1970-01-02"))];
    for constrained in [false, true] {
        let mut legacy = database(&[1], times());
        legacy.has_normalized = true;
        legacy.normalized_is_constrained = constrained;
        let repo = Repository::migrate(legacy, None, NOW).unwrap();
        assert_eq!(repo.clip_rows()[0].created_at, 499_165_200_000);
        assert_eq!(repo.clip_rows()[0].last_copied_at, 86_400_000);
    }
}

#[test]
fn merged_clips_without_a_domain_have_none() {
    let mut legacy = database(
        &[1],
        vec![clip("a", "h", StoredTime::Number(NOW), StoredTime::Number(NOW))],
    );
    legacy.has_normalized = true;
    legacy.normalized_is_constrained = true;
    let repo = Repository::migrate(legacy, None, NOW).unwrap();
    assert_eq!(repo.clip_rows()[0].domain, None);
    assert_eq!(repo.clip_rows()[0].domain_key, "");
}

#[test]
fn texts_that_were_left_are_read_when_the_database_is_opened() {
    let category = |id: &str, name: &str, created_at: StoredTime| LegacyCategory {
        id: id.to_owned(),
        name: name.to_owned(),
        normalized_name: name.to_owned(),
        color: "#123456".to_owned(),
        created_at,
        sort_order: 0,
    };
    let mut legacy = database(&[1, 2, 3, 4, 5, 6, 7, 8, 9, 10], vec![]);
    legacy.categories = vec![
        category("a", "one", text_time("1682935200000")),
        category("b", "two", text_time("2023-05-01T10:00:00Z")),
        category("c", "three", text_time("soon")),
        category("d", "four", text_time("99999999999999999999")),
    ];
    let repo = Repository::migrate(legacy, None, NOW).unwrap();
    let times: Vec<i64> =
        repo.category_rows().iter().map(|row| row.category.created_at).collect();
    assert_eq!(times, [1_682_935_200_000, 1_682_935_200_000, NOW, NOW]);
}

#[test]
fn migrating_again_changes_nothing() {
    let once = first_version().run_migrations(NOW).unwrap();
    let rows: Vec<(String, i64)> =
        once.clips.iter().map(|clip| (clip.id.clone(), clip.copy_count)).collect();
    let twice = once.run_migrations(NOW + 1).unwrap();
    let again: Vec<(String, i64)> =
        twice.clips.iter().map(|clip| (clip.id.clone(), clip.copy_count)).collect();
    assert_eq!(rows, again);
    assert_eq!(twice.versions.len(), 10);
    assert!(matches!(twice.clips[0].created_at, StoredTime::Number(NOW)));
}

#[test]
fn moving_the_data_again_does_nothing() {
    let mut facts = nothing_found();
    facts.present =
        DirectoryFacts { exists: true, database: true, wal: true, shm: true, ..nothing() };
    let (result, steps) = moved(migrate_pastily_to_kitsupin(Some("/d"), None, &facts), |_| false);
    assert_eq!(result, LegacyMigrationResult::NothingToDo);
    assert!(steps.is_empty());
}

#[test]
fn a_failed_copy_is_undone() {
    let rename = |from: &str, to: &str| FileStep::Rename {
        from: from.to_owned(),
        to: to.to_owned(),
    };
    let copies = |step: &FileStep| matches!(step, FileStep::CopyDatabase { .. });
    let from = "/d/pastily/pastily.sqlite3";
    let to = "/d/kitsupin/kitsupin.sqlite3";
    let aside = "/d/kitsupin/kitsupin.sqlite3.empty.bak";
    let copy = FileStep::CopyDatabase { from: from.to_owned(), to: to.to_owned() };
    let mut facts = nothing_found();
    facts.former = DirectoryFacts { exists: true, former_database: true, ..nothing() };
    facts.former_autostart = FormerFile::Unreadable;
    facts.autostart = true;
    let entry = FileStep::Remove("/c/autostart/pastily.desktop".to_owned());

    facts.present =
        DirectoryFacts { exists: true, database: true, database_is_empty: true, ..nothing() };
    let (result, steps) =
        moved(migrate_pastily_to_kitsupin(Some("/d"), Some("/c"), &facts), copies);
    assert_eq!(result, LegacyMigrationResult::ConflictPreserved);
    let undone = rename(aside, to);
    assert_eq!(steps, shown(&[rename(to, aside), copy, undone, entry]));

    let (result, steps) = moved(migrate_pastily_to_kitsupin(Some("/d"), None, &facts), |step| {
        matches!(step, FileStep::Rename { .. })
    });
    assert_eq!(result, LegacyMigrationResult::ConflictPreserved);
    assert_eq!(steps, shown(&[rename(to, aside)]));

    facts.present = DirectoryFacts { exists: true, socket: true, ..nothing() };
    let (result, steps) = moved(migrate_pastily_to_kitsupin(Some("/d"), None, &facts), |_| true);
    assert_eq!(result, LegacyMigrationResult::ConflictPreserved);
    assert_eq!(steps.len(), 2);

    facts.present = nothing();
    let (result, steps) = moved(migrate_pastily_to_kitsupin(Some("/d"), None, &facts), |_| true);
    assert_eq!(result, LegacyMigrationResult::NothingToDo);
    assert_eq!(steps, shown(&[rename("/d/pastily", "/d/kitsupin")]));
}
