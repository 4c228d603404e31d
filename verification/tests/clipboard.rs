use kitsupin::blob_store::{PreparedImage, ThumbnailSize};
use kitsupin::browser_metadata::{BrowserCopyEvent, MetadataBuffer};
use kitsupin::capabilities::{
    get_platform_capabilities_with_env, get_runtime_capabilities, platform_capabilities,
    update_clipboard_monitoring_status, update_shortcut_status, update_tray_status,
    CapabilityStatus,
};
use kitsupin::clipboard::backend::{select_backend, ClipboardBackend};
use kitsupin::clipboard::backends::polling::PollingClipboardMonitor;
use kitsupin::clipboard::backends::{select_monitor, ClipboardMonitor, MonitorMode};
use kitsupin::clipboard::capture::{
    capture_image, capture_text, owner_changed, take_image_report, ClipboardWatcher,
    StorageLimits, Wakeup, WatchStep, WatchWait,
};
use kitsupin::clipboard::pass::{read_retry, request_retry, Look, PassAction};
use kitsupin::clipboard::reader::{CopiedFile, FileInfo, RawImage};
use kitsupin::clipboard::session::{detect_session_type_with_env, SessionType};
use kitsupin::clipboard::{
    decode_image_file, evaluate_republish, payload_fingerprint, read_payload_with_reader,
    set_clipboard, set_clipboard_payload, start, ClipboardGeneration, ClipboardNotification,
    ClipboardReader, RepublishDecision,
};
use kitsupin::clock::Moment;
use kitsupin::domain::{
    content_hash, normalize_content, CapturedImageSource, ClipQuery, ClipboardPayload,
    ImagePayload, OwnCopyGuard,
};
use kitsupin::persistence::{Repository, RepositoryError};
use std::collections::HashMap;
use std::io::Cursor;

fn mock_env(map: &[(&str, &str)]) -> impl Fn(&str) -> Option<String> {
    let env_map: HashMap<String, String> =
        map.iter().map(|(k, v)| (k.to_string(), v.to_string())).collect();
    move |key: &str| env_map.get(key).cloned()
}

#[test]
fn republish_decision_image_a_unchanged_generation() {
    assert_eq!(
        evaluate_republish(
            10,
            10,
            Some(CapturedImageSource::ClipboardImage),
            false,
            false
        ),
        RepublishDecision::Republish
    );
}

#[test]
fn republish_decision_image_a_then_text_b_skips() {
    assert_eq!(
        evaluate_republish(
            10,
            11,
            Some(CapturedImageSource::ClipboardImage),
            false,
            false
        ),
        RepublishDecision::SkipNewerClipboard
    );
}

#[test]
fn republish_decision_image_a_then_image_c_skips() {
    assert_eq!(
        evaluate_republish(
            10,
            12,
            Some(CapturedImageSource::ClipboardImage),
            false,
            false
        ),
        RepublishDecision::SkipNewerClipboard
    );
}

#[test]
fn republish_decision_own_event_suppressed() {
    assert_eq!(
        evaluate_republish(
            10,
            10,
            Some(CapturedImageSource::ClipboardImage),
            true,
            false
        ),
        RepublishDecision::SkipOwnEvent
    );
}

#[test]
fn republish_decision_copied_image_file_skips() {
    assert_eq!(
        evaluate_republish(
            10,
            10,
            Some(CapturedImageSource::CopiedImageFile),
            false,
            false
        ),
        RepublishDecision::SkipFilePayload
    );
}

#[test]
fn republish_decision_owner_changed_during_read_skips() {
    assert_eq!(
        evaluate_republish(
            10,
            10,
            Some(CapturedImageSource::ClipboardImage),
            false,
            true
        ),
        RepublishDecision::SkipNewerClipboard
    );
}

#[test]
fn republish_decision_owner_read_failure_safe() {
    assert_eq!(
        evaluate_republish(
            10,
            11,
            Some(CapturedImageSource::ClipboardImage),
            false,
            false
        ),
        RepublishDecision::SkipNewerClipboard
    );
}

#[test]
fn republish_decision_generation_wrapping_overflow() {
    let gen1 = u64::MAX;
    let gen2 = u64::MAX.wrapping_add(1);
    assert_eq!(
        evaluate_republish(
            gen1,
            gen2,
            Some(CapturedImageSource::ClipboardImage),
            false,
            false
        ),
        RepublishDecision::SkipNewerClipboard
    );
}

#[test]
fn detects_wayland_from_xdg_session_type() {
    let env = mock_env(&[("XDG_SESSION_TYPE", "wayland")]);
    assert_eq!(detect_session_type_with_env(env), SessionType::Wayland);
}

#[test]
fn detects_x11_from_xdg_session_type() {
    let env = mock_env(&[("XDG_SESSION_TYPE", "x11")]);
    assert_eq!(detect_session_type_with_env(env), SessionType::X11);
}

#[test]
fn detects_wayland_from_wayland_display_fallback() {
    let env = mock_env(&[("WAYLAND_DISPLAY", "wayland-0")]);
    assert_eq!(detect_session_type_with_env(env), SessionType::Wayland);
}

#[test]
fn detects_x11_from_display_fallback() {
    let env = mock_env(&[("DISPLAY", ":0")]);
    assert_eq!(detect_session_type_with_env(env), SessionType::X11);
}

#[test]
fn prefers_xdg_session_type_over_display() {
    let env = mock_env(&[("XDG_SESSION_TYPE", "wayland"), ("DISPLAY", ":0")]);
    assert_eq!(detect_session_type_with_env(env), SessionType::Wayland);
}

#[test]
fn returns_unknown_when_no_env_vars() {
    let env = mock_env(&[]);
    assert_eq!(detect_session_type_with_env(env), SessionType::Unknown);
}

#[derive(Default)]
struct MockClipboardReader {
    file_list: Option<Vec<String>>,
    files: HashMap<String, Vec<u8>>,
    directories: Vec<String>,
    image: Option<(usize, usize, Vec<u8>)>,
    text: Option<String>,
    owner: Option<u32>,
}

fn copied(path: &str) -> CopiedFile {
    CopiedFile {
        path: path.to_owned(),
        extension: std::path::Path::new(path)
            .extension()
            .map(|extension| extension.to_string_lossy().into_owned()),
    }
}

impl ClipboardReader for MockClipboardReader {
    fn file_list(&self) -> Option<Vec<CopiedFile>> {
        self.file_list.as_ref().map(|paths| paths.iter().map(|path| copied(path)).collect())
    }

    fn file_info(&self, path: &str) -> Option<FileInfo> {
        if self.directories.iter().any(|directory| directory == path) {
            return Some(FileInfo { is_file: false, len: 4096 });
        }
        self.files.get(path).map(|bytes| FileInfo { is_file: true, len: bytes.len() as u64 })
    }

    fn read_file(&self, path: &str) -> Option<Vec<u8>> {
        self.files.get(path).cloned()
    }

    fn get_image(&self) -> Option<RawImage> {
        self.image.as_ref().map(|(width, height, bytes)| RawImage {
            width: *width,
            height: *height,
            bytes: bytes.clone(),
        })
    }

    fn get_text(&self) -> Option<String> {
        self.text.clone()
    }

    fn get_selection_owner(&self) -> Option<u32> {
        self.owner
    }
}

fn encoded(width: u32, height: u32, pixel: [u8; 3], format: image::ImageFormat) -> Vec<u8> {
    let picture = image::DynamicImage::ImageRgb8(image::RgbImage::from_pixel(
        width,
        height,
        image::Rgb(pixel),
    ));
    let mut bytes = Cursor::new(Vec::new());
    picture.write_to(&mut bytes, format).unwrap();
    bytes.into_inner()
}

#[test]
fn file_list_plus_png_selects_copied_image_file() {
    let path = "/t/sample.png";
    let mock = MockClipboardReader {
        file_list: Some(vec![path.to_owned()]),
        files: HashMap::from([(
            path.to_owned(),
            encoded(2, 1, [200, 10, 20], image::ImageFormat::Png),
        )]),
        image: Some((2, 1, vec![200, 10, 20, 255, 200, 10, 20, 255])),
        text: Some("file:///path/to/sample.png".to_owned()),
        owner: Some(101),
        ..MockClipboardReader::default()
    };
    assert_eq!(mock.get_selection_owner(), Some(101));

    match read_payload_with_reader(&mock, 1024 * 1024).unwrap() {
        ClipboardPayload::Image(img) => {
            assert_eq!(img.image_source, CapturedImageSource::CopiedImageFile);
            assert_eq!(img.rgba, vec![200, 10, 20, 255, 200, 10, 20, 255]);
        }
        _ => panic!("Expected CopiedImageFile payload"),
    }
}

#[test]
fn only_image_png_selects_clipboard_image() {
    let mock = MockClipboardReader {
        image: Some((2, 1, vec![255, 0, 0, 255, 0, 255, 0, 255])),
        owner: Some(102),
        ..MockClipboardReader::default()
    };

    match read_payload_with_reader(&mock, 1024 * 1024).unwrap() {
        ClipboardPayload::Image(img) => {
            assert_eq!(img.image_source, CapturedImageSource::ClipboardImage);
        }
        _ => panic!("Expected ClipboardImage payload"),
    }
}

#[test]
fn one_jpeg_and_webp_files_selected_as_copied_image_file() {
    for (ext, format) in [("jpg", image::ImageFormat::Jpeg), ("webp", image::ImageFormat::WebP)] {
        let path = format!("/t/test.{ext}");
        let mock = MockClipboardReader {
            file_list: Some(vec![path.clone()]),
            files: HashMap::from([(path, encoded(2, 1, [10, 200, 50], format))]),
            owner: Some(103),
            ..MockClipboardReader::default()
        };

        match read_payload_with_reader(&mock, 1024 * 1024).unwrap() {
            ClipboardPayload::Image(img) => {
                assert_eq!(img.image_source, CapturedImageSource::CopiedImageFile);
            }
            _ => panic!("Expected CopiedImageFile for {ext}"),
        }
    }
}

#[test]
fn svg_file_not_decoded_as_image() {
    let path = "/t/sample.svg";
    let mock = MockClipboardReader {
        file_list: Some(vec![path.to_owned()]),
        files: HashMap::from([(
            path.to_owned(),
            b"<svg xmlns='http://www.w3.org/2000/svg'></svg>".to_vec(),
        )]),
        image: Some((10, 10, vec![0; 400])),
        text: Some(format!("file://{path}")),
        owner: Some(104),
        ..MockClipboardReader::default()
    };

    match read_payload_with_reader(&mock, 1024 * 1024).unwrap() {
        ClipboardPayload::Text(text) => assert!(text.contains("sample.svg")),
        _ => panic!("SVG file should not be decoded as image payload"),
    }
}

#[test]
fn multiple_files_not_converted_to_image() {
    let png = encoded(1, 1, [0, 0, 0], image::ImageFormat::Png);
    let mock = MockClipboardReader {
        file_list: Some(vec!["/t/1.png".to_owned(), "/t/2.png".to_owned()]),
        files: HashMap::from([
            ("/t/1.png".to_owned(), png.clone()),
            ("/t/2.png".to_owned(), png),
        ]),
        image: Some((1, 1, vec![0, 0, 0, 255])),
        text: Some("file:///1.png\nfile:///2.png".to_owned()),
        owner: Some(105),
        ..MockClipboardReader::default()
    };

    match read_payload_with_reader(&mock, 1024 * 1024).unwrap() {
        ClipboardPayload::Text(text) => assert!(text.contains("1.png")),
        _ => panic!("Multiple files should not be converted to single image"),
    }
}

#[test]
fn directory_not_decoded_as_image() {
    let path = "/t/dir.png";
    let mock = MockClipboardReader {
        file_list: Some(vec![path.to_owned()]),
        directories: vec![path.to_owned()],
        text: Some(format!("file://{path}")),
        owner: Some(106),
        ..MockClipboardReader::default()
    };

    match read_payload_with_reader(&mock, 1024 * 1024).unwrap() {
        ClipboardPayload::Text(_) => {}
        _ => panic!("Directory with .png extension must not be decoded as image"),
    }
}

#[test]
fn corrupted_image_file_does_not_replace_active_clipboard() {
    let path = "/t/corrupt.png";
    let mock = MockClipboardReader {
        file_list: Some(vec![path.to_owned()]),
        files: HashMap::from([(path.to_owned(), b"not a png image data".to_vec())]),
        image: Some((5, 5, vec![0; 100])),
        owner: Some(107),
        ..MockClipboardReader::default()
    };

    assert!(read_payload_with_reader(&mock, 1024 * 1024).is_none());
}

#[test]
fn file_above_size_limit_not_read() {
    let path = "/t/big.png";
    let mock = MockClipboardReader {
        file_list: Some(vec![path.to_owned()]),
        files: HashMap::from([(
            path.to_owned(),
            encoded(10, 10, [0, 0, 0], image::ImageFormat::Png),
        )]),
        owner: Some(108),
        ..MockClipboardReader::default()
    };

    assert!(read_payload_with_reader(&mock, 10).is_none());
}

#[test]
fn decodes_png_jpeg_and_webp_files_but_not_svg() {
    for (extension, format, mime) in [
        ("png", image::ImageFormat::Png, "image/png"),
        ("jpg", image::ImageFormat::Jpeg, "image/jpeg"),
        ("webp", image::ImageFormat::WebP, "image/webp"),
    ] {
        let path = format!("/t/sample.{extension}");
        let mock = MockClipboardReader {
            files: HashMap::from([(path.clone(), encoded(2, 1, [200, 10, 20], format))]),
            ..MockClipboardReader::default()
        };
        let decoded = decode_image_file(&mock, &copied(&path), 1024 * 1024).unwrap();
        assert_eq!(decoded.width, 2);
        assert_eq!(decoded.height, 1);
        assert_eq!(decoded.source_mime.as_deref(), Some(mime));
        assert_eq!(decoded.image_source, CapturedImageSource::CopiedImageFile);
        assert!(decoded.source_bytes.as_ref().is_some_and(|bytes| !bytes.is_empty()));
    }
    let path = "/t/active.svg";
    let mock = MockClipboardReader {
        files: HashMap::from([(
            path.to_owned(),
            b"<svg xmlns='http://www.w3.org/2000/svg'></svg>".to_vec(),
        )]),
        ..MockClipboardReader::default()
    };
    assert!(decode_image_file(&mock, &copied(path), 1024 * 1024).is_none());
}

#[test]
fn file_that_is_not_what_its_name_says_is_not_an_image() {
    let path = "/t/really_a_jpeg.PNG";
    let mock = MockClipboardReader {
        files: HashMap::from([(
            path.to_owned(),
            encoded(2, 1, [200, 10, 20], image::ImageFormat::Jpeg),
        )]),
        ..MockClipboardReader::default()
    };
    assert!(decode_image_file(&mock, &copied(path), 1024 * 1024).is_none());
}

#[test]
fn broken_pixels_fall_back_to_text() {
    let mock = MockClipboardReader {
        image: Some((2, 2, vec![0; 3])),
        text: Some("text".to_owned()),
        ..MockClipboardReader::default()
    };
    match read_payload_with_reader(&mock, 1024).unwrap() {
        ClipboardPayload::Text(text) => assert_eq!(text, "text"),
        _ => panic!("broken pixels are no image"),
    }
}

#[test]
fn x11_capabilities_have_full_monitoring() {
    let caps = get_platform_capabilities_with_env(mock_env(&[("XDG_SESSION_TYPE", "x11")]));
    assert_eq!(caps.session_type, SessionType::X11);
    assert!(caps.global_clipboard_monitoring);
    assert!(caps.global_shortcuts);
}

#[test]
fn wayland_capabilities_have_limited_monitoring() {
    let caps = get_platform_capabilities_with_env(mock_env(&[("XDG_SESSION_TYPE", "wayland")]));
    assert_eq!(caps.session_type, SessionType::Wayland);
    assert!(!caps.global_clipboard_monitoring);
    assert!(!caps.global_shortcuts);
    assert!(caps.tray);
}

#[test]
fn runtime_capabilities_tracks_status_updates() {
    let mut runtime = get_runtime_capabilities(platform_capabilities(SessionType::X11));
    assert_eq!(runtime.tray, CapabilityStatus::NotTested);
    update_shortcut_status(
        &mut runtime,
        CapabilityStatus::Failed("Key registration error".to_string()),
    );
    assert_eq!(
        runtime.shortcut,
        CapabilityStatus::Failed("Key registration error".to_string())
    );

    update_clipboard_monitoring_status(
        &mut runtime,
        CapabilityStatus::Degraded(
            "XFixes недоступен, используется polling каждые 350 мс".to_string(),
        ),
    );
    assert_eq!(
        runtime.clipboard_monitoring,
        CapabilityStatus::Degraded(
            "XFixes недоступен, используется polling каждые 350 мс".to_string()
        )
    );
    update_tray_status(&mut runtime, CapabilityStatus::Available);
    assert_eq!(runtime.tray, CapabilityStatus::Available);
}

#[test]
fn select_backend_instantiates_backend() {
    for (session, name) in [
        (SessionType::X11, "x11-xfixes"),
        (SessionType::Wayland, "wayland-limited"),
        (SessionType::Unknown, "unknown-fallback"),
    ] {
        let backend = select_backend(session);
        assert!(!backend.name().is_empty());
        assert_eq!(backend.name(), name);
        assert_eq!(backend.session_type(), session);
        assert_eq!(backend.supports_passive_monitoring(), session == SessionType::X11);
        assert_eq!(backend.capabilities(session).session_type, session);
    }
}

#[test]
fn select_monitor_instantiates_monitor() {
    for (session, name, mode) in [
        (SessionType::X11, "x11-xfixes", MonitorMode::EventDriven),
        (SessionType::Wayland, "wayland-limited", MonitorMode::Disabled),
        (SessionType::Unknown, "unknown-disabled", MonitorMode::Disabled),
    ] {
        let monitor = select_monitor(session);
        assert!(!monitor.name().is_empty());
        assert_eq!(monitor.name(), name);
        assert_eq!(monitor.session_type(), session);
        assert_eq!(monitor.start().0, mode);
    }
    let polling = PollingClipboardMonitor::default();
    assert_eq!(polling.start().0, MonitorMode::Polling(350));
    assert_eq!(polling.start().1, CapabilityStatus::Available);
}

#[test]
fn generation_counts_on_from_zero() {
    let mut generation = ClipboardGeneration::default();
    assert_eq!(generation.current(), 0);
    assert_eq!(generation.next(), 1);
    generation.set(u64::MAX);
    assert_eq!(generation.next(), 0);
}

#[test]
fn watcher_reads_on_notifications_and_at_intervals() {
    let text = ClipboardPayload::Text("a".to_owned());
    let mut watcher = ClipboardWatcher::begin(MonitorMode::EventDriven, Some(&text));
    assert_eq!(watcher.waits_for(), WatchWait::Notification(500));
    let change = ClipboardNotification { sequence: 1, owner: 7, timestamp: 9 };
    assert_eq!(watcher.wake(Wakeup::Notified(change)), WatchStep::Read { from_event: true });
    assert_eq!(watcher.wake(Wakeup::TimedOut), WatchStep::Wait);
    assert_eq!(watcher.observe(&text, true, false), Some(payload_fingerprint(&text)));
    assert_eq!(watcher.observe(&text, true, true), None);
    assert_eq!(
        watcher.wake(Wakeup::Disconnected),
        WatchStep::Report(CapabilityStatus::Degraded(
            "XFixes недоступен, используется polling каждые 350 мс".to_owned()
        ))
    );
    assert_eq!(watcher.waits_for(), WatchWait::Pause(350));
    assert_eq!(watcher.wake(Wakeup::Elapsed), WatchStep::Read { from_event: false });
    assert_eq!(watcher.observe(&text, false, false), None);
    let other = ClipboardPayload::Text("b".to_owned());
    assert_eq!(watcher.observe(&other, false, false), Some(payload_fingerprint(&other)));
    let disabled = ClipboardWatcher::begin(MonitorMode::Disabled, None);
    assert_eq!(disabled.waits_for(), WatchWait::Nothing);
    assert!(owner_changed(Some(1), Some(2)));
    assert!(!owner_changed(Some(1), None));
}

#[test]
fn own_write_is_announced_and_a_failed_one_is_not() {
    let mut guard = OwnCopyGuard::default();
    let payload = ClipboardPayload::Text("mine".to_owned());
    let fingerprint = payload.fingerprint();
    let written: Result<(), ()> =
        set_clipboard_payload(&payload, &fingerprint, &mut guard, |_: &ClipboardPayload| Ok(()));
    assert!(written.is_ok());
    assert!(guard.should_suppress(&fingerprint));
    assert!(!guard.should_suppress(&fingerprint));
    let failed = set_clipboard("mine", &mut guard, |_: &ClipboardPayload| Err("no display"));
    assert_eq!(failed, Err("no display"));
    assert!(!guard.should_suppress(&fingerprint));
}

fn report(hash: &str, length: usize) -> BrowserCopyEvent {
    BrowserCopyEvent {
        event_id: uuid::Uuid::new_v4().as_u128(),
        version: 1,
        event: "copy".to_owned(),
        content_hash: hash.to_owned(),
        content_length: length,
        domain: "example.com".to_owned(),
        page_title: "Page".to_owned(),
        timestamp: chrono::Utc::now().to_rfc3339(),
    }
}

fn present() -> Moment {
    let now = chrono::Utc::now();
    Moment { secs: now.timestamp(), nanos: now.timestamp_subsec_nanos() }
}

#[test]
fn captured_text_takes_the_report_that_came_before_it() {
    let mut repo = Repository::open_in_memory();
    let mut metadata = MetadataBuffer::default();
    let normal = normalize_content(" text ");
    metadata.push(report(&content_hash(&normal), normal.len())).unwrap();
    assert_eq!(capture_text(&mut repo, &mut metadata, " text ", present()).unwrap(), Some(0));
    let clips = repo.list_clips(&ClipQuery::default()).unwrap();
    assert_eq!(clips[0].domain.as_deref(), Some("example.com"));
    assert_eq!(capture_text(&mut repo, &mut metadata, " \n ", present()).unwrap(), None);
}

#[test]
fn captured_text_is_reconciled_with_a_waiting_report() {
    let mut repo = Repository::open_in_memory();
    let mut metadata = MetadataBuffer::default();
    assert_eq!(capture_text(&mut repo, &mut metadata, "text", present()).unwrap(), Some(0));
    let normal = normalize_content("text");
    metadata.push(report(&content_hash(&normal), normal.len())).unwrap();
    assert_eq!(metadata.reconcile_pending(&mut repo), 1);
    let clips = repo.list_clips(&ClipQuery::default()).unwrap();
    assert_eq!(clips.len(), 1);
    assert_eq!(clips[0].domain.as_deref(), Some("example.com"));
}

#[test]
fn captured_image_is_saved_with_its_report() {
    let mut repo = Repository::open_in_memory_with_blobs("/blobs");
    let mut metadata = MetadataBuffer::default();
    let picture = ImagePayload {
        width: 2,
        height: 1,
        rgba: vec![255, 0, 0, 255, 0, 255, 0, 255],
        source_mime: None,
        source_bytes: None,
        image_source: CapturedImageSource::ClipboardImage,
    };
    let (hash, length) = picture.match_key();
    metadata.push(report(&hash, length)).unwrap();
    let found = take_image_report(&mut metadata, &picture, present());
    assert!(found.is_some());
    let limits =
        StorageLimits { max_image_bytes: 1024 * 1024, max_storage_bytes: 10 * 1024 * 1024 };
    let size = ThumbnailSize { width: 2, height: 1 };
    let refused = capture_image(
        &mut repo,
        &mut metadata,
        &picture,
        None,
        1_000,
        limits,
        size,
        |_: &PreparedImage| false,
    );
    assert_eq!(refused, Err(RepositoryError::BlobUnwritable));
    let saved = capture_image(
        &mut repo,
        &mut metadata,
        &picture,
        found,
        1_000,
        limits,
        size,
        |_: &PreparedImage| true,
    );
    assert_eq!(saved, Ok(0));
    let clips = repo.list_clips(&ClipQuery::default()).unwrap();
    assert_eq!(clips[0].domain.as_deref(), Some("example.com"));
}

fn pixels(source: CapturedImageSource) -> ClipboardPayload {
    ClipboardPayload::Image(ImagePayload {
        width: 1,
        height: 1,
        rgba: vec![1, 2, 3, 255],
        source_mime: None,
        source_bytes: None,
        image_source: source,
    })
}

fn look(from_event: bool, paused: bool) -> Look {
    Look { from_event, paused, owner_before: Some(1), owner_after: Some(1), generation: 5 }
}

#[test]
fn idle_passes_change_nothing() {
    let mut watcher = ClipboardWatcher::begin(MonitorMode::Polling(350), None);
    let mut guard = OwnCopyGuard::default();
    let mut repo = Repository::open_in_memory();
    let mut metadata = MetadataBuffer::default();
    let text = || ClipboardPayload::Text("text".to_owned());
    let blank = ClipboardPayload::Text(" \n ".to_owned());

    let mut idle = vec![
        start(&mut watcher, &mut guard, text(), look(true, true)),
        start(&mut watcher, &mut guard, text(), look(false, false)),
        start(&mut watcher, &mut guard, blank, look(true, false)),
    ];
    let own = guard.mark_pending(&text().fingerprint());
    guard.commit(own);
    idle.push(start(&mut watcher, &mut guard, text(), look(true, false)));
    for pass in &mut idle {
        assert_eq!(pass.pending(), PassAction::End);
        assert!(pass.save_text(&mut repo, &mut metadata, present()).is_none());
        pass.after_save(true);
        pass.after_check(5, Some(1));
        assert!(pass.hand_back(&mut guard, |_: &ClipboardPayload| Err("not asked")).is_none());
        assert_eq!(pass.pending(), PassAction::End);
    }
    assert!(repo.clip_rows().is_empty());

    let pass = start(&mut watcher, &mut guard, text(), look(true, false));
    assert_eq!(pass.pending(), PassAction::Save);
    assert!(pass.save_text(&mut repo, &mut metadata, present()).unwrap().is_ok());
    assert_eq!(repo.clip_rows().len(), 1);
}

#[test]
fn an_image_is_saved_and_handed_back() {
    let mut watcher = ClipboardWatcher::begin(MonitorMode::EventDriven, None);
    let mut guard = OwnCopyGuard::default();
    let mut repo = Repository::open_in_memory_with_blobs("/blobs");
    let mut metadata = MetadataBuffer::default();
    let payload = pixels(CapturedImageSource::ClipboardImage);
    let fingerprint = payload.fingerprint();
    let mut pass = start(&mut watcher, &mut guard, payload, look(true, false));
    assert_eq!(pass.pending(), PassAction::FindReport(0));
    for _ in 0..4 {
        pass.find_report(&mut metadata, present());
        assert_eq!(pass.pending(), PassAction::FindReport(50));
    }
    pass.find_report(&mut metadata, present());
    assert_eq!(pass.pending(), PassAction::Save);
    let limits = StorageLimits { max_image_bytes: 1_000_000, max_storage_bytes: 1_000_000 };
    let size = ThumbnailSize { width: 1, height: 1 };
    let saved =
        pass.save_image(&mut repo, &mut metadata, 7, limits, size, |_: &PreparedImage| true);
    assert_eq!(saved, Some(Ok(0)));
    assert_eq!(repo.clip_rows()[0].last_copied_at, 7);
    pass.after_save(true);
    assert_eq!(pass.pending(), PassAction::Announce);
    pass.after_check(5, Some(1));
    assert_eq!(pass.pending(), PassAction::Republish);
    let written: Option<Result<(), ()>> =
        pass.hand_back(&mut guard, |_: &ClipboardPayload| Ok(()));
    assert_eq!(written, Some(Ok(())));
    assert!(guard.should_suppress(&fingerprint));
    assert_eq!(pass.pending(), PassAction::End);
}

#[test]
fn a_report_that_is_found_is_saved_with_the_image() {
    let mut watcher = ClipboardWatcher::begin(MonitorMode::EventDriven, None);
    let mut guard = OwnCopyGuard::default();
    let mut repo = Repository::open_in_memory_with_blobs("/blobs");
    let mut metadata = MetadataBuffer::default();
    let payload = pixels(CapturedImageSource::CopiedImageFile);
    let (hash, length) = payload.match_key().unwrap();
    metadata.push(report(&hash, length)).unwrap();
    let mut pass = start(&mut watcher, &mut guard, payload, look(true, false));
    pass.find_report(&mut metadata, present());
    assert_eq!(pass.pending(), PassAction::Save);
    let limits = StorageLimits { max_image_bytes: 1_000_000, max_storage_bytes: 1_000_000 };
    let size = ThumbnailSize { width: 1, height: 1 };
    let saved =
        pass.save_image(&mut repo, &mut metadata, 7, limits, size, |_: &PreparedImage| true);
    assert_eq!(saved, Some(Ok(0)));
    assert_eq!(repo.clip_rows()[0].domain.as_deref(), Some("example.com"));
    pass.after_save(true);
    pass.after_check(5, Some(1));
    assert_eq!(pass.pending(), PassAction::End);
}

#[test]
fn a_pass_ends_where_nothing_can_be_saved_or_handed_back() {
    let mut watcher = ClipboardWatcher::begin(MonitorMode::EventDriven, None);
    let mut guard = OwnCopyGuard::default();
    let mut metadata = MetadataBuffer::default();
    let text = ClipboardPayload::Text("text".to_owned());
    let mut failed = start(&mut watcher, &mut guard, text, look(true, false));
    failed.after_save(false);
    assert_eq!(failed.pending(), PassAction::Warn);

    let changes = [(Some(2), 5, Some(2)), (Some(1), 6, Some(1)), (Some(1), 5, Some(3))];
    for (owner_after, generation, later) in changes {
        let payload = pixels(CapturedImageSource::ClipboardImage);
        let seen = Look { owner_after, ..look(true, false) };
        let mut pass = start(&mut watcher, &mut guard, payload, seen);
        for _ in 0..5 {
            pass.find_report(&mut metadata, present());
        }
        pass.after_save(true);
        assert_eq!(pass.pending(), PassAction::Announce);
        pass.after_check(generation, later);
        assert_eq!(pass.pending(), PassAction::End);
    }
}

#[test]
fn requests_are_repeated_three_times() {
    let pauses: Vec<Option<u64>> = (1..5).map(request_retry).collect();
    assert_eq!(pauses, [Some(25), Some(25), Some(0), None]);
    let pauses: Vec<Option<u64>> = (1..4).map(read_retry).collect();
    assert_eq!(pauses, [Some(25), Some(25), None]);
}
