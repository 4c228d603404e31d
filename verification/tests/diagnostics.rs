use kitsupin::diagnostics::{
    check_chrome_installed, check_manifest, diagnose_exit_code, generate_native_manifest,
    get_integration_status, get_user_manifest_path, get_user_manifest_paths, is_file_executable,
    resolve_native_host_path, save_user_extension_manifest, validate_extension_id,
    validate_manifest_content, FileMode, IntegrationFacts, IntegrationStatus, ManifestCheck,
    ManifestError, NATIVE_HOST_NAME, SYSTEM_NATIVE_HOST_PATH,
};
use kitsupin::native_host::{
    accept_length, data_dir, handle, is_copy_event, is_status_probe, response, HostError,
};

const ID: &str = "abcdefghijklmnopabcdefghijklmnop";

const HOST: &str = "/t/kitsupin-native-host";

fn executable(path: &str) -> Option<FileMode> {
    if path == HOST {
        Some(FileMode { is_file: true, mode: 0o755 })
    } else {
        None
    }
}

#[test]
fn test_validate_extension_id() {
    assert!(validate_extension_id("abcdefghijklmnopabcdefghijklmnop"));
    assert!(!validate_extension_id("abcdefghijklmnopabcdefghijklmnoQ"));
    assert!(!validate_extension_id("abcdefghijklmnop"));
    assert!(!validate_extension_id("abcdefghijklmnopabcdefghijklmno1"));
}

#[test]
fn test_generate_native_manifest() {
    let res = generate_native_manifest(SYSTEM_NATIVE_HOST_PATH, ID).unwrap();
    assert!(res.contains(NATIVE_HOST_NAME));
    assert!(res.contains(SYSTEM_NATIVE_HOST_PATH));
    assert!(res.contains("chrome-extension://abcdefghijklmnopabcdefghijklmnop/"));

    let err = generate_native_manifest(SYSTEM_NATIVE_HOST_PATH, "invalid-id");
    assert!(err.is_err());
    assert_eq!(
        err.unwrap_err().message(),
        "Неверный ID Chrome-расширения: 'invalid-id'. Должно быть 32 символа a-p."
    );
}

#[test]
fn test_validate_manifest_content() {
    let valid_json = format!(
        r#"{{
            "name": "io.github.mootxed.kitsupin.native",
            "description": "test",
            "path": "{HOST}",
            "type": "stdio",
            "allowed_origins": ["chrome-extension://{ID}/"]
        }}"#
    );
    let parsed_id = validate_manifest_content(&valid_json, executable).unwrap();
    assert_eq!(parsed_id, ID);

    let invalid_name = valid_json.replace("io.github.mootxed.kitsupin.native", "wrong.name");
    assert!(validate_manifest_content(&invalid_name, executable).is_err());

    let invalid_type = valid_json.replace("\"type\": \"stdio\"", "\"type\": \"invalid\"");
    assert!(validate_manifest_content(&invalid_type, executable).is_err());

    let invalid_id = valid_json.replace(ID, "short-id");
    assert!(validate_manifest_content(&invalid_id, executable).is_err());
}

#[test]
fn every_fault_of_a_manifest_is_told() {
    let manifest = |name: &str, kind: &str, path: &str, origins: &str| {
        format!(r#"{{"name":"{name}","type":"{kind}","path":"{path}","allowed_origins":{origins}}}"#)
    };
    let check = |content: &str| validate_manifest_content(content, executable).unwrap_err();
    assert!(matches!(check("{"), ManifestError::BadJson(_)));
    assert_eq!(
        check(&manifest("x", "stdio", HOST, "[]")),
        ManifestError::WrongName("x".to_owned())
    );
    assert_eq!(
        check(&manifest(NATIVE_HOST_NAME, "x", HOST, "[]")),
        ManifestError::WrongType("x".to_owned())
    );
    assert_eq!(check(&manifest(NATIVE_HOST_NAME, "stdio", "", "[]")), ManifestError::NoPath);
    assert_eq!(
        check(&manifest(NATIVE_HOST_NAME, "stdio", "/x", "[]")),
        ManifestError::MissingFile("/x".to_owned())
    );
    assert_eq!(
        check(&manifest(NATIVE_HOST_NAME, "stdio", HOST, "[7, \"x\"]")),
        ManifestError::NoExtensionId
    );
    let content = manifest(NATIVE_HOST_NAME, "stdio", HOST, "[]");
    let plain = |_: &str| Some(FileMode { is_file: true, mode: 0o644 });
    assert_eq!(
        validate_manifest_content(&content, plain).unwrap_err().message(),
        "Указанный в манифесте файл '/t/kitsupin-native-host' не является исполняемым"
    );
}

#[test]
fn test_missing_file_detection() {
    assert!(!is_file_executable(None));
}

#[test]
fn test_executable_permission_check() {
    assert!(!is_file_executable(Some(FileMode { is_file: true, mode: 0o644 })));
    assert!(is_file_executable(Some(FileMode { is_file: true, mode: 0o755 })));
    assert!(!is_file_executable(Some(FileMode { is_file: false, mode: 0o755 })));
}

#[test]
fn test_save_user_extension_manifest() {
    let manifest_content = generate_native_manifest(HOST, ID).unwrap();
    let parsed = validate_manifest_content(&manifest_content, executable).unwrap();
    assert_eq!(parsed, ID);

    let write = |_: &str, _: &str| None;
    assert!(save_user_extension_manifest("invalid_id", Some(HOST), &vec![], write).is_err());
}

#[test]
fn manifest_is_written_at_every_path_that_can_be_written() {
    let paths = vec!["/a".to_owned(), "/b".to_owned()];
    let only_b = |path: &str, _: &str| {
        if path == "/b" {
            None
        } else {
            Some("read-only".to_owned())
        }
    };
    assert_eq!(
        save_user_extension_manifest(ID, Some(HOST), &paths, only_b).unwrap(),
        "/b"
    );
    let nowhere = |path: &str, _: &str| Some(format!("no {path}"));
    assert_eq!(
        save_user_extension_manifest(ID, Some(HOST), &paths, nowhere),
        Err(ManifestError::NotWritten("no /b".to_owned()))
    );
    assert_eq!(
        save_user_extension_manifest(ID, None, &paths, nowhere),
        Err(ManifestError::HostMissing(SYSTEM_NATIVE_HOST_PATH.to_owned()))
    );
    assert_eq!(
        save_user_extension_manifest(ID, Some(HOST), &vec![], nowhere),
        Err(ManifestError::NoHomeDirectory)
    );
}

fn missing() -> ManifestCheck {
    ManifestCheck { exists: false, extension_id: None }
}

fn status(shortcut_registered: Option<bool>, autostart_enabled: bool) -> IntegrationStatus {
    get_integration_status(IntegrationFacts {
        is_linux: true,
        desktop_environment: None,
        session_type: Some("X11".to_owned()),
        has_display: false,
        chrome_detected: true,
        native_host: Some(true),
        system_chrome: missing(),
        system_chromium: ManifestCheck { exists: true, extension_id: Some(ID.to_owned()) },
        user_chrome: missing(),
        user_chromium: missing(),
        native_socket_available: true,
        last_native_message_at: None,
        shortcut_registered,
        autostart_enabled,
    })
}

#[test]
fn test_integration_status_shortcut_options() {
    let status_none = status(None, true);
    assert_eq!(status_none.shortcut_registered, None);
    assert!(!status_none.problems.iter().any(|p| p.id == "shortcut_conflict"));

    let status_false = status(Some(false), true);
    assert_eq!(status_false.shortcut_registered, Some(false));
    assert!(status_false.problems.iter().any(|p| p.id == "shortcut_conflict"));

    let status_true = status(Some(true), true);
    assert_eq!(status_true.shortcut_registered, Some(true));
    assert!(!status_true.problems.iter().any(|p| p.id == "shortcut_conflict"));
}

#[test]
fn status_is_what_was_found() {
    let good = status(Some(true), true);
    assert!(good.problems.is_empty());
    assert!(good.is_supported_x11 && good.native_messaging_configured);
    assert!(!good.native_messaging_connected);
    assert!(good.chromium_manifest_valid && !good.chrome_manifest_valid);
    assert_eq!(good.extension_id.as_deref(), Some(ID));
    assert_eq!(diagnose_exit_code(&good), 0);
    let bad = get_integration_status(IntegrationFacts {
        is_linux: false,
        desktop_environment: None,
        session_type: None,
        has_display: false,
        chrome_detected: false,
        native_host: None,
        system_chrome: missing(),
        system_chromium: missing(),
        user_chrome: ManifestCheck { exists: true, extension_id: None },
        user_chromium: missing(),
        native_socket_available: false,
        last_native_message_at: Some(1),
        shortcut_registered: Some(false),
        autostart_enabled: false,
    });
    let ids: Vec<&str> = bad.problems.iter().map(|p| p.id.as_str()).collect();
    assert_eq!(
        ids,
        vec![
            "os_not_linux",
            "wayland_session",
            "chrome_missing",
            "native_host_missing",
            "manifest_invalid",
            "socket_unavailable",
            "shortcut_conflict",
            "autostart_disabled",
        ]
    );
    assert_eq!(diagnose_exit_code(&bad), 1);
}

#[test]
fn a_manifest_is_checked_only_where_it_is_there() {
    let content = generate_native_manifest(HOST, ID).unwrap();
    let check = check_manifest(true, Some(&content), executable);
    assert_eq!(check, ManifestCheck { exists: true, extension_id: Some(ID.to_owned()) });
    assert_eq!(check_manifest(false, Some(&content), executable), missing());
    assert_eq!(
        check_manifest(true, None, executable),
        ManifestCheck { exists: true, extension_id: None }
    );
}

#[test]
fn places_are_looked_through_in_order() {
    assert_eq!(
        get_user_manifest_paths(None, Some("/home/u")),
        vec![
            "/home/u/.config/google-chrome/NativeMessagingHosts/io.github.mootxed.kitsupin.native.json",
            "/home/u/.config/chromium/NativeMessagingHosts/io.github.mootxed.kitsupin.native.json",
        ]
    );
    assert_eq!(
        get_user_manifest_path(Some("/c"), Some("/home/u")).as_deref(),
        Some("/c/google-chrome/NativeMessagingHosts/io.github.mootxed.kitsupin.native.json")
    );
    assert!(get_user_manifest_paths(None, None).is_empty());
    let search = vec!["/opt/bin".to_owned()];
    assert!(check_chrome_installed(&search, |path: &str| path == "/opt/bin/chromium"));
    assert!(check_chrome_installed(&vec![], |path: &str| path == "/usr/bin/google-chrome"));
    assert!(!check_chrome_installed(&search, |_: &str| false));
    assert_eq!(
        resolve_native_host_path(Some("/n"), Some("/e"), |path: &str| path != "/n").as_deref(),
        Some(SYSTEM_NATIVE_HOST_PATH)
    );
    assert_eq!(
        resolve_native_host_path(Some("/n"), Some("/e"), |path: &str| path.starts_with("/e"))
            .as_deref(),
        Some("/e/kitsupin-native-host")
    );
    assert_eq!(resolve_native_host_path(None, None, |_: &str| false), None);
}

fn message(pairs: &[(&str, serde_json::Value)]) -> String {
    let mut object = serde_json::Map::new();
    for (key, value) in pairs {
        object.insert((*key).to_owned(), value.clone());
    }
    serde_json::Value::Object(object).to_string()
}

#[test]
fn status_probe_is_narrow_and_versioned() {
    let one = serde_json::Value::from(1);
    let status = serde_json::Value::from("status");
    assert!(is_status_probe(&message(&[("version", one.clone()), ("event", status.clone())])));
    assert!(is_status_probe(&message(&[
        ("version", one),
        ("event", status.clone()),
        ("timestamp", serde_json::Value::from("123")),
    ])));
    assert!(!is_status_probe(&message(&[
        ("version", serde_json::Value::from(2)),
        ("event", status),
    ])));
}

#[test]
fn copy_event_is_narrow_and_versioned() {
    let one = serde_json::Value::from(1);
    assert!(is_copy_event(&message(&[
        ("version", one.clone()),
        ("event", serde_json::Value::from("copy")),
    ])));
    assert!(!is_copy_event(&message(&[
        ("version", one),
        ("event", serde_json::Value::from("other")),
    ])));
}

#[test]
fn messages_are_passed_on_or_refused_with_a_reason() {
    let probe = "{ \"version\": 1, \"event\": \"status\" }";
    let connect = |path: &str| Some(path.to_owned());
    let send = |path: String, line: &str| {
        path == "/s" && line == "{\"event\":\"status\",\"version\":1}\n"
    };
    assert_eq!(handle(Some(probe), Some("/s"), connect, send), Ok(()));
    assert_eq!(
        handle(Some(probe), Some("/other"), connect, send),
        Err(HostError::HostUnavailable)
    );
    assert_eq!(
        handle(Some(probe), Some("/s"), |_: &str| None::<String>, send),
        Err(HostError::AppNotRunning)
    );
    assert_eq!(
        handle(Some("{\"version\":1}"), Some("/s"), connect, send),
        Err(HostError::InvalidMessage)
    );
    assert_eq!(handle(Some("{"), Some("/s"), connect, send), Err(HostError::HostUnavailable));
    assert_eq!(handle(None, Some("/s"), connect, send), Err(HostError::HostUnavailable));
    assert_eq!(handle(Some(probe), None, connect, send), Err(HostError::HostUnavailable));
    assert_eq!(response(&Ok(())), "{\"ok\":true,\"version\":1}");
    assert_eq!(
        response(&Err(HostError::AppNotRunning)),
        "{\"error\":\"app_not_running\",\"ok\":false,\"version\":1}"
    );
    assert_eq!(HostError::InvalidMessage.code(), "invalid_message");
    assert_eq!(accept_length(16_384), Some(16_384));
    assert_eq!(accept_length(16_385), None);
    assert_eq!(
        data_dir(None, Some("/home/u")).as_deref(),
        Some("/home/u/.local/share/kitsupin/native.sock")
    );
    assert_eq!(data_dir(Some("/d"), None).as_deref(), Some("/d/kitsupin/native.sock"));
}
