use kitsupin::commands::save_settings::{SaveAction, SaveSettings};
use kitsupin::commands::{
    asks_to_show, bootstrap, copy_clip, instance_lock_path, pause_label, signal_retry,
    single_instance_socket_path, start_mode, tray_tooltip, CopyError, StartMode,
};
use kitsupin::domain::{ClipboardPayload, NewClip, OwnCopyGuard};
use kitsupin::jobs::clean;
use kitsupin::persistence::{Repository, RepositoryError};
use kitsupin::settings::{
    autostart_path, invalid_settings_path, is_autostart_actual_enabled, set_autostart,
    AutostartAction, Settings, SettingsError, SettingsFile, SettingsStore, DISABLED_ENTRY,
};

fn parse(raw: &str) -> Option<Settings> {
    let value: serde_json::Value = serde_json::from_str(raw).ok()?;
    Some(Settings {
        paused: value.get("paused")?.as_bool()?,
        autostart: value.get("autostart")?.as_bool()?,
        shortcut: value.get("shortcut")?.as_str()?.to_owned(),
        retention_days: value.get("retentionDays")?.as_u64()? as u32,
        excluded_apps: vec![],
    })
}

fn found(raw: &str) -> SettingsFile {
    SettingsFile::Present { raw: raw.to_owned(), parsed: parse(raw) }
}

#[test]
fn test_load_valid_settings() {
    let valid = r#"{"paused":false,"autostart":true,"shortcut":"Super+V","retentionDays":30,"excludedApps":[]}"#;
    let (store, backup) = SettingsStore::load("/d", found(valid));
    assert!(!store.has_invalid_warning());
    assert_eq!(store.get().retention_days, 30);
    assert_eq!(backup, None);
}

#[test]
fn test_load_zero_retention_days_backs_up_and_resets() {
    let invalid_content = r#"{"paused":false,"autostart":true,"shortcut":"Super+V","retentionDays":0,"excludedApps":[]}"#;
    let (mut store, backup) = SettingsStore::load("/d", found(invalid_content));
    assert!(store.has_invalid_warning());
    assert_eq!(store.get().retention_days, 90);
    assert_eq!(backup.as_deref(), Some(invalid_content));
    assert!(store.consume_invalid_warning());
    assert!(!store.consume_invalid_warning());
}

#[test]
fn test_load_corrupted_json_backs_up_and_resets() {
    let invalid_content = r#"{broken_json..."#;
    let (store, backup) = SettingsStore::load("/d", found(invalid_content));
    assert!(store.has_invalid_warning());
    assert_eq!(store.get().retention_days, 90);
    assert_eq!(backup.as_deref(), Some(invalid_content));
    assert_eq!(invalid_settings_path("/d"), "/d/settings.invalid.json");
}

#[test]
fn missing_settings_are_the_default_ones() {
    let (store, backup) = SettingsStore::load("/d", SettingsFile::Missing);
    assert!(!store.has_invalid_warning());
    assert_eq!(backup, None);
    let settings = store.get();
    assert_eq!(settings.shortcut, "Super+V");
    assert!(settings.autostart && !settings.paused);
    let (store, backup) = SettingsStore::load("/d", SettingsFile::Unreadable);
    assert!(!store.has_invalid_warning());
    assert_eq!(backup, None);
}

#[test]
fn settings_are_saved_only_if_valid_and_written() {
    let (mut store, _) = SettingsStore::load("/d", SettingsFile::Missing);
    let mut settings = store.get();
    settings.retention_days = 3651;
    assert_eq!(
        store.save(settings.clone(), |_: &str, _: &Settings| true),
        Err(SettingsError::RetentionOutOfRange)
    );
    settings.retention_days = 3650;
    assert_eq!(
        store.save(settings.clone(), |_: &str, _: &Settings| false),
        Err(SettingsError::WriteFailed)
    );
    assert_eq!(store.get().retention_days, 90);
    let saved = store.save(settings, |path: &str, written: &Settings| {
        path == "/d/settings.json" && written.retention_days == 3650
    });
    assert_eq!(saved, Ok(()));
    assert_eq!(store.get().retention_days, 3650);
    assert_eq!(SettingsError::RetentionOutOfRange.message(), "срок хранения вне диапазона");
}

#[test]
fn autostart_is_switched_by_an_entry() {
    assert_eq!(
        autostart_path(None, Some("/home/u")).unwrap(),
        "/home/u/.config/autostart/kitsupin.desktop"
    );
    assert_eq!(autostart_path(None, None), Err(SettingsError::NoConfigDirectory));
    assert!(matches!(set_autostart(true, true, true, "/x"), AutostartAction::Remove));
    assert!(matches!(set_autostart(true, true, false, "/x"), AutostartAction::Keep));
    match set_autostart(true, false, false, "/opt/kitsupin") {
        AutostartAction::Write(entry) => {
            assert_eq!(
                entry,
                "[Desktop Entry]\nType=Application\nName=KitsuPin\nComment=История буфера обмена\nExec=/opt/kitsupin --background\nTerminal=false\nX-GNOME-Autostart-enabled=true\nOnlyShowIn=KDE;\n"
            );
        }
        _ => panic!("an entry is written"),
    }
    match set_autostart(false, true, false, "/x") {
        AutostartAction::Write(entry) => {
            assert_eq!(entry, "[Desktop Entry]\nType=Application\nName=KitsuPin\nHidden=true\n");
        }
        _ => panic!("an entry is written"),
    }
}

fn changed() -> (Settings, Settings) {
    let previous = Settings::default();
    let mut wanted = Settings::default();
    wanted.shortcut = "Ctrl+B".to_owned();
    wanted.autostart = false;
    (previous, wanted)
}

#[test]
fn saving_takes_every_step_in_order() {
    let (previous, wanted) = changed();
    let (mut save, action) = SaveSettings::begin(previous, wanted, Some("Super+V".to_owned()));
    assert_eq!(action, SaveAction::Register("Ctrl+B".to_owned()));
    assert_eq!(save.step(None), SaveAction::Unregister("Super+V".to_owned()));
    assert_eq!(save.step(None), SaveAction::SetAutostart(false));
    assert_eq!(save.step(None), SaveAction::WriteFile);
    assert_eq!(save.step(None), SaveAction::Apply);
    assert_eq!(save.registered().as_deref(), Some("Ctrl+B"));
}

#[test]
fn invalid_settings_are_refused_first() {
    let (previous, mut wanted) = changed();
    wanted.retention_days = 0;
    let (mut save, action) = SaveSettings::begin(previous, wanted, Some("Super+V".to_owned()));
    let refusal = SaveAction::Fail("срок хранения вне диапазона".to_owned());
    assert_eq!(action, refusal);
    assert_eq!(save.step(None), refusal);
    assert_eq!(save.registered().as_deref(), Some("Super+V"));
}

#[test]
fn failed_saving_is_undone() {
    let (previous, wanted) = changed();
    let (mut save, _) = SaveSettings::begin(previous, wanted, Some("Super+V".to_owned()));
    save.step(None);
    save.step(None);
    assert_eq!(save.step(None), SaveAction::WriteFile);
    assert_eq!(save.step(Some("disk full".to_owned())), SaveAction::SetAutostart(true));
    assert_eq!(save.step(None), SaveAction::Unregister("Ctrl+B".to_owned()));
    assert_eq!(save.step(None), SaveAction::Register("Super+V".to_owned()));
    assert_eq!(
        save.step(None),
        SaveAction::Fail("Не удалось сохранить настройки: disk full".to_owned())
    );
    assert_eq!(save.registered().as_deref(), Some("Super+V"));

    let (previous, wanted) = changed();
    let (mut save, _) = SaveSettings::begin(previous, wanted, Some("Super+V".to_owned()));
    save.step(None);
    assert_eq!(
        save.step(Some("busy".to_owned())),
        SaveAction::Unregister("Ctrl+B".to_owned())
    );
    assert_eq!(
        save.step(None),
        SaveAction::Fail("Не удалось снять старую горячую клавишу 'Super+V': busy".to_owned())
    );
    assert_eq!(save.registered().as_deref(), Some("Super+V"));

    let (previous, wanted) = changed();
    let (mut save, _) = SaveSettings::begin(previous, wanted, None);
    assert_eq!(
        save.step(Some("taken".to_owned())),
        SaveAction::Fail("Не удалось зарегистрировать горячую клавишу 'Ctrl+B': taken".to_owned())
    );
    assert_eq!(save.registered(), None);
}

#[test]
fn arguments_tell_what_to_start() {
    let mode = |arguments: &[&str]| {
        start_mode(&arguments.iter().map(|argument| argument.to_string()).collect())
    };
    assert_eq!(mode(&["kitsupin"]), StartMode::Run { background: false });
    assert_eq!(mode(&["kitsupin", "--background"]), StartMode::Run { background: true });
    assert_eq!(mode(&["kitsupin", "--version", "-h"]), StartMode::Help);
    assert_eq!(mode(&["kitsupin", "-v"]), StartMode::Version);
    assert_eq!(mode(&["kitsupin", "--diagnose"]), StartMode::Diagnose);
    assert_eq!(
        mode(&["kitsupin", "chrome-extension://abc/", "--help"]),
        StartMode::NativeHost
    );
}

#[test]
fn labels_and_paths_are_fixed() {
    assert_eq!(tray_tooltip(true), "KitsuPin — запись приостановлена");
    assert_eq!(pause_label(false), "Приостановить запись истории");
    assert_eq!(instance_lock_path("/d"), "/d/kitsupin.lock");
    assert_eq!(single_instance_socket_path("/d"), "/d/app.sock");
    assert!(asks_to_show(" show_main\n"));
    assert!(!asks_to_show("rm"));
}

#[test]
fn copying_counts_only_what_was_written() {
    let mut repo = Repository::open_in_memory();
    let mut guard = OwnCopyGuard::default();
    let id = repo
        .upsert_clip(NewClip { content: "text", domain: None, page_title: None, now: 1_000 })
        .unwrap()
        .0
        .id;
    let failed = copy_clip(&mut repo, &mut guard, &id, 2_000, |_: &ClipboardPayload| Err("no"));
    assert!(matches!(failed, Err(CopyError::NotWritten("no"))));
    assert_eq!(repo.clip_rows()[0].copy_count, 1);
    let copied: Result<(), CopyError<&str>> =
        copy_clip(&mut repo, &mut guard, &id, 2_000, |payload: &ClipboardPayload| {
            match payload {
                ClipboardPayload::Text(text) if text == "text" => Ok(()),
                _ => Err("wrong payload"),
            }
        });
    assert!(copied.is_ok());
    assert_eq!(repo.clip_rows()[0].copy_count, 2);
    let unknown: Result<(), CopyError<&str>> =
        copy_clip(&mut repo, &mut guard, "none", 2_000, |_: &ClipboardPayload| Ok(()));
    assert!(matches!(unknown, Err(CopyError::Unreadable(RepositoryError::ClipNotFound))));
}

#[test]
fn windows_open_with_the_latest_clips() {
    let mut repo = Repository::open_in_memory();
    for i in 0..20 {
        let content = format!("clip {i}");
        repo.upsert_clip(NewClip { content: &content, domain: None, page_title: None, now: i })
            .unwrap();
    }
    let (store, _) = SettingsStore::load("/d", SettingsFile::Missing);
    let popup = bootstrap(&repo, &store, true).unwrap();
    assert_eq!(popup.clips.len(), 16);
    assert_eq!(popup.clips[0].preview, "clip 19");
    assert!(!popup.invalid_settings_warning);
    assert_eq!(bootstrap(&repo, &store, false).unwrap().clips.len(), 20);
}

#[test]
fn cleanup_is_skipped_with_invalid_settings() {
    let mut repo = Repository::open_in_memory();
    repo.upsert_clip(NewClip { content: "old", domain: None, page_title: None, now: 0 }).unwrap();
    let mut settings = Settings::default();
    settings.retention_days = 0;
    let now = 1_000 * 86_400_000;
    assert!(clean(&mut repo, &settings, now).is_none());
    settings.retention_days = 90;
    assert_eq!(clean(&mut repo, &settings, now).unwrap().removed, 1);
}

#[test]
fn the_entry_of_the_user_counts_first() {
    assert!(!is_autostart_actual_enabled(Some(DISABLED_ENTRY), true));
    assert!(!is_autostart_actual_enabled(None, false));
    assert!(is_autostart_actual_enabled(None, true));
    match set_autostart(true, false, false, "/usr/bin/kitsupin") {
        AutostartAction::Write(entry) => {
            assert!(is_autostart_actual_enabled(Some(entry.as_str()), false))
        }
        _ => panic!("expected an entry"),
    }
}

#[test]
fn the_running_application_is_asked_four_times() {
    let pauses: Vec<Option<u64>> = (0..4).map(signal_retry).collect();
    assert_eq!(pauses, [Some(100), Some(100), Some(100), None]);
}
