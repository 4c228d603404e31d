//! The user's settings, where they are kept, and starting with the session.

use crate::blob_store;
use crate::blob_store::join_path;
use crate::persistence::cleanup::MAX_RETENTION_DAYS;
use crate::text;
use crate::text::has_text;
use vstd::prelude::*;

verus! {

pub const DEFAULT_SHORTCUT: &'static str = "Super+V";

pub const DEFAULT_RETENTION_DAYS: u32 = 90;

/// The entry that starts the application for all users.
pub const SYSTEM_AUTOSTART_PATH: &'static str = "/etc/xdg/autostart/kitsupin.desktop";

#[derive(Debug)]
pub struct Settings {
    pub paused: bool,
    pub autostart: bool,
    pub shortcut: String,
    pub retention_days: u32,
    pub excluded_apps: Vec<String>,
}

#[verifier::ext_equal]
pub struct SettingsView {
    pub paused: bool,
    pub autostart: bool,
    pub shortcut: Seq<char>,
    pub retention_days: u32,
    pub excluded_apps: Seq<Seq<char>>,
}

impl View for Settings {
    type V = SettingsView;

    open spec fn view(&self) -> SettingsView {
        SettingsView {
            paused: self.paused,
            autostart: self.autostart,
            shortcut: self.shortcut@,
            retention_days: self.retention_days,
            excluded_apps: text::texts_of(self.excluded_apps@),
        }
    }
}

impl SettingsView {
    pub open spec fn valid(self) -> bool {
        1 <= self.retention_days <= MAX_RETENTION_DAYS
    }

    pub open spec fn default_settings() -> SettingsView {
        SettingsView {
            paused: false,
            autostart: true,
            shortcut: DEFAULT_SHORTCUT@,
            retention_days: DEFAULT_RETENTION_DAYS,
            excluded_apps: Seq::empty(),
        }
    }
}

impl Clone for Settings {
    fn clone(&self) -> (copy: Self)
        ensures
            copy@ == self@,
    {
        let mut excluded_apps: Vec<String> = Vec::new();
        let mut i: usize = 0;
        while i < self.excluded_apps.len()
            invariant
                i <= self.excluded_apps@.len(),
                text::texts_of(excluded_apps@) =~= text::texts_of(self.excluded_apps@).take(
                    i as int,
                ),
            decreases self.excluded_apps@.len() - i,
        {
            let ghost before = excluded_apps@;
            excluded_apps.push(self.excluded_apps[i].clone());
            proof {
                assert(text::texts_of(excluded_apps@) =~= text::texts_of(before).push(
                    self.excluded_apps@[i as int]@,
                ));
            }
            i += 1;
        }
        proof {
            assert(text::texts_of(excluded_apps@) =~= text::texts_of(self.excluded_apps@));
        }
        Settings {
            paused: self.paused,
            autostart: self.autostart,
            shortcut: self.shortcut.clone(),
            retention_days: self.retention_days,
            excluded_apps,
        }
    }
}

impl Default for Settings {
    fn default() -> (settings: Self)
        ensures
            settings@ == SettingsView::default_settings(),
    {
        let settings = Settings {
            paused: false,
            autostart: true,
            shortcut: DEFAULT_SHORTCUT.to_owned(),
            retention_days: DEFAULT_RETENTION_DAYS,
            excluded_apps: Vec::new(),
        };
        assert(text::texts_of(settings.excluded_apps@) =~= Seq::empty());
        settings
    }
}

#[derive(Debug, Clone, Copy, PartialEq, Eq, Structural)]
pub enum SettingsError {
    /// Clips cannot be kept for so long, or for no time at all.
    RetentionOutOfRange,
    /// The settings file could not be written.
    WriteFailed,
    /// Neither a configuration directory nor a home directory is known.
    NoConfigDirectory,
}

impl SettingsError {
    pub open spec fn text(self) -> Seq<char> {
        match self {
            SettingsError::RetentionOutOfRange => "срок хранения вне диапазона"@,
            SettingsError::WriteFailed => "не удалось записать settings.json"@,
            SettingsError::NoConfigDirectory => "XDG config directory недоступен"@,
        }
    }

    pub fn message(&self) -> (message: &'static str)
        ensures
            message@ == self.text(),
    {
        match self {
            SettingsError::RetentionOutOfRange => "срок хранения вне диапазона",
            SettingsError::WriteFailed => "не удалось записать settings.json",
            SettingsError::NoConfigDirectory => "XDG config directory недоступен",
        }
    }
}

impl Settings {
    pub fn is_valid(&self) -> (valid: bool)
        ensures
            valid == self@.valid(),
    {
        1 <= self.retention_days && self.retention_days <= MAX_RETENTION_DAYS
    }

    pub fn validate(&self) -> (result: Result<(), SettingsError>)
        ensures
            if self@.valid() {
                result is Ok
            } else {
                result == Err::<(), SettingsError>(SettingsError::RetentionOutOfRange)
            },
    {
        if self.is_valid() {
            Ok(())
        } else {
            Err(SettingsError::RetentionOutOfRange)
        }
    }
}

/// What was found where the settings are kept. What the text of the file denotes, if it denotes
/// settings at all, comes with it.
#[derive(Debug)]
pub enum SettingsFile {
    Missing,
    Unreadable,
    Present { raw: String, parsed: Option<Settings> },
}

/// The settings, whether the user is to be told that they were reset, and what is to be written:
/// the text to be kept aside, and whether the settings file is to be replaced.
#[derive(Debug)]
pub struct LoadedSettings {
    pub value: Settings,
    pub has_invalid_warning: bool,
    pub backup: Option<String>,
}

impl SettingsFile {
    /// Settings that can be used as they are.
    pub open spec fn usable(self) -> Option<SettingsView> {
        match self {
            SettingsFile::Present { parsed: Some(settings), .. } if settings@.valid() => Some(
                settings@,
            ),
            _ => None,
        }
    }
}

/// Usable settings are taken. A file that holds none is kept aside and replaced by the default
/// settings, with a warning; a file that is missing or cannot be read is not touched.
pub fn load_settings(file: SettingsFile) -> (loaded: LoadedSettings)
    ensures
        loaded.value@ == match file.usable() {
            Some(settings) => settings,
            None => SettingsView::default_settings(),
        },
        loaded.value@.valid(),
        loaded.has_invalid_warning == (file is Present && file.usable() is None),
        match file {
            SettingsFile::Present { raw, .. } if file.usable() is None => text::text_of(
                loaded.backup,
            ) == Some(raw@),
            _ => loaded.backup is None,
        },
{
    match file {
        SettingsFile::Present { raw, parsed } => {
            match parsed {
                Some(settings) => {
                    if settings.is_valid() {
                        return LoadedSettings {
                            value: settings,
                            has_invalid_warning: false,
                            backup: None,
                        };
                    }
                },
                None => {},
            }
            LoadedSettings {
                value: Settings::default(),
                has_invalid_warning: true,
                backup: Some(raw),
            }
        },
        _ => LoadedSettings { value: Settings::default(), has_invalid_warning: false, backup: None },
    }
}

/// The settings in force and the file they are kept in.
pub struct SettingsStore {
    path: String,
    value: Settings,
    has_invalid_warning: bool,
}

#[verifier::ext_equal]
pub struct StoreView {
    pub path: Seq<char>,
    pub value: SettingsView,
    pub has_invalid_warning: bool,
}

impl View for SettingsStore {
    type V = StoreView;

    closed spec fn view(&self) -> StoreView {
        StoreView {
            path: self.path@,
            value: self.value@,
            has_invalid_warning: self.has_invalid_warning,
        }
    }
}

/// Where the settings are kept.
pub fn settings_path(data_dir: &str) -> (path: String)
    ensures
        path@ == blob_store::joined(data_dir@, "settings.json"@),
{
    join_path(data_dir, "settings.json")
}

/// Where settings that could not be used are kept aside.
pub fn invalid_settings_path(data_dir: &str) -> (path: String)
    ensures
        path@ == blob_store::joined(data_dir@, "settings.invalid.json"@),
{
    join_path(data_dir, "settings.invalid.json")
}

impl SettingsStore {
    /// The settings found in a directory, and the text to be kept aside before the default
    /// settings are written, if they have to be.
    pub fn load(data_dir: &str, file: SettingsFile) -> (loaded: (Self, Option<String>))
        ensures
            loaded.0@.path == blob_store::joined(data_dir@, "settings.json"@),
            loaded.0@.value == match file.usable() {
                Some(settings) => settings,
                None => SettingsView::default_settings(),
            },
            loaded.0@.value.valid(),
            loaded.0@.has_invalid_warning == (file is Present && file.usable() is None),
            match file {
                SettingsFile::Present { raw, .. } if file.usable() is None => text::text_of(
                    loaded.1,
                ) == Some(raw@),
                _ => loaded.1 is None,
            },
    {
        let found = load_settings(file);
        (
            SettingsStore {
                path: settings_path(data_dir),
                value: found.value,
                has_invalid_warning: found.has_invalid_warning,
            },
            found.backup,
        )
    }

    pub fn has_invalid_warning(&self) -> (warning: bool)
        ensures
            warning == self@.has_invalid_warning,
    {
        self.has_invalid_warning
    }

    /// Whether the warning is still to be shown; it is shown once.
    pub fn consume_invalid_warning(&mut self) -> (warning: bool)
        ensures
            warning == old(self)@.has_invalid_warning,
            final(self)@ == (StoreView { has_invalid_warning: false, ..old(self)@ }),
    {
        let warning = self.has_invalid_warning;
        self.has_invalid_warning = false;
        warning
    }

    pub fn get(&self) -> (settings: Settings)
        ensures
            settings@ == self@.value,
    {
        self.value.clone()
    }

    /// Writes settings with `write`, which is given the path and the settings and tells whether
    /// they were written, and puts them in force. Settings that cannot be used are not written.
    pub fn save<F: FnOnce(&str, &Settings) -> bool>(&mut self, value: Settings, write: F) -> (result:
        Result<(), SettingsError>)
        requires
            forall|path: &str, settings: &Settings| #[trigger]
                call_requires(write, (path, settings)),
        ensures
            !value@.valid() ==> result == Err::<(), SettingsError>(
                SettingsError::RetentionOutOfRange,
            ),
            !value@.valid() ==> final(self)@ == old(self)@,
            value@.valid() ==> exists|path: &str, settings: &Settings, written: bool|
                {
                    &&& #[trigger] call_ensures(write, (path, settings), written)
                    &&& path@ == old(self)@.path
                    &&& settings@ == value@
                    &&& result == (if written {
                        Ok(())
                    } else {
                        Err(SettingsError::WriteFailed)
                    })
                    &&& final(self)@ == (if written {
                        StoreView { value: value@, ..old(self)@ }
                    } else {
                        old(self)@
                    })
                },
    {
        if !value.is_valid() {
            return Err(SettingsError::RetentionOutOfRange);
        }
        if !write(self.path.as_str(), &value) {
            return Err(SettingsError::WriteFailed);
        }
        self.value = value;
        Ok(())
    }
}

/// The configuration directory: the given one, else that of the home directory.
pub open spec fn config_directory(config: Option<Seq<char>>, home: Option<Seq<char>>) -> Option<
    Seq<char>,
> {
    match (config, home) {
        (Some(config), _) => Some(config),
        (None, Some(home)) => Some(blob_store::joined(home, ".config"@)),
        (None, None) => None,
    }
}

pub fn config_home(config: Option<&str>, home: Option<&str>) -> (directory: Option<String>)
    ensures
        text::text_of(directory) == config_directory(text::slice_of(config), text::slice_of(home)),
{
    match (config, home) {
        (Some(config), _) => Some(config.to_owned()),
        (None, Some(home)) => Some(join_path(home, ".config")),
        (None, None) => None,
    }
}

/// Where the user's entry for starting with the session lies.
pub fn autostart_path(config: Option<&str>, home: Option<&str>) -> (result: Result<
    String,
    SettingsError,
>)
    ensures
        match config_directory(text::slice_of(config), text::slice_of(home)) {
            Some(directory) => result matches Ok(path) && path@ == blob_store::joined(
                directory,
                "autostart/kitsupin.desktop"@,
            ),
            None => result == Err::<String, SettingsError>(SettingsError::NoConfigDirectory),
        },
{
    match config_home(config, home) {
        Some(directory) => Ok(join_path(directory.as_str(), "autostart/kitsupin.desktop")),
        None => Err(SettingsError::NoConfigDirectory),
    }
}

/// What is to be done with the user's entry for starting with the session.
#[derive(Debug)]
pub enum AutostartAction {
    /// The entry is as it should be.
    Keep,
    /// The entry is removed; the one for all users counts.
    Remove,
    /// The entry is written with this text.
    Write(String),
}

/// The entry that starts the application in the background.
pub open spec fn enabled_entry(exe: Seq<char>) -> Seq<char> {
    "[Desktop Entry]\nType=Application\nName=KitsuPin\nComment=История буфера обмена\nExec="@ + exe
        + " --background\nTerminal=false\nX-GNOME-Autostart-enabled=true\nOnlyShowIn=KDE;\n"@
}

/// The entry that keeps the application from being started.
pub const DISABLED_ENTRY: &'static str =
    "[Desktop Entry]\nType=Application\nName=KitsuPin\nHidden=true\n";

/// Starting with the session is switched on or off by the user's entry, unless the entry for all
/// users switches it on already.
pub fn set_autostart(enabled: bool, system_entry: bool, user_entry: bool, exe: &str) -> (action:
    AutostartAction)
    ensures
        match action {
            AutostartAction::Keep => enabled && system_entry && !user_entry,
            AutostartAction::Remove => enabled && system_entry && user_entry,
            AutostartAction::Write(entry) => if enabled {
                !system_entry && entry@ == enabled_entry(exe@)
            } else {
                entry@ == DISABLED_ENTRY@
            },
        },
{
    if enabled && system_entry {
        if user_entry {
            AutostartAction::Remove
        } else {
            AutostartAction::Keep
        }
    } else if enabled {
        let mut entry =
            "[Desktop Entry]\nType=Application\nName=KitsuPin\nComment=История буфера обмена\nExec=".to_owned();
        entry.push_str(exe);
        entry.push_str(
            " --background\nTerminal=false\nX-GNOME-Autostart-enabled=true\nOnlyShowIn=KDE;\n",
        );
        AutostartAction::Write(entry)
    } else {
        AutostartAction::Write(DISABLED_ENTRY.to_owned())
    }
}

/// Whether the application is started with the session: the user's entry says, unless it hides
/// itself; where the user has none, the one for all users does.
pub fn is_autostart_actual_enabled(user_entry: Option<&str>, system_entry: bool) -> (enabled: bool)
    ensures
        enabled == match user_entry {
            Some(entry) => !text::contains_text(entry@, "Hidden=true"@),
            None => system_entry,
        },
{
    match user_entry {
        Some(entry) => !has_text(entry, "Hidden=true"),
        None => system_entry,
    }
}

/// Whatever is found, the settings in force are usable.
pub proof fn loaded_settings_are_valid(file: SettingsFile)
    ensures
        (match file.usable() {
            Some(settings) => settings,
            None => SettingsView::default_settings(),
        }).valid(),
{
}

} // verus!
