//! What the windows and the command line ask for.

pub mod save_settings;

use crate::blob_store;
use crate::blob_store::join_path;
use crate::clipboard;
use crate::clipboard::set_clipboard;
use crate::domain::normalize;
use crate::domain::{Category, ClipQuery, ClipSummary, ClipboardPayload, OwnCopyGuard};
use crate::persistence::query;
use crate::persistence::query::QueryView;
use crate::persistence::summary;
use crate::persistence::{Repository, RepositoryError};
use crate::settings::{Settings, SettingsStore};
use crate::text;
use crate::text::{same_text, starts_with, trim};
use vstd::prelude::*;

verus! {

/// The number of clips that the popup shows first.
pub const POPUP_LIMIT: u32 = 16;

/// The number of clips that the main window shows first.
pub const MAIN_LIMIT: u32 = 60;

/// What a window needs when it opens.
#[derive(Debug)]
pub struct Bootstrap {
    pub clips: Vec<ClipSummary>,
    pub categories: Vec<Category>,
    pub settings: Settings,
    pub invalid_settings_warning: bool,
}

/// The first page of all clips.
pub open spec fn first_page(popup: bool) -> QueryView {
    QueryView {
        search: None,
        content_type: None,
        payload_kind: None,
        domain: None,
        category_id: None,
        limit: Some(
            if popup {
                POPUP_LIMIT
            } else {
                MAIN_LIMIT
            },
        ),
        offset: None,
    }
}

/// The latest clips, the categories and the settings.
pub fn bootstrap(repository: &Repository, settings: &SettingsStore, popup: bool) -> (result: Result<
    Bootstrap,
    RepositoryError,
>)
    requires
        repository@.wf(),
    ensures
        exists|clips: Result<Vec<ClipSummary>, RepositoryError>|
            {
                &&& #[trigger] query::summaries_listed(
                    repository@,
                    repository@.listed(
                        first_page(popup),
                        repository@.indexed(first_page(popup)),
                    ),
                    clips,
                )
                &&& match clips {
                    Ok(clips) => result matches Ok(found) && found.clips == clips
                        && summary::categories_of(found.categories@)
                        == repository@.listed_categories() && found.settings@
                        == settings@.value && found.invalid_settings_warning
                        == settings@.has_invalid_warning,
                    Err(error) => result == Err::<Bootstrap, RepositoryError>(error),
                }
            },
{
    let limit: u32 = if popup {
        POPUP_LIMIT
    } else {
        MAIN_LIMIT
    };
    let mut page = ClipQuery::default();
    page.limit = Some(limit);
    proof {
        assert(page@ =~= first_page(popup));
        query::lemma_no_search_has_no_expression(page@);
    }
    let listed = repository.list_clips(&page);
    let ghost clips = listed;
    match listed {
        Ok(clips) => Ok(
            Bootstrap {
                clips,
                categories: repository.list_categories(),
                settings: settings.get(),
                invalid_settings_warning: settings.has_invalid_warning(),
            },
        ),
        Err(error) => Err(error),
    }
}

/// Why a clip was not put on the clipboard.
#[derive(Debug)]
pub enum CopyError<E> {
    /// The clip could not be read.
    Unreadable(RepositoryError),
    /// The clipboard could not be written; the history has not changed.
    NotWritten(E),
    /// The clipboard was written, but the copy could not be counted.
    NotCounted(RepositoryError),
}

/// The clipboard was written with this text, and the guard knows of it.
pub open spec fn text_written<E, F: FnOnce(&ClipboardPayload) -> Result<(), E>>(
    content: Seq<char>,
    before: crate::domain::self_copy::GuardView,
    after: crate::domain::self_copy::GuardView,
    write: F,
    written: Result<(), E>,
) -> bool {
    exists|payload: &ClipboardPayload, now: u128|
        {
            &&& #[trigger] call_ensures(write, (payload,), written)
            &&& *payload matches ClipboardPayload::Text(text) && text@ == content
            &&& after == #[trigger] clipboard::guarded(
                before,
                now,
                normalize::hash_of(payload.fingerprint_text()),
                written is Ok,
            )
        }
}

/// Puts the text of a clip on the clipboard with `write`, and only then counts the copy.
pub fn copy_clip<E, F: FnOnce(&ClipboardPayload) -> Result<(), E>>(
    repository: &mut Repository,
    guard: &mut OwnCopyGuard,
    id: &str,
    now: i64,
    write: F,
) -> (result: Result<(), CopyError<E>>)
    requires
        old(repository)@.wf(),
        forall|payload: &ClipboardPayload| #[trigger] call_requires(write, (payload,)),
    ensures
        match old(repository)@.text_of_clip(id@) {
            Err(error) => {
                &&& result == Err::<(), CopyError<E>>(CopyError::Unreadable(error))
                &&& final(repository)@ == old(repository)@
                &&& final(guard)@ == old(guard)@
            },
            Ok(content) => exists|written: Result<(), E>|
                {
                    &&& #[trigger] text_written(
                        content,
                        old(guard)@,
                        final(guard)@,
                        write,
                        written,
                    )
                    &&& match (written, old(repository)@.copied(id@, now)) {
                        (Err(error), _) => result == Err::<(), CopyError<E>>(
                            CopyError::NotWritten(error),
                        ) && final(repository)@ == old(repository)@,
                        (Ok(_), Err(error)) => result == Err::<(), CopyError<E>>(
                            CopyError::NotCounted(error),
                        ) && final(repository)@ == old(repository)@,
                        (Ok(_), Ok(next)) => result is Ok && final(repository)@ == next,
                    }
                },
        },
        final(repository)@.wf(),
{
    let content = match repository.get_clip_content(id) {
        Ok(content) => content,
        Err(error) => return Err(CopyError::Unreadable(error)),
    };
    let written = set_clipboard(content.as_str(), guard, write);
    assert(text_written(content@, old(guard)@, guard@, write, written));
    match written {
        Ok(()) => {},
        Err(error) => return Err(CopyError::NotWritten(error)),
    }
    match repository.mark_clip_copied(id, now) {
        Ok(()) => Ok(()),
        Err(error) => Err(CopyError::NotCounted(error)),
    }
}

/// What the program was started for.
#[derive(Debug, Clone, Copy, PartialEq, Eq, Structural)]
pub enum StartMode {
    /// By the browser, as its native host.
    NativeHost,
    Help,
    Version,
    Diagnose,
    /// As the application, with or without showing its window.
    Run { background: bool },
}

pub const HELP_TEXT: &'static str =
    "KitsuPin — Локальная история буфера обмена для KDE X11\n\nИспользование:\n  kitsupin [ОПЦИИ]\n\nОпции:\n  --version    Показать версию приложения и выйти\n  --diagnose   Запустить без GUI и проверить состояние интеграции\n  --background Запустить приложения в свёрнутом режиме (в системном трее)\n  --help, -h   Показать эту справку\n";

pub open spec fn has_argument(arguments: Seq<Seq<char>>, name: Seq<char>) -> bool {
    exists|i: int| 0 <= i < arguments.len() && #[trigger] arguments[i] == name
}

/// The browser names the extension in the first argument; of the options, asking for help comes
/// first, then the version, then the diagnosis.
pub open spec fn mode_of(arguments: Seq<Seq<char>>) -> StartMode {
    if arguments.len() > 1 && text::stands_at(arguments[1], "chrome-extension://"@, 0) {
        StartMode::NativeHost
    } else if has_argument(arguments, "--help"@) || has_argument(arguments, "-h"@) {
        StartMode::Help
    } else if has_argument(arguments, "--version"@) || has_argument(arguments, "-v"@) {
        StartMode::Version
    } else if has_argument(arguments, "--diagnose"@) {
        StartMode::Diagnose
    } else {
        StartMode::Run { background: has_argument(arguments, "--background"@) }
    }
}

fn contains_argument(arguments: &Vec<String>, name: &str) -> (found: bool)
    ensures
        found == has_argument(text::texts_of(arguments@), name@),
{
    let ghost all = text::texts_of(arguments@);
    let mut i: usize = 0;
    while i < arguments.len()
        invariant
            i <= arguments@.len(),
            all == text::texts_of(arguments@),
            forall|k: int| 0 <= k < i ==> #[trigger] all[k] != name@,
        decreases arguments@.len() - i,
    {
        assert(all[i as int] == arguments@[i as int]@);
        if same_text(arguments[i].as_str(), name) {
            return true;
        }
        i += 1;
    }
    false
}

/// What the program was started for, from its arguments, the first being its own name.
pub fn start_mode(arguments: &Vec<String>) -> (mode: StartMode)
    ensures
        mode == mode_of(text::texts_of(arguments@)),
{
    if arguments.len() > 1 && starts_with(arguments[1].as_str(), "chrome-extension://") {
        StartMode::NativeHost
    } else if contains_argument(arguments, "--help") || contains_argument(arguments, "-h") {
        StartMode::Help
    } else if contains_argument(arguments, "--version") || contains_argument(arguments, "-v") {
        StartMode::Version
    } else if contains_argument(arguments, "--diagnose") {
        StartMode::Diagnose
    } else {
        StartMode::Run { background: contains_argument(arguments, "--background") }
    }
}

/// What the icon in the tray says.
pub fn tray_tooltip(paused: bool) -> (tooltip: &'static str)
    ensures
        tooltip@ == (if paused {
            "KitsuPin — запись приостановлена"@
        } else {
            "KitsuPin — история буфера обмена"@
        }),
{
    if paused {
        "KitsuPin — запись приостановлена"
    } else {
        "KitsuPin — история буфера обмена"
    }
}

/// What the entry of the tray's menu that pauses and resumes says.
pub fn pause_label(paused: bool) -> (label: &'static str)
    ensures
        label@ == (if paused {
            "Возобновить запись истории"@
        } else {
            "Приостановить запись истории"@
        }),
{
    if paused {
        "Возобновить запись истории"
    } else {
        "Приостановить запись истории"
    }
}

/// The file that the running application keeps locked.
pub fn instance_lock_path(data_dir: &str) -> (path: String)
    ensures
        path@ == blob_store::joined(data_dir@, "kitsupin.lock"@),
{
    join_path(data_dir, "kitsupin.lock")
}

/// Where the running application is told to show itself.
pub fn single_instance_socket_path(data_dir: &str) -> (path: String)
    ensures
        path@ == blob_store::joined(data_dir@, "app.sock"@),
{
    join_path(data_dir, "app.sock")
}

/// Whether a line tells the running application to show its window; any other is ignored.
pub fn asks_to_show(line: &str) -> (answer: bool)
    ensures
        answer == (text::trimmed(line@) == "show_main"@),
{
    same_text(trim(line).as_str(), "show_main")
}

/// How often the running application is asked again to show its window.
pub const SIGNAL_RETRIES: u32 = 3;

/// The pause before it is asked again, in milliseconds.
pub const SIGNAL_PAUSE_MS: u64 = 100;

/// The pause after an attempt to reach the running application has failed, in milliseconds, where
/// so many attempts had failed before it; `None` if there is no further attempt.
pub fn signal_retry(failures: u32) -> (pause_ms: Option<u64>)
    ensures
        pause_ms == (if failures < SIGNAL_RETRIES {
            Some(SIGNAL_PAUSE_MS)
        } else {
            None
        }),
{
    if failures < SIGNAL_RETRIES {
        Some(SIGNAL_PAUSE_MS)
    } else {
        None
    }
}

} // verus!
