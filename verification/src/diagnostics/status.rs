//! What is set up and what is not.

use crate::diagnostics::manifest;
use crate::diagnostics::manifest::{validate_manifest_content, FileMode};
use crate::diagnostics::SYSTEM_NATIVE_HOST_PATH;
use crate::json;
use crate::text;
use crate::text::equals_ignoring_ascii_case;
use vstd::prelude::*;

verus! {

/// Something the user should know of; `severity` is `error`, `warning` or `info`.
#[derive(Debug, PartialEq, Eq)]
pub struct IntegrationProblem {
    pub id: String,
    pub severity: String,
    pub title: String,
    pub description: String,
    pub action: Option<String>,
}

#[verifier::ext_equal]
pub struct ProblemView {
    pub id: Seq<char>,
    pub severity: Seq<char>,
    pub title: Seq<char>,
    pub description: Seq<char>,
    pub action: Option<Seq<char>>,
}

impl View for IntegrationProblem {
    type V = ProblemView;

    open spec fn view(&self) -> ProblemView {
        ProblemView {
            id: self.id@,
            severity: self.severity@,
            title: self.title@,
            description: self.description@,
            action: text::text_of(self.action),
        }
    }
}

pub open spec fn problem_views(problems: Seq<IntegrationProblem>) -> Seq<ProblemView> {
    problems.map_values(|problem: IntegrationProblem| problem@)
}

/// What was found where a manifest may lie.
#[derive(Debug, PartialEq, Eq)]
pub struct ManifestCheck {
    pub exists: bool,
    /// The extension that a valid manifest lets in.
    pub extension_id: Option<String>,
}

impl ManifestCheck {
    pub open spec fn valid(self) -> bool {
        self.extension_id is Some
    }
}

/// What the session, the file system and the browser have told.
#[derive(Debug)]
pub struct IntegrationFacts {
    pub is_linux: bool,
    pub desktop_environment: Option<String>,
    pub session_type: Option<String>,
    /// Whether an X display is known.
    pub has_display: bool,
    pub chrome_detected: bool,
    /// Whether the native host that was found may be executed.
    pub native_host: Option<bool>,
    pub system_chrome: ManifestCheck,
    pub system_chromium: ManifestCheck,
    pub user_chrome: ManifestCheck,
    pub user_chromium: ManifestCheck,
    pub native_socket_available: bool,
    pub last_native_message_at: Option<i64>,
    pub shortcut_registered: Option<bool>,
    pub autostart_enabled: bool,
}

/// The state of the integration.
#[derive(Debug, PartialEq, Eq)]
pub struct IntegrationStatus {
    pub is_linux: bool,
    pub desktop_environment: Option<String>,
    pub session_type: Option<String>,
    pub is_supported_x11: bool,
    pub chrome_detected: bool,
    pub extension_id: Option<String>,
    pub native_host_binary_exists: bool,
    pub native_host_executable: bool,
    pub native_manifest_exists: bool,
    pub native_manifest_valid: bool,
    pub chrome_manifest_valid: bool,
    pub chromium_manifest_valid: bool,
    pub native_socket_available: bool,
    pub native_messaging_configured: bool,
    pub native_messaging_connected: bool,
    pub last_native_message_at: Option<i64>,
    pub shortcut_registered: Option<bool>,
    pub autostart_enabled: bool,
    pub problems: Vec<IntegrationProblem>,
}

impl IntegrationFacts {
    pub open spec fn is_x11(self) -> bool {
        match self.session_type {
            Some(session_type) => text::same_ignoring_ascii_case(session_type@, "x11"@),
            None => self.has_display,
        }
    }

    pub open spec fn chrome_valid(self) -> bool {
        self.system_chrome.valid() || self.user_chrome.valid()
    }

    pub open spec fn chromium_valid(self) -> bool {
        self.system_chromium.valid() || self.user_chromium.valid()
    }

    pub open spec fn manifest_valid(self) -> bool {
        self.chrome_valid() || self.chromium_valid()
    }

    pub open spec fn manifest_exists(self) -> bool {
        self.system_chrome.exists || self.system_chromium.exists || self.user_chrome.exists
            || self.user_chromium.exists
    }

    /// The extension of the first valid manifest: those for all users come before the user's,
    /// and Chrome's before Chromium's.
    pub open spec fn extension(self) -> Option<Seq<char>> {
        if self.system_chrome.valid() {
            text::text_of(self.system_chrome.extension_id)
        } else if self.system_chromium.valid() {
            text::text_of(self.system_chromium.extension_id)
        } else if self.user_chrome.valid() {
            text::text_of(self.user_chrome.extension_id)
        } else {
            text::text_of(self.user_chromium.extension_id)
        }
    }

    pub open spec fn configured(self) -> bool {
        self.native_socket_available && self.manifest_valid()
    }

    /// Every problem with the condition under which it is reported, in the order of the report.
    pub open spec fn checklist(self) -> Seq<(bool, ProblemView)> {
        seq![
            (
                !self.is_linux,
                problem_of(
                    "os_not_linux"@,
                    "error"@,
                    "Операционная система не Linux"@,
                    "KitsuPin официально поддерживается только в Linux (Ubuntu 24.04)."@,
                    None,
                ),
            ),
            (
                !self.is_x11(),
                problem_of(
                    "wayland_session"@,
                    "warning"@,
                    "Сеанс Wayland обнаружен"@,
                    "В сеансе Wayland глобальные горячие клавиши и доступ к буферу обмена X11 могут работать с ограничениями. Рекомендуется сеанс X11."@,
                    None,
                ),
            ),
            (
                !self.chrome_detected,
                problem_of(
                    "chrome_missing"@,
                    "warning"@,
                    "Google Chrome не найден"@,
                    "Установите Google Chrome для автоматической привязки заголовков страниц и доменов к истории буфера."@,
                    None,
                ),
            ),
            (
                self.native_host is None,
                problem_of(
                    "native_host_missing"@,
                    "error"@,
                    "Native Host не установлен"@,
                    "Файл бинарного хоста не найден по пути "@ + SYSTEM_NATIVE_HOST_PATH@ + "."@,
                    None,
                ),
            ),
            (
                self.native_host == Some(false),
                problem_of(
                    "native_host_not_executable"@,
                    "error"@,
                    "Нет прав на исполнение Native Host"@,
                    "Бинарный файл kitsupin-native-host не имеет флага исполняемого файла (+x)."@,
                    None,
                ),
            ),
            (
                !self.manifest_exists(),
                problem_of(
                    "manifest_missing"@,
                    "warning"@,
                    "Native Messaging manifest отсутствует"@,
                    "Chrome-расширение не сможет подключиться к KitsuPin. Введите ID расширения или используйте production .deb пакет."@,
                    Some("configure_id"@),
                ),
            ),
            (
                self.manifest_exists() && !self.manifest_valid(),
                problem_of(
                    "manifest_invalid"@,
                    "error"@,
                    "Некорректный Native Messaging manifest"@,
                    "Манифест найден, но содержит недействительный ID расширения или путь к хосту."@,
                    Some("configure_id"@),
                ),
            ),
            (
                !self.native_socket_available,
                problem_of(
                    "socket_unavailable"@,
                    "error"@,
                    "Сокет приложения недоступен"@,
                    "Фоновый поток чтения метаданных браузера не смог открыть UNIX socket."@,
                    None,
                ),
            ),
            (
                self.shortcut_registered == Some(false),
                problem_of(
                    "shortcut_conflict"@,
                    "warning"@,
                    "Горячая клавиша не зарегистрирована"@,
                    "Глобальная сочетание клавиш занято другим приложением или не поддерживается окружением."@,
                    Some("open_shortcut_settings"@),
                ),
            ),
            (
                !self.autostart_enabled,
                problem_of(
                    "autostart_disabled"@,
                    "info"@,
                    "Автозапуск отключён"@,
                    "KitsuPin не будет запускаться автоматически при входе в систему."@,
                    Some("enable_autostart"@),
                ),
            ),
        ]
    }

    /// The first `count` entries of the checklist whose condition holds.
    pub open spec fn reported(self, count: int) -> Seq<ProblemView>
        decreases count,
    {
        if count <= 0 {
            Seq::empty()
        } else {
            let (holds, problem) = self.checklist()[count - 1];
            if holds {
                self.reported(count - 1).push(problem)
            } else {
                self.reported(count - 1)
            }
        }
    }
}

/// The number of entries of the checklist.
pub const CHECKS: usize = 10;

pub open spec fn problem_of(
    id: Seq<char>,
    severity: Seq<char>,
    title: Seq<char>,
    description: Seq<char>,
    action: Option<Seq<char>>,
) -> ProblemView {
    ProblemView { id, severity, title, description, action }
}

fn problem(id: &str, severity: &str, title: &str, description: &str, action: Option<&str>) -> (problem:
    IntegrationProblem)
    ensures
        problem@ == problem_of(id@, severity@, title@, description@, text::slice_of(action)),
{
    IntegrationProblem {
        id: id.to_owned(),
        severity: severity.to_owned(),
        title: title.to_owned(),
        description: description.to_owned(),
        action: match action {
            Some(action) => Some(action.to_owned()),
            None => None,
        },
    }
}

/// Adds a problem where its condition holds.
fn report(problems: &mut Vec<IntegrationProblem>, holds: bool, found: IntegrationProblem)
    ensures
        problem_views(final(problems)@) == (if holds {
            problem_views(old(problems)@).push(found@)
        } else {
            problem_views(old(problems)@)
        }),
{
    if holds {
        problems.push(found);
        assert(problem_views(problems@) =~= problem_views(old(problems)@).push(found@));
    }
}

fn clone_text(value: &Option<String>) -> (copy: Option<String>)
    ensures
        copy == *value,
{
    match value {
        Some(text) => Some(text.clone()),
        None => None,
    }
}

/// What reading a manifest comes to. `content` is the text of an existing manifest that can be
/// read; `probe` tells the state of the file that it names.
pub fn check_manifest<F: FnOnce(&str) -> Option<FileMode>>(
    present: bool,
    content: Option<&str>,
    probe: F,
) -> (check: ManifestCheck)
    requires
        forall|target: &str| #[trigger] call_requires(probe, (target,)),
    ensures
        check.exists == present,
        !present || content is None ==> check.extension_id is None,
        present && content is Some ==> exists|result: Result<String, manifest::ManifestError>|
            {
                &&& #[trigger] manifest::members_checked(
                    json::json_member(content->0@, "name"@),
                    json::json_member(content->0@, "type"@),
                    json::json_member(content->0@, "path"@),
                    json::json_member(content->0@, "allowed_origins"@),
                    probe,
                    result,
                )
                &&& check.extension_id == match result {
                    Ok(id) => Some(id),
                    Err(_) => None,
                }
            },
{
    let mut extension_id: Option<String> = None;
    if present {
        match content {
            Some(content) => match validate_manifest_content(content, probe) {
                Ok(id) => {
                    extension_id = Some(id);
                },
                Err(_) => {},
            },
            None => {},
        }
    }
    ManifestCheck { exists: present, extension_id }
}

/// The problems of the checklist whose condition holds.
fn find_problems(
    facts: &IntegrationFacts,
    is_supported_x11: bool,
    native_manifest_exists: bool,
    native_manifest_valid: bool,
) -> (problems: Vec<IntegrationProblem>)
    requires
        is_supported_x11 == facts.is_x11(),
        native_manifest_exists == facts.manifest_exists(),
        native_manifest_valid == facts.manifest_valid(),
    ensures
        problem_views(problems@) == facts.reported(CHECKS as int),
{
    let mut problems: Vec<IntegrationProblem> = Vec::new();
    proof {
        assert(problem_views(problems@) =~= facts.reported(0));
    }
    report(
        &mut problems,
        !facts.is_linux,
        problem(
            "os_not_linux",
            "error",
            "Операционная система не Linux",
            "KitsuPin официально поддерживается только в Linux (Ubuntu 24.04).",
            None,
        ),
    );
    assert(problem_views(problems@) =~= facts.reported(1));
    report(
        &mut problems,
        !is_supported_x11,
        problem(
            "wayland_session",
            "warning",
            "Сеанс Wayland обнаружен",
            "В сеансе Wayland глобальные горячие клавиши и доступ к буферу обмена X11 могут работать с ограничениями. Рекомендуется сеанс X11.",
            None,
        ),
    );
    assert(problem_views(problems@) =~= facts.reported(2));
    report(
        &mut problems,
        !facts.chrome_detected,
        problem(
            "chrome_missing",
            "warning",
            "Google Chrome не найден",
            "Установите Google Chrome для автоматической привязки заголовков страниц и доменов к истории буфера.",
            None,
        ),
    );
    assert(problem_views(problems@) =~= facts.reported(3));
    let mut missing = "Файл бинарного хоста не найден по пути ".to_owned();
    missing.push_str(SYSTEM_NATIVE_HOST_PATH);
    missing.push_str(".");
    report(
        &mut problems,
        facts.native_host.is_none(),
        problem(
            "native_host_missing",
            "error",
            "Native Host не установлен",
            missing.as_str(),
            None,
        ),
    );
    assert(problem_views(problems@) =~= facts.reported(4));
    report(
        &mut problems,
        match facts.native_host {
            Some(executable) => !executable,
            None => false,
        },
        problem(
            "native_host_not_executable",
            "error",
            "Нет прав на исполнение Native Host",
            "Бинарный файл kitsupin-native-host не имеет флага исполняемого файла (+x).",
            None,
        ),
    );
    assert(problem_views(problems@) =~= facts.reported(5));
    report(
        &mut problems,
        !native_manifest_exists,
        problem(
            "manifest_missing",
            "warning",
            "Native Messaging manifest отсутствует",
            "Chrome-расширение не сможет подключиться к KitsuPin. Введите ID расширения или используйте production .deb пакет.",
            Some("configure_id"),
        ),
    );
    assert(problem_views(problems@) =~= facts.reported(6));
    report(
        &mut problems,
        native_manifest_exists && !native_manifest_valid,
        problem(
            "manifest_invalid",
            "error",
            "Некорректный Native Messaging manifest",
            "Манифест найден, но содержит недействительный ID расширения или путь к хосту.",
            Some("configure_id"),
        ),
    );
    assert(problem_views(problems@) =~= facts.reported(7));
    report(
        &mut problems,
        !facts.native_socket_available,
        problem(
            "socket_unavailable",
            "error",
            "Сокет приложения недоступен",
            "Фоновый поток чтения метаданных браузера не смог открыть UNIX socket.",
            None,
        ),
    );
    assert(problem_views(problems@) =~= facts.reported(8));
    report(
        &mut problems,
        match facts.shortcut_registered {
            Some(registered) => !registered,
            None => false,
        },
        problem(
            "shortcut_conflict",
            "warning",
            "Горячая клавиша не зарегистрирована",
            "Глобальная сочетание клавиш занято другим приложением или не поддерживается окружением.",
            Some("open_shortcut_settings"),
        ),
    );
    assert(problem_views(problems@) =~= facts.reported(9));
    report(
        &mut problems,
        !facts.autostart_enabled,
        problem(
            "autostart_disabled",
            "info",
            "Автозапуск отключён",
            "KitsuPin не будет запускаться автоматически при входе в систему.",
            Some("enable_autostart"),
        ),
    );
    assert(problem_views(problems@) =~= facts.reported(10));
    problems
}

/// The state of the integration, with every problem that was found.
pub fn get_integration_status(facts: IntegrationFacts) -> (status: IntegrationStatus)
    ensures
        status.is_linux == facts.is_linux,
        status.desktop_environment == facts.desktop_environment,
        status.session_type == facts.session_type,
        status.is_supported_x11 == facts.is_x11(),
        status.chrome_detected == facts.chrome_detected,
        text::text_of(status.extension_id) == facts.extension(),
        status.native_host_binary_exists == (facts.native_host is Some),
        status.native_host_executable == (facts.native_host == Some(true)),
        status.native_manifest_exists == facts.manifest_exists(),
        status.native_manifest_valid == facts.manifest_valid(),
        status.chrome_manifest_valid == facts.chrome_valid(),
        status.chromium_manifest_valid == facts.chromium_valid(),
        status.native_socket_available == facts.native_socket_available,
        status.native_messaging_configured == facts.configured(),
        status.native_messaging_connected == (facts.configured()
            && facts.last_native_message_at is Some),
        status.last_native_message_at == facts.last_native_message_at,
        status.shortcut_registered == facts.shortcut_registered,
        status.autostart_enabled == facts.autostart_enabled,
        problem_views(status.problems@) == facts.reported(CHECKS as int),
{
    let is_supported_x11 = match &facts.session_type {
        Some(session_type) => equals_ignoring_ascii_case(session_type.as_str(), "x11"),
        None => facts.has_display,
    };
    let native_host_binary_exists = facts.native_host.is_some();
    let native_host_executable = match facts.native_host {
        Some(executable) => executable,
        None => false,
    };
    let chrome_manifest_valid = facts.system_chrome.extension_id.is_some()
        || facts.user_chrome.extension_id.is_some();
    let chromium_manifest_valid = facts.system_chromium.extension_id.is_some()
        || facts.user_chromium.extension_id.is_some();
    let native_manifest_exists = facts.system_chrome.exists || facts.system_chromium.exists
        || facts.user_chrome.exists || facts.user_chromium.exists;
    let native_manifest_valid = chrome_manifest_valid || chromium_manifest_valid;
    let extension_id = if facts.system_chrome.extension_id.is_some() {
        clone_text(&facts.system_chrome.extension_id)
    } else if facts.system_chromium.extension_id.is_some() {
        clone_text(&facts.system_chromium.extension_id)
    } else if facts.user_chrome.extension_id.is_some() {
        clone_text(&facts.user_chrome.extension_id)
    } else {
        clone_text(&facts.user_chromium.extension_id)
    };
    let native_messaging_configured = facts.native_socket_available && native_manifest_valid;
    let native_messaging_connected = native_messaging_configured
        && facts.last_native_message_at.is_some();

    let problems = find_problems(
        &facts,
        is_supported_x11,
        native_manifest_exists,
        native_manifest_valid,
    );
    IntegrationStatus {
        is_linux: facts.is_linux,
        desktop_environment: facts.desktop_environment,
        session_type: facts.session_type,
        is_supported_x11,
        chrome_detected: facts.chrome_detected,
        extension_id,
        native_host_binary_exists,
        native_host_executable,
        native_manifest_exists,
        native_manifest_valid,
        chrome_manifest_valid,
        chromium_manifest_valid,
        native_socket_available: facts.native_socket_available,
        native_messaging_configured,
        native_messaging_connected,
        last_native_message_at: facts.last_native_message_at,
        shortcut_registered: facts.shortcut_registered,
        autostart_enabled: facts.autostart_enabled,
        problems,
    }
}

/// The exit code of a diagnosis: one if an error was reported.
pub fn diagnose_exit_code(status: &IntegrationStatus) -> (code: i32)
    ensures
        code == (if exists|i: int|
            0 <= i < status.problems@.len() && (#[trigger] status.problems@[i]).severity@
                == "error"@ {
            1i32
        } else {
            0i32
        }),
{
    let mut i: usize = 0;
    while i < status.problems.len()
        invariant
            i <= status.problems@.len(),
            forall|k: int|
                0 <= k < i ==> (#[trigger] status.problems@[k]).severity@ != "error"@,
        decreases status.problems@.len() - i,
    {
        if crate::text::same_text(status.problems[i].severity.as_str(), "error") {
            return 1;
        }
        i += 1;
    }
    0
}

} // verus!
