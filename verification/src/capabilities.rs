//! What the session allows, and what has been found to work.

use crate::clipboard::session;
use crate::clipboard::session::{detect_session_type_with_env, SessionType};
use vstd::prelude::*;

verus! {

#[derive(Debug, Clone, PartialEq, Eq)]
pub struct PlatformCapabilities {
    pub session_type: SessionType,
    pub global_clipboard_monitoring: bool,
    pub image_clipboard: bool,
    pub global_shortcuts: bool,
    pub tray: bool,
    pub monitoring_mode_description: String,
}

impl PlatformCapabilities {
    /// What a session of this kind allows: only X11 lets the clipboard be watched and shortcuts
    /// be taken.
    pub open spec fn fits(&self, session: SessionType) -> bool {
        &&& self.session_type == session
        &&& self.global_clipboard_monitoring == (session == SessionType::X11)
        &&& self.image_clipboard
        &&& self.global_shortcuts == (session == SessionType::X11)
        &&& self.tray
        &&& self.monitoring_mode_description@ == mode_description(session)
    }
}

pub open spec fn mode_description(session: SessionType) -> Seq<char> {
    match session {
        SessionType::X11 => "X11 активное фоновое отслеживание буфера обмена (XFixes)"@,
        SessionType::Wayland =>
            "Ограниченный режим Wayland: фоновый мониторинг буфера обмена ограничен политиками безопасности сессии"@,
        SessionType::Unknown =>
            "Неизвестная графическая среда: фоновое отслеживание отключено"@,
    }
}

#[derive(Debug, PartialEq, Eq)]
pub enum CapabilityStatus {
    Available,
    Degraded(String),
    Unavailable,
    Failed(String),
    NotTested,
}

impl Clone for CapabilityStatus {
    fn clone(&self) -> (copy: Self)
        ensures
            copy == *self,
    {
        match self {
            CapabilityStatus::Available => CapabilityStatus::Available,
            CapabilityStatus::Degraded(message) => CapabilityStatus::Degraded(message.clone()),
            CapabilityStatus::Unavailable => CapabilityStatus::Unavailable,
            CapabilityStatus::Failed(message) => CapabilityStatus::Failed(message.clone()),
            CapabilityStatus::NotTested => CapabilityStatus::NotTested,
        }
    }
}

#[derive(Debug, Clone, PartialEq, Eq)]
pub struct RuntimeCapabilities {
    pub platform: PlatformCapabilities,
    pub clipboard_monitoring: CapabilityStatus,
    pub shortcut: CapabilityStatus,
    pub tray: CapabilityStatus,
}

/// What a session of a given kind allows.
pub fn platform_capabilities(session_type: SessionType) -> (capabilities: PlatformCapabilities)
    ensures
        capabilities.fits(session_type),
{
    match session_type {
        SessionType::X11 => PlatformCapabilities {
            session_type,
            global_clipboard_monitoring: true,
            image_clipboard: true,
            global_shortcuts: true,
            tray: true,
            monitoring_mode_description:
                "X11 активное фоновое отслеживание буфера обмена (XFixes)".to_owned(),
        },
        SessionType::Wayland => PlatformCapabilities {
            session_type,
            global_clipboard_monitoring: false,
            image_clipboard: true,
            global_shortcuts: false,
            tray: true,
            monitoring_mode_description:
                "Ограниченный режим Wayland: фоновый мониторинг буфера обмена ограничен политиками безопасности сессии".to_owned(),
        },
        SessionType::Unknown => PlatformCapabilities {
            session_type,
            global_clipboard_monitoring: false,
            image_clipboard: true,
            global_shortcuts: false,
            tray: true,
            monitoring_mode_description:
                "Неизвестная графическая среда: фоновое отслеживание отключено".to_owned(),
        },
    }
}

/// What the session allows whose kind the environment tells.
pub fn get_platform_capabilities_with_env<F: Fn(&str) -> Option<String>>(fetch_env: F) -> (capabilities:
    PlatformCapabilities)
    requires
        forall|key: &str| #[trigger] call_requires(fetch_env, (key,)),
    ensures
        exists|session: SessionType|
            session::detected_with(fetch_env, session) && #[trigger] capabilities.fits(session),
{
    let session_type = detect_session_type_with_env(fetch_env);
    platform_capabilities(session_type)
}

/// What is known before anything has been tried.
pub fn get_runtime_capabilities(platform: PlatformCapabilities) -> (runtime: RuntimeCapabilities)
    ensures
        runtime == (RuntimeCapabilities {
            platform,
            clipboard_monitoring: CapabilityStatus::NotTested,
            shortcut: CapabilityStatus::NotTested,
            tray: CapabilityStatus::NotTested,
        }),
{
    RuntimeCapabilities {
        platform,
        clipboard_monitoring: CapabilityStatus::NotTested,
        shortcut: CapabilityStatus::NotTested,
        tray: CapabilityStatus::NotTested,
    }
}

pub fn update_shortcut_status(runtime: &mut RuntimeCapabilities, status: CapabilityStatus)
    ensures
        *final(runtime) == (RuntimeCapabilities { shortcut: status, ..*old(runtime) }),
{
    runtime.shortcut = status;
}

pub fn update_clipboard_monitoring_status(
    runtime: &mut RuntimeCapabilities,
    status: CapabilityStatus,
)
    ensures
        *final(runtime) == (RuntimeCapabilities { clipboard_monitoring: status, ..*old(runtime) }),
{
    runtime.clipboard_monitoring = status;
}

pub fn update_tray_status(runtime: &mut RuntimeCapabilities, status: CapabilityStatus)
    ensures
        *final(runtime) == (RuntimeCapabilities { tray: status, ..*old(runtime) }),
{
    runtime.tray = status;
}

} // verus!
