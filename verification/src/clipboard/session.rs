//! The kind of graphical session.

use crate::text;
use crate::text::{has_text, to_lower};
use vstd::prelude::*;

verus! {

#[derive(Debug, Clone, Copy, PartialEq, Eq, Structural)]
pub enum SessionType {
    X11,
    Wayland,
    Unknown,
}

impl SessionType {
    pub open spec fn name(self) -> Seq<char> {
        match self {
            SessionType::X11 => "x11"@,
            SessionType::Wayland => "wayland"@,
            SessionType::Unknown => "unknown"@,
        }
    }

    pub fn as_str(self) -> (name: &'static str)
        ensures
            name@ == self.name(),
    {
        match self {
            SessionType::X11 => "x11",
            SessionType::Wayland => "wayland",
            SessionType::Unknown => "unknown",
        }
    }
}

/// What the declared session type says: one that names Wayland or X11 decides; else a Wayland
/// display, then an X display.
pub open spec fn session_of(declared: Option<Seq<char>>, wayland: bool, display: bool) -> SessionType {
    if declared is Some && text::contains_text(text::lowered(declared->0), "wayland"@) {
        SessionType::Wayland
    } else if declared is Some && text::contains_text(text::lowered(declared->0), "x11"@) {
        SessionType::X11
    } else if wayland {
        SessionType::Wayland
    } else if display {
        SessionType::X11
    } else {
        SessionType::Unknown
    }
}

/// The session type from what the environment holds.
pub fn session_type_from(declared: Option<&str>, wayland: bool, display: bool) -> (session: SessionType)
    ensures
        session == session_of(text::slice_of(declared), wayland, display),
{
    if let Some(declared) = declared {
        let lower = to_lower(declared);
        if has_text(lower.as_str(), "wayland") {
            return SessionType::Wayland;
        }
        if has_text(lower.as_str(), "x11") {
            return SessionType::X11;
        }
    }
    if wayland {
        SessionType::Wayland
    } else if display {
        SessionType::X11
    } else {
        SessionType::Unknown
    }
}

/// The session type is what the three variables say that `fetch_env` has looked up.
pub open spec fn detected_with<F: Fn(&str) -> Option<String>>(fetch_env: F, session: SessionType) -> bool {
    exists|declared: Option<String>, wayland: Option<String>, display: Option<String>|
        {
            &&& #[trigger] call_ensures(fetch_env, ("XDG_SESSION_TYPE",), declared)
            &&& #[trigger] call_ensures(fetch_env, ("WAYLAND_DISPLAY",), wayland)
            &&& #[trigger] call_ensures(fetch_env, ("DISPLAY",), display)
            &&& session == session_of(text::text_of(declared), wayland is Some, display is Some)
        }
}

/// Detects the session type from environment variables, which `fetch_env` looks up:
/// `XDG_SESSION_TYPE` first, then `WAYLAND_DISPLAY`, then `DISPLAY`.
pub fn detect_session_type_with_env<F: Fn(&str) -> Option<String>>(fetch_env: F) -> (session:
    SessionType)
    requires
        forall|key: &str| #[trigger] call_requires(fetch_env, (key,)),
    ensures
        detected_with(fetch_env, session),
{
    let declared = fetch_env("XDG_SESSION_TYPE");
    let wayland = fetch_env("WAYLAND_DISPLAY");
    let display = fetch_env("DISPLAY");
    match &declared {
        Some(declared) => session_type_from(
            Some(declared.as_str()),
            wayland.is_some(),
            display.is_some(),
        ),
        None => session_type_from(None, wayland.is_some(), display.is_some()),
    }
}

} // verus!
