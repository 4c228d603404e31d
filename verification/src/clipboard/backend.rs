//! The ways in which a session lets the clipboard be used.

use crate::capabilities::{platform_capabilities, PlatformCapabilities};
use crate::clipboard::session::SessionType;
use vstd::prelude::*;

verus! {

/// A way to use the clipboard.
pub trait ClipboardBackend {
    /// The kind of session it is for.
    spec fn session(&self) -> SessionType;

    fn name(&self) -> (name: &'static str)
        ensures
            name@ == backend_name(self.session()),
    ;

    fn session_type(&self) -> (session_type: SessionType)
        ensures
            session_type == self.session(),
    ;

    /// What the session allows that was detected.
    fn capabilities(&self, detected: SessionType) -> (capabilities: PlatformCapabilities)
        ensures
            capabilities.fits(detected),
    ;

    fn supports_passive_monitoring(&self) -> (supported: bool)
        ensures
            supported == (self.session() == SessionType::X11),
    ;
}

pub open spec fn backend_name(session: SessionType) -> Seq<char> {
    match session {
        SessionType::X11 => "x11-xfixes"@,
        SessionType::Wayland => "wayland-limited"@,
        SessionType::Unknown => "unknown-fallback"@,
    }
}

pub struct X11ClipboardBackend;

impl ClipboardBackend for X11ClipboardBackend {
    open spec fn session(&self) -> SessionType {
        SessionType::X11
    }

    fn name(&self) -> (name: &'static str) {
        "x11-xfixes"
    }

    fn session_type(&self) -> (session_type: SessionType) {
        SessionType::X11
    }

    fn capabilities(&self, detected: SessionType) -> (capabilities: PlatformCapabilities) {
        platform_capabilities(detected)
    }

    fn supports_passive_monitoring(&self) -> (supported: bool) {
        true
    }
}

pub struct WaylandClipboardBackend;

impl ClipboardBackend for WaylandClipboardBackend {
    open spec fn session(&self) -> SessionType {
        SessionType::Wayland
    }

    fn name(&self) -> (name: &'static str) {
        "wayland-limited"
    }

    fn session_type(&self) -> (session_type: SessionType) {
        SessionType::Wayland
    }

    fn capabilities(&self, detected: SessionType) -> (capabilities: PlatformCapabilities) {
        platform_capabilities(detected)
    }

    fn supports_passive_monitoring(&self) -> (supported: bool) {
        false
    }
}

pub struct FallbackClipboardBackend;

impl ClipboardBackend for FallbackClipboardBackend {
    open spec fn session(&self) -> SessionType {
        SessionType::Unknown
    }

    fn name(&self) -> (name: &'static str) {
        "unknown-fallback"
    }

    fn session_type(&self) -> (session_type: SessionType) {
        SessionType::Unknown
    }

    fn capabilities(&self, detected: SessionType) -> (capabilities: PlatformCapabilities) {
        platform_capabilities(detected)
    }

    fn supports_passive_monitoring(&self) -> (supported: bool) {
        false
    }
}

/// One of the ways, chosen at run time.
pub enum SelectedBackend {
    X11(X11ClipboardBackend),
    Wayland(WaylandClipboardBackend),
    Fallback(FallbackClipboardBackend),
}

impl ClipboardBackend for SelectedBackend {
    open spec fn session(&self) -> SessionType {
        match self {
            SelectedBackend::X11(_) => SessionType::X11,
            SelectedBackend::Wayland(_) => SessionType::Wayland,
            SelectedBackend::Fallback(_) => SessionType::Unknown,
        }
    }

    fn name(&self) -> (name: &'static str) {
        match self {
            SelectedBackend::X11(backend) => backend.name(),
            SelectedBackend::Wayland(backend) => backend.name(),
            SelectedBackend::Fallback(backend) => backend.name(),
        }
    }

    fn session_type(&self) -> (session_type: SessionType) {
        match self {
            SelectedBackend::X11(backend) => backend.session_type(),
            SelectedBackend::Wayland(backend) => backend.session_type(),
            SelectedBackend::Fallback(backend) => backend.session_type(),
        }
    }

    fn capabilities(&self, detected: SessionType) -> (capabilities: PlatformCapabilities) {
        platform_capabilities(detected)
    }

    fn supports_passive_monitoring(&self) -> (supported: bool) {
        match self {
            SelectedBackend::X11(backend) => backend.supports_passive_monitoring(),
            SelectedBackend::Wayland(backend) => backend.supports_passive_monitoring(),
            SelectedBackend::Fallback(backend) => backend.supports_passive_monitoring(),
        }
    }
}

/// The way for the detected session.
pub fn select_backend(detected: SessionType) -> (backend: SelectedBackend)
    ensures
        backend.session() == detected,
{
    match detected {
        SessionType::X11 => SelectedBackend::X11(X11ClipboardBackend),
        SessionType::Wayland => SelectedBackend::Wayland(WaylandClipboardBackend),
        SessionType::Unknown => SelectedBackend::Fallback(FallbackClipboardBackend),
    }
}

} // verus!
