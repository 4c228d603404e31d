//! The ways in which the clipboard is watched.

pub mod disabled;
pub mod polling;
pub mod wayland;
pub mod x11;

use crate::capabilities::CapabilityStatus;
use crate::clipboard::backends::disabled::DisabledClipboardMonitor;
use crate::clipboard::backends::wayland::WaylandClipboardMonitor;
use crate::clipboard::backends::x11::X11ClipboardMonitor;
use crate::clipboard::session::SessionType;
use vstd::prelude::*;

verus! {

/// How often the clipboard is read where no one tells of changes.
pub const POLLING_INTERVAL_MS: u64 = 350;

/// A change of the clipboard's owner.
#[derive(Debug, Clone, Copy, PartialEq, Eq, Structural)]
pub struct ClipboardNotification {
    pub sequence: u64,
    pub owner: u32,
    pub timestamp: u32,
}

/// How the clipboard is watched.
#[derive(Debug, Clone, Copy, PartialEq, Eq, Structural)]
pub enum MonitorMode {
    /// Not at all.
    Disabled,
    /// The X server tells of every change.
    EventDriven,
    /// The clipboard is read at intervals of so many milliseconds.
    Polling(u64),
}

/// A way to watch the clipboard.
pub trait ClipboardMonitor {
    spec fn label(&self) -> Seq<char>;

    spec fn session(&self) -> SessionType;

    /// How it watches once it has been started.
    spec fn mode(&self) -> MonitorMode;

    fn name(&self) -> (name: &'static str)
        ensures
            name@ == self.label(),
    ;

    fn session_type(&self) -> (session_type: SessionType)
        ensures
            session_type == self.session(),
    ;

    fn supports_passive_monitoring(&self) -> (supported: bool)
        ensures
            supported == (self.mode() != MonitorMode::Disabled),
    ;

    /// How it watches, and what is to be reported of watching once that has begun.
    fn start(&self) -> (started: (MonitorMode, CapabilityStatus))
        ensures
            started.0 == self.mode(),
            started.1 == status_of(self.mode()),
    ;
}

pub open spec fn status_of(mode: MonitorMode) -> CapabilityStatus {
    if mode == MonitorMode::Disabled {
        CapabilityStatus::Unavailable
    } else {
        CapabilityStatus::Available
    }
}

/// One of the ways, chosen at run time.
pub enum SelectedMonitor {
    X11(X11ClipboardMonitor),
    Wayland(WaylandClipboardMonitor),
    Disabled(DisabledClipboardMonitor),
}

impl ClipboardMonitor for SelectedMonitor {
    open spec fn label(&self) -> Seq<char> {
        match self {
            SelectedMonitor::X11(monitor) => monitor.label(),
            SelectedMonitor::Wayland(monitor) => monitor.label(),
            SelectedMonitor::Disabled(monitor) => monitor.label(),
        }
    }

    open spec fn session(&self) -> SessionType {
        match self {
            SelectedMonitor::X11(monitor) => monitor.session(),
            SelectedMonitor::Wayland(monitor) => monitor.session(),
            SelectedMonitor::Disabled(monitor) => monitor.session(),
        }
    }

    open spec fn mode(&self) -> MonitorMode {
        match self {
            SelectedMonitor::X11(monitor) => monitor.mode(),
            SelectedMonitor::Wayland(monitor) => monitor.mode(),
            SelectedMonitor::Disabled(monitor) => monitor.mode(),
        }
    }

    fn name(&self) -> (name: &'static str) {
        match self {
            SelectedMonitor::X11(monitor) => monitor.name(),
            SelectedMonitor::Wayland(monitor) => monitor.name(),
            SelectedMonitor::Disabled(monitor) => monitor.name(),
        }
    }

    fn session_type(&self) -> (session_type: SessionType) {
        match self {
            SelectedMonitor::X11(monitor) => monitor.session_type(),
            SelectedMonitor::Wayland(monitor) => monitor.session_type(),
            SelectedMonitor::Disabled(monitor) => monitor.session_type(),
        }
    }

    fn supports_passive_monitoring(&self) -> (supported: bool) {
        match self {
            SelectedMonitor::X11(monitor) => monitor.supports_passive_monitoring(),
            SelectedMonitor::Wayland(monitor) => monitor.supports_passive_monitoring(),
            SelectedMonitor::Disabled(monitor) => monitor.supports_passive_monitoring(),
        }
    }

    fn start(&self) -> (started: (MonitorMode, CapabilityStatus)) {
        match self {
            SelectedMonitor::X11(monitor) => monitor.start(),
            SelectedMonitor::Wayland(monitor) => monitor.start(),
            SelectedMonitor::Disabled(monitor) => monitor.start(),
        }
    }
}

/// The way for the detected session: only X11 tells of changes.
pub fn select_monitor(detected: SessionType) -> (monitor: SelectedMonitor)
    ensures
        monitor.session() == detected,
        monitor.mode() == (if detected == SessionType::X11 {
            MonitorMode::EventDriven
        } else {
            MonitorMode::Disabled
        }),
{
    match detected {
        SessionType::X11 => SelectedMonitor::X11(X11ClipboardMonitor),
        SessionType::Wayland => SelectedMonitor::Wayland(WaylandClipboardMonitor),
        SessionType::Unknown => SelectedMonitor::Disabled(DisabledClipboardMonitor),
    }
}

/// What is done when the X server cannot tell of changes, or no longer does: the clipboard is
/// read at intervals, and the report says so.
pub fn polling_fallback() -> (fallback: (MonitorMode, CapabilityStatus))
    ensures
        fallback.0 == MonitorMode::Polling(POLLING_INTERVAL_MS),
        fallback.1 matches CapabilityStatus::Degraded(reason) && reason@
            == "XFixes недоступен, используется polling каждые 350 мс"@,
{
    (
        MonitorMode::Polling(POLLING_INTERVAL_MS),
        CapabilityStatus::Degraded(
            "XFixes недоступен, используется polling каждые 350 мс".to_owned(),
        ),
    )
}

} // verus!
