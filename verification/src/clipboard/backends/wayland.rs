//! No watching under Wayland.

use crate::capabilities::CapabilityStatus;
use crate::clipboard::backends::{ClipboardMonitor, MonitorMode};
use crate::clipboard::session::SessionType;
use vstd::prelude::*;

verus! {

pub struct WaylandClipboardMonitor;

impl ClipboardMonitor for WaylandClipboardMonitor {
    open spec fn label(&self) -> Seq<char> {
        "wayland-limited"@
    }

    open spec fn session(&self) -> SessionType {
        SessionType::Wayland
    }

    open spec fn mode(&self) -> MonitorMode {
        MonitorMode::Disabled
    }

    fn name(&self) -> (name: &'static str) {
        "wayland-limited"
    }

    fn session_type(&self) -> (session_type: SessionType) {
        SessionType::Wayland
    }

    fn supports_passive_monitoring(&self) -> (supported: bool) {
        false
    }

    fn start(&self) -> (started: (MonitorMode, CapabilityStatus)) {
        (MonitorMode::Disabled, CapabilityStatus::Unavailable)
    }
}

} // verus!
