//! Watching by the notifications of the X server.

use crate::capabilities::CapabilityStatus;
use crate::clipboard::backends::{ClipboardMonitor, MonitorMode};
use crate::clipboard::session::SessionType;
use vstd::prelude::*;

verus! {

pub struct X11ClipboardMonitor;

impl ClipboardMonitor for X11ClipboardMonitor {
    open spec fn label(&self) -> Seq<char> {
        "x11-xfixes"@
    }

    open spec fn session(&self) -> SessionType {
        SessionType::X11
    }

    open spec fn mode(&self) -> MonitorMode {
        MonitorMode::EventDriven
    }

    fn name(&self) -> (name: &'static str) {
        "x11-xfixes"
    }

    fn session_type(&self) -> (session_type: SessionType) {
        SessionType::X11
    }

    fn supports_passive_monitoring(&self) -> (supported: bool) {
        true
    }

    fn start(&self) -> (started: (MonitorMode, CapabilityStatus)) {
        (MonitorMode::EventDriven, CapabilityStatus::Available)
    }
}

} // verus!
