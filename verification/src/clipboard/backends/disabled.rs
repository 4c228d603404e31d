//! No watching in an unknown session.

use crate::capabilities::CapabilityStatus;
use crate::clipboard::backends::{ClipboardMonitor, MonitorMode};
use crate::clipboard::session::SessionType;
use vstd::prelude::*;

verus! {

pub struct DisabledClipboardMonitor;

impl ClipboardMonitor for DisabledClipboardMonitor {
    open spec fn label(&self) -> Seq<char> {
        "unknown-disabled"@
    }

    open spec fn session(&self) -> SessionType {
        SessionType::Unknown
    }

    open spec fn mode(&self) -> MonitorMode {
        MonitorMode::Disabled
    }

    fn name(&self) -> (name: &'static str) {
        "unknown-disabled"
    }

    fn session_type(&self) -> (session_type: SessionType) {
        SessionType::Unknown
    }

    fn supports_passive_monitoring(&self) -> (supported: bool) {
        false
    }

    fn start(&self) -> (started: (MonitorMode, CapabilityStatus)) {
        (MonitorMode::Disabled, CapabilityStatus::Unavailable)
    }
}

} // verus!
