//! Watching by reading at intervals.

use crate::capabilities::CapabilityStatus;
use crate::clipboard::backends::{ClipboardMonitor, MonitorMode, POLLING_INTERVAL_MS};
use crate::clipboard::session::SessionType;
use vstd::prelude::*;

verus! {

pub struct PollingClipboardMonitor {
    /// Milliseconds between two readings.
    pub interval_ms: u64,
}

impl Default for PollingClipboardMonitor {
    fn default() -> (monitor: Self)
        ensures
            monitor.interval_ms == POLLING_INTERVAL_MS,
    {
        PollingClipboardMonitor { interval_ms: POLLING_INTERVAL_MS }
    }
}

impl ClipboardMonitor for PollingClipboardMonitor {
    open spec fn label(&self) -> Seq<char> {
        "polling-fallback"@
    }

    open spec fn session(&self) -> SessionType {
        SessionType::X11
    }

    open spec fn mode(&self) -> MonitorMode {
        MonitorMode::Polling(self.interval_ms)
    }

    fn name(&self) -> (name: &'static str) {
        "polling-fallback"
    }

    fn session_type(&self) -> (session_type: SessionType) {
        SessionType::X11
    }

    fn supports_passive_monitoring(&self) -> (supported: bool) {
        true
    }

    fn start(&self) -> (started: (MonitorMode, CapabilityStatus)) {
        (MonitorMode::Polling(self.interval_ms), CapabilityStatus::Available)
    }
}

} // verus!
