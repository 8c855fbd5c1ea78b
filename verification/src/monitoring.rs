//! What the monitor reports about itself.

use vstd::prelude::*;
use crate::fanotify::MonitorMode;

verus! {

/// A file event as a report lists it.
#[derive(Debug, Clone)]
pub struct MonitoringEvent {
    pub path: String,
    pub event: MonitoringEventType,
}

/// The kind of a reported event.
#[derive(Debug, Clone, Copy, PartialEq, Eq, Structural)]
pub enum MonitoringEventType {
    Open,
    Close,
    Modify,
    Execute,
}

/// The monitor's periodic report.
#[derive(Debug, Clone)]
pub struct MonitoringReport {
    pub events: Vec<MonitoringEvent>,
    /// Whether the monitor runs degraded: observing without the power to block.
    pub degraded_mode: bool,
}

impl MonitoringReport {
    /// The report of a housekeeping tick: no events, and degraded exactly
    /// when the monitor runs audit-only.
    ///
    /// Degraded means that the monitor observes without the power to block.
    /// The flag follows the mode the monitor runs in rather than a fixed
    /// value, so that a reader of the reports can tell a host where access
    /// is being decided from one where it is only being watched.
    pub fn heartbeat(mode: MonitorMode) -> (report: Self)
        ensures
            report.events@.len() == 0,
            report.degraded_mode == (mode == MonitorMode::AuditOnly),
    {
        MonitoringReport {
            events: Vec::new(),
            degraded_mode: matches!(mode, MonitorMode::AuditOnly),
        }
    }
}

} // verus!
