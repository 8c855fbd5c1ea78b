//! Metric points, batched for export.

use vstd::prelude::*;
use crate::quarantine::Timestamp;

verus! {

/// One measurement. The value is in thousandths.
#[derive(Debug, Clone)]
pub struct MetricPoint {
    pub name: String,
    pub value: i64,
    pub timestamp: Timestamp,
}

/// Metric points in the order they were taken.
#[derive(Debug, Clone)]
pub struct TelemetryBatch {
    pub points: Vec<MetricPoint>,
}

impl TelemetryBatch {
    pub fn new() -> (batch: Self)
        ensures
            batch.points@.len() == 0,
    {
        Self { points: Vec::new() }
    }

    pub fn push(&mut self, point: MetricPoint)
        ensures
            final(self).points@ == old(self).points@.push(point),
    {
        self.points.push(point);
    }
}

} // verus!
