//! Counters of what the broker has seen.

use crate::json::{entries_insert, lemma_entries_empty, Json, JsonModel};
use vstd::prelude::*;

verus! {

/// The counters. Each counts in 64-bit arithmetic that wraps around.
#[derive(Debug, Clone, Copy, Default, PartialEq, Eq, Structural)]
pub struct Metrics {
    pub active_connections: u64,
    pub activities_set: u64,
    pub processes_detected: u64,
    pub detectables_count: u64,
}

impl Metrics {
    /// All counters at zero.
    pub open spec fn zero() -> Metrics {
        Metrics {
            active_connections: 0,
            activities_set: 0,
            processes_detected: 0,
            detectables_count: 0,
        }
    }

    /// All counters at zero.
    pub fn new() -> (r: Metrics)
        ensures
            r == Metrics::zero(),
    {
        Metrics {
            active_connections: 0,
            activities_set: 0,
            processes_detected: 0,
            detectables_count: 0,
        }
    }

    /// Counts a connection that was accepted.
    pub fn connection_opened(&mut self)
        ensures
            *final(self) == (Metrics {
                active_connections: old(self).active_connections.wrapping_add(1),
                ..*old(self)
            }),
    {
        self.active_connections = self.active_connections.wrapping_add(1);
    }

    /// Counts a connection that ended.
    pub fn connection_closed(&mut self)
        ensures
            *final(self) == (Metrics {
                active_connections: old(self).active_connections.wrapping_sub(1),
                ..*old(self)
            }),
    {
        self.active_connections = self.active_connections.wrapping_sub(1);
    }

    /// Counts an activity that was published.
    pub fn activity_set(&mut self)
        ensures
            *final(self) == (Metrics {
                activities_set: old(self).activities_set.wrapping_add(1),
                ..*old(self)
            }),
    {
        self.activities_set = self.activities_set.wrapping_add(1);
    }

    /// Counts a process that matched the catalog.
    pub fn process_detected(&mut self)
        ensures
            *final(self) == (Metrics {
                processes_detected: old(self).processes_detected.wrapping_add(1),
                ..*old(self)
            }),
    {
        self.processes_detected = self.processes_detected.wrapping_add(1);
    }

    /// Records the size of the catalog.
    pub fn set_detectables_count(&mut self, n: u64)
        ensures
            *final(self) == (Metrics { detectables_count: n, ..*old(self) }),
    {
        self.detectables_count = n;
    }
}

/// The object that the counters are reported as.
pub open spec fn metrics_json(m: Metrics) -> JsonModel {
    JsonModel::Obj(
        Map::empty().insert(
            "active_connections"@,
            JsonModel::Int(m.active_connections as int),
        ).insert("activities_set"@, JsonModel::Int(m.activities_set as int)).insert(
            "processes_detected"@,
            JsonModel::Int(m.processes_detected as int),
        ).insert("detectables_count"@, JsonModel::Int(m.detectables_count as int)),
    )
}

/// The counters as a JSON object.
pub fn snapshot(m: &Metrics) -> (r: Json)
    ensures
        r@ == metrics_json(*m),
{
    let mut out: Vec<(String, Json)> = Vec::new();
    proof {
        lemma_entries_empty();
    }
    entries_insert(&mut out, "active_connections", Json::uint(m.active_connections));
    entries_insert(&mut out, "activities_set", Json::uint(m.activities_set));
    entries_insert(&mut out, "processes_detected", Json::uint(m.processes_detected));
    entries_insert(&mut out, "detectables_count", Json::uint(m.detectables_count));
    Json::Object(out)
}

} // verus!
