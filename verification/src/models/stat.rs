use vstd::prelude::*;

verus! {

/// The progress counters a query page reports.
#[derive(Debug)]
pub struct Stat {
    pub state: String,
    pub queued: bool,
    pub scheduled: bool,
    pub nodes: u32,
    pub total_splits: u32,
    pub queued_splits: u32,
    pub running_splits: u32,
    pub completed_splits: u32,
    pub cpu_time_millis: u64,
    pub wall_time_millis: u64,
    pub queued_time_millis: u64,
    pub elapsed_time_millis: u64,
    pub processed_rows: u64,
    pub processed_bytes: u64,
    pub peak_memory_bytes: u64,
    pub spilled_bytes: u64,
    pub root_stage: Option<StageStats>,
}

/// Per-stage counters; the service's stage breakdown is not consumed here.
#[derive(Debug)]
pub struct StageStats {
}

} // verus!
