use vstd::prelude::*;

verus! {

/// Fixed operating parameters of the engine.  The scheduler sleeps
/// `scheduler_initial_delay_seconds` once, then runs a scan every
/// `scheduler_fixed_delay_seconds`; runs older than
/// `max_stage_duration_hours` are no longer scanned; a scheduled window
/// reuses the latest run when it was created no more than
/// `grace_time_seconds` before the window start.
#[derive(Debug, Clone)]
pub struct Config {
    pub postgres_url: String,
    pub max_stage_duration_hours: i64,
    pub scheduler_initial_delay_seconds: u64,
    pub scheduler_fixed_delay_seconds: u64,
    pub error_channel_ids: String,
    pub grace_time_seconds: i64,
}

} // verus!
