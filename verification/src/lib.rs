//! Watchdog engine for scheduled multi-stage jobs.
//!
//! External pipelines report that stages of a job run have started, completed
//! or failed; this library decides, for every active job, whether its stages
//! are occurring on time relative to the job's cron schedule, and which
//! notifications to raise when deadlines are missed or a stage reports
//! failure.  All time arithmetic is carried out on UTC epoch seconds; cron
//! and time-zone computations are delegated to outside crates behind a small
//! trusted boundary.

pub mod config;
pub mod cron_utils;
pub mod dispatcher;
pub mod errors;
pub mod job_run_matching;
pub mod jsend;
pub mod job_stage_validations;
pub mod models;
pub mod notification;
pub mod process_timeouts;
pub mod run_events;
pub mod settings;
pub mod time_utils;
pub mod validations;
