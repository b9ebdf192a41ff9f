use jobwatch::errors::AppError;
use jobwatch::models::{
    JobConfig, JobRun, JobRunStage, JobRunStageStatus, JobRunStageType, JobRunStatus,
    JobStageConfig,
};
use jobwatch::run_events::{
    apply_stage_event, ensure_enabled, resolve_context_job_start, select_context_run,
};

fn la_config(stages: Vec<JobStageConfig>) -> JobConfig {
    JobConfig {
        app_name: "acme".to_string(),
        job_name: "nightly".to_string(),
        schedule: Some("0 0 5 * * *".to_string()),
        zone_id: Some("America/Los_Angeles".to_string()),
        enabled: true,
        stages,
        channel_ids: "chan1".to_string(),
        created_at: 0,
        updated_at: 0,
    }
}

fn stage_cfg(name: &str, start: Option<u64>, complete: Option<u64>) -> JobStageConfig {
    JobStageConfig { name: name.to_string(), start, complete }
}

fn fresh_run(now: i64) -> JobRun {
    JobRun {
        id: "run-1".to_string(),
        app_name: "acme".to_string(),
        job_name: "nightly".to_string(),
        triggered_at: now,
        status: JobRunStatus::InProgress,
        stages: vec![],
        created_at: now,
        updated_at: now,
    }
}

const FIVE_AM: i64 = 1710504000; // 2024-03-15 05:00:00 America/Los_Angeles
const START_AT: i64 = 1710504030; // 05:00:30
const COMPLETE_AT: i64 = 1710504300; // 05:05:00

#[test]
fn context_events_resolve_the_window_start() {
    let config = la_config(vec![stage_cfg("ingest", Some(60), Some(600))]);
    assert_eq!(resolve_context_job_start(&config, START_AT).unwrap(), FIVE_AM);
}

#[test]
fn context_events_demand_schedule_and_zone() {
    // a missing schedule or zone is the caller's bad request
    let mut config = la_config(vec![stage_cfg("ingest", Some(60), Some(600))]);
    config.schedule = None;
    match resolve_context_job_start(&config, START_AT) {
        Err(AppError::BadRequest(_)) => {}
        other => panic!("expected BadRequest, got {:?}", other),
    }
    let mut no_zone = la_config(vec![stage_cfg("ingest", Some(60), Some(600))]);
    no_zone.zone_id = None;
    match resolve_context_job_start(&no_zone, START_AT) {
        Err(AppError::BadRequest(_)) => {}
        other => panic!("expected BadRequest, got {:?}", other),
    }
}

#[test]
fn a_run_is_created_when_the_window_has_none() {
    let r = select_context_run(
        None,
        "acme".to_string(),
        "nightly".to_string(),
        "run-9".to_string(),
        START_AT,
    );
    assert_eq!(r.id, "run-9");
    assert_eq!(r.status, JobRunStatus::InProgress);
    assert_eq!(r.triggered_at, START_AT);
    assert!(r.stages.is_empty());
    let existing = fresh_run(START_AT - 5);
    let r2 = select_context_run(
        Some(existing),
        "acme".to_string(),
        "nightly".to_string(),
        "run-9".to_string(),
        START_AT,
    );
    assert_eq!(r2.id, "run-1");
}

#[test]
fn happy_path_start_then_complete() {
    let config = la_config(vec![stage_cfg("ingest", Some(60), Some(600))]);
    let run = fresh_run(START_AT);
    let after_start = apply_stage_event(
        &config,
        &run,
        &"ingest".to_string(),
        JobRunStageType::Start,
        JobRunStageStatus::Occurred,
        START_AT,
    )
    .unwrap();
    assert_eq!(after_start.stages.len(), 1);
    assert_eq!(after_start.stages[0].start_status, Some(JobRunStageStatus::Occurred));
    assert_eq!(after_start.stages[0].start_date_time, Some(START_AT));
    assert_eq!(after_start.stages[0].complete_status, None);
    // the stage has a record and no side carries a non-Occurred status, so
    // the folder already reads the run as Complete
    assert_eq!(after_start.status, JobRunStatus::Complete);
    let after_complete = apply_stage_event(
        &config,
        &after_start,
        &"ingest".to_string(),
        JobRunStageType::Complete,
        JobRunStageStatus::Occurred,
        COMPLETE_AT,
    )
    .unwrap();
    assert_eq!(after_complete.stages.len(), 2);
    assert_eq!(after_complete.stages[1].complete_status, Some(JobRunStageStatus::Occurred));
    assert_eq!(after_complete.status, JobRunStatus::Complete);
}

#[test]
fn start_event_without_a_start_offset_is_rejected() {
    let config = la_config(vec![stage_cfg("ingest", None, Some(600))]);
    let run = fresh_run(START_AT);
    match apply_stage_event(
        &config,
        &run,
        &"ingest".to_string(),
        JobRunStageType::Start,
        JobRunStageStatus::Occurred,
        START_AT,
    ) {
        Err(AppError::BadRequest(msg)) => {
            assert_eq!(msg, "start not configured for the stage ingest");
        }
        other => panic!("expected BadRequest, got {:?}", other),
    }
}

#[test]
fn unknown_stage_name_is_rejected() {
    let config = la_config(vec![stage_cfg("ingest", Some(60), Some(600))]);
    let run = fresh_run(START_AT);
    match apply_stage_event(
        &config,
        &run,
        &"nosuch".to_string(),
        JobRunStageType::Complete,
        JobRunStageStatus::Occurred,
        START_AT,
    ) {
        Err(AppError::BadRequest(msg)) => {
            assert_eq!(msg, "invalid stage name provided nosuch");
        }
        other => panic!("expected BadRequest, got {:?}", other),
    }
}

#[test]
fn failed_event_is_accepted_without_validation_and_fails_the_run() {
    let config = la_config(vec![stage_cfg("ingest", Some(60), Some(600))]);
    let run = fresh_run(START_AT);
    let after = apply_stage_event(
        &config,
        &run,
        &"ingest".to_string(),
        JobRunStageType::Failed,
        JobRunStageStatus::Failed,
        START_AT,
    )
    .unwrap();
    assert_eq!(after.stages.len(), 1);
    assert_eq!(after.stages[0].complete_status, Some(JobRunStageStatus::Failed));
    assert_eq!(after.stages[0].start_status, None);
    assert_eq!(after.status, JobRunStatus::Failed);
    // even a stage name outside the config is accepted for Failed events
    let after2 = apply_stage_event(
        &config,
        &run,
        &"elsewhere".to_string(),
        JobRunStageType::Failed,
        JobRunStageStatus::Failed,
        START_AT,
    )
    .unwrap();
    assert_eq!(after2.stages.len(), 1);
}

#[test]
fn ingesting_an_event_reenables_a_paused_job() {
    let mut config = la_config(vec![stage_cfg("ingest", Some(60), Some(600))]);
    config.enabled = false;
    let (enabled, changed) = ensure_enabled(config);
    assert!(enabled.enabled);
    assert!(changed);
    let (still_enabled, changed_again) = ensure_enabled(enabled);
    assert!(still_enabled.enabled);
    assert!(!changed_again);
}
