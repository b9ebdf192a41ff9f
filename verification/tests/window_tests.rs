use jobwatch::cron_utils::{
    compute_max_duration_secs, get_cron_start_time, get_job_complete_time, get_max, get_min,
    in_between, in_window_given_start, previous_fire, UNBOUNDED_DURATION_SECS,
};
use jobwatch::errors::AppError;
use jobwatch::models::{JobConfig, JobStageConfig};

fn la_config(stages: Vec<JobStageConfig>) -> JobConfig {
    JobConfig {
        app_name: "acme".to_string(),
        job_name: "nightly".to_string(),
        schedule: Some("0 0 5 * * *".to_string()),
        zone_id: Some("America/Los_Angeles".to_string()),
        enabled: true,
        stages,
        channel_ids: "chan1".to_string(),
        created_at: 0,
        updated_at: 0,
    }
}

fn ingest_stage() -> JobStageConfig {
    JobStageConfig {
        name: "ingest".to_string(),
        start: Some(60),
        complete: Some(600),
    }
}

// 2024-03-15 05:00:00 America/Los_Angeles (PDT, UTC-7)
const FIVE_AM: i64 = 1710504000;

#[test]
fn min_max_of_optional_offsets() {
    assert_eq!(get_min(Some(3), Some(5)), Some(3));
    assert_eq!(get_min(Some(5), Some(3)), Some(3));
    assert_eq!(get_min(Some(7), None), Some(7));
    assert_eq!(get_min(None, Some(9)), Some(9));
    assert_eq!(get_min(None, None), None);
    assert_eq!(get_max(Some(3), Some(5)), Some(5));
    assert_eq!(get_max(Some(5), Some(3)), Some(5));
    assert_eq!(get_max(Some(7), None), Some(7));
    assert_eq!(get_max(None, Some(9)), Some(9));
    assert_eq!(get_max(None, None), None);
}

#[test]
fn max_duration_defaults_to_unbounded() {
    assert_eq!(compute_max_duration_secs(&vec![]), UNBOUNDED_DURATION_SECS);
    let no_offsets = vec![JobStageConfig {
        name: "x".to_string(),
        start: None,
        complete: None,
    }];
    assert_eq!(compute_max_duration_secs(&no_offsets), UNBOUNDED_DURATION_SECS);
    assert_eq!(compute_max_duration_secs(&vec![ingest_stage()]), 600);
}

#[test]
fn previous_fire_is_inclusive_at_the_fire_instant() {
    // at exactly 05:00:00 the previous fire is 05:00:00 itself
    let r = previous_fire("0 0 5 * * *", "America/Los_Angeles", FIVE_AM);
    assert_eq!(r.unwrap(), FIVE_AM);
}

#[test]
fn previous_fire_within_the_day() {
    let r = previous_fire("0 0 5 * * *", "America/Los_Angeles", FIVE_AM + 900);
    assert_eq!(r.unwrap(), FIVE_AM);
    // one second before the fire instant, the previous fire is yesterday's
    let r2 = previous_fire("0 0 5 * * *", "America/Los_Angeles", FIVE_AM - 1);
    assert_eq!(r2.unwrap(), FIVE_AM - 86400);
}

#[test]
fn previous_fire_rejects_bad_zone_and_bad_schedule() {
    match previous_fire("0 0 5 * * *", "Mars/Olympus", FIVE_AM) {
        Err(AppError::BadRequest(msg)) => {
            assert_eq!(msg, "Invalid timezone provided: Mars/Olympus");
        }
        other => panic!("expected BadRequest, got {:?}", other),
    }
    match previous_fire("not a cron", "America/Los_Angeles", FIVE_AM) {
        Err(AppError::InternalError(msg)) => {
            assert_eq!(msg, "invalid schedule found: not a cron");
        }
        other => panic!("expected InternalError, got {:?}", other),
    }
}

#[test]
fn previous_fire_reports_a_schedule_without_prior_fires() {
    // the schedule's only fires lie in 2099; nothing precedes 2024
    match previous_fire("0 0 5 1 1 * 2099", "America/Los_Angeles", FIVE_AM) {
        Err(AppError::InternalError(msg)) => {
            assert_eq!(msg, "0 0 5 1 1 * 2099");
        }
        other => panic!("expected InternalError, got {:?}", other),
    }
}

#[test]
fn window_excludes_its_start_and_ends_with_buffer() {
    let config = la_config(vec![ingest_stage()]);
    // the window start itself is outside (strict >)
    assert!(!in_window_given_start(&config, FIVE_AM, FIVE_AM));
    assert!(in_window_given_start(&config, FIVE_AM, FIVE_AM + 1));
    // last instant inside: start + 600 + 120 - 1
    assert!(in_window_given_start(&config, FIVE_AM, FIVE_AM + 719));
    assert!(!in_window_given_start(&config, FIVE_AM, FIVE_AM + 720));
}

#[test]
fn in_between_resolves_the_schedule() {
    let config = la_config(vec![ingest_stage()]);
    assert_eq!(in_between(&config, FIVE_AM + 900).unwrap(), false);
    assert_eq!(in_between(&config, FIVE_AM + 300).unwrap(), true);
    assert_eq!(in_between(&config, FIVE_AM).unwrap(), false);
}

#[test]
fn start_time_requires_a_schedule() {
    let mut config = la_config(vec![ingest_stage()]);
    config.schedule = None;
    match get_cron_start_time(&config, FIVE_AM + 300) {
        Err(AppError::InternalError(_)) => {}
        other => panic!("expected InternalError, got {:?}", other),
    }
}

#[test]
fn complete_time_is_start_plus_longest_stage() {
    let config = la_config(vec![ingest_stage()]);
    let complete = get_job_complete_time(&config, FIVE_AM + 300).unwrap();
    assert_eq!(complete, (FIVE_AM + 600) as i128);
}
