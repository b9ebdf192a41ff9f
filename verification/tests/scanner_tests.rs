use jobwatch::models::{
    JobConfig, JobRun, JobRunStage, JobRunStageStatus, JobRunStatus, JobStageConfig,
};
use jobwatch::process_timeouts::{
    latest_run_for, plan_manual_job, plan_scheduled_job, select_run_for_window,
};

fn la_config(stages: Vec<JobStageConfig>) -> JobConfig {
    JobConfig {
        app_name: "acme".to_string(),
        job_name: "nightly".to_string(),
        schedule: Some("0 0 5 * * *".to_string()),
        zone_id: Some("America/Los_Angeles".to_string()),
        enabled: true,
        stages,
        channel_ids: "chan1".to_string(),
        created_at: 0,
        updated_at: 0,
    }
}

fn stage_cfg(name: &str, start: Option<u64>, complete: Option<u64>) -> JobStageConfig {
    JobStageConfig { name: name.to_string(), start, complete }
}

fn run_named(id: &str, created_at: i64) -> JobRun {
    JobRun {
        id: id.to_string(),
        app_name: "acme".to_string(),
        job_name: "nightly".to_string(),
        triggered_at: created_at,
        status: JobRunStatus::InProgress,
        stages: vec![],
        created_at,
        updated_at: created_at,
    }
}

const FIVE_AM: i64 = 1710504000; // 2024-03-15 05:00:00 America/Los_Angeles
const NOW: i64 = 1710504661; // 05:11:01, past both deadlines, inside the buffered window

#[test]
fn timeout_detection_creates_a_run_and_two_alerts() {
    let config = la_config(vec![stage_cfg("ingest", Some(60), Some(600))]);
    let plan = plan_scheduled_job(&config, None, "run-new".to_string(), NOW, 5)
        .unwrap()
        .expect("the job is inside its window at 05:11:01");
    assert!(plan.is_new_run);
    assert!(plan.updated);
    assert_eq!(plan.run.id, "run-new");
    assert_eq!(plan.run.triggered_at, NOW);
    assert_eq!(plan.run.status, JobRunStatus::Failed);
    assert_eq!(plan.emitted.len(), 1);
    assert_eq!(plan.emitted[0].start_status, Some(JobRunStageStatus::Missed));
    assert_eq!(plan.emitted[0].complete_status, Some(JobRunStageStatus::Missed));
    // one alert per newly missed deadline: start and complete
    assert_eq!(plan.alerts, vec!["ingest".to_string(), "ingest".to_string()]);
    assert_eq!(plan.run.stages.len(), 1);
    assert_eq!(plan.run.stages[0].start_status, Some(JobRunStageStatus::Missed));
}

#[test]
fn outside_the_window_nothing_is_planned() {
    let config = la_config(vec![stage_cfg("ingest", Some(60), Some(600))]);
    // 05:00:00 itself is outside the window (strict start)
    let r = plan_scheduled_job(&config, None, "run-new".to_string(), FIVE_AM, 5).unwrap();
    assert!(r.is_none());
    // well past the buffered completion deadline too
    let r2 = plan_scheduled_job(&config, None, "run-new".to_string(), FIVE_AM + 800, 5).unwrap();
    assert!(r2.is_none());
}

#[test]
fn late_complete_only_alerts_once() {
    let config = la_config(vec![stage_cfg("ingest", Some(60), Some(600))]);
    let mut run = run_named("run-1", FIVE_AM + 30);
    run.stages.push(JobRunStage {
        name: "ingest".to_string(),
        start_status: Some(JobRunStageStatus::Occurred),
        start_date_time: Some(FIVE_AM + 30),
        complete_status: None,
        complete_date_time: None,
    });
    let plan = plan_scheduled_job(&config, Some(&run), "run-new".to_string(), NOW, 5)
        .unwrap()
        .expect("inside the window");
    assert!(!plan.is_new_run);
    assert_eq!(plan.emitted.len(), 1);
    assert_eq!(plan.emitted[0].start_status, Some(JobRunStageStatus::Occurred));
    assert_eq!(plan.emitted[0].complete_status, Some(JobRunStageStatus::Missed));
    assert_eq!(plan.alerts, vec!["ingest".to_string()]);
    assert_eq!(plan.run.status, JobRunStatus::Failed);
}

#[test]
fn run_selection_obeys_the_grace_rule() {
    // created exactly at job_start - grace: reused
    assert!(select_run_for_window(Some(FIVE_AM - 5), FIVE_AM, 5));
    // created one second earlier: a new run is made
    assert!(!select_run_for_window(Some(FIVE_AM - 6), FIVE_AM, 5));
    assert!(select_run_for_window(Some(FIVE_AM + 100), FIVE_AM, 5));
    assert!(!select_run_for_window(None, FIVE_AM, 5));
}

#[test]
fn a_stale_run_is_replaced_by_a_new_one() {
    let config = la_config(vec![stage_cfg("ingest", Some(60), Some(600))]);
    let stale = run_named("run-old", FIVE_AM - 3600);
    let plan = plan_scheduled_job(&config, Some(&stale), "run-new".to_string(), NOW, 5)
        .unwrap()
        .expect("inside the window");
    assert!(plan.is_new_run);
    assert_eq!(plan.run.id, "run-new");
}

#[test]
fn manual_jobs_measure_from_their_trigger_time() {
    let mut config = la_config(vec![stage_cfg("ingest", Some(60), Some(600))]);
    config.schedule = None;
    config.zone_id = None;
    let run = run_named("run-m", 1000);
    // past the start deadline measured from triggered_at
    let plan = plan_manual_job(&config, &run, 1000 + 700).expect("deadlines passed");
    assert_eq!(plan.run.status, JobRunStatus::Failed);
    assert_eq!(plan.emitted.len(), 1);
    assert_eq!(plan.alerts.len(), 2);
    // a completed run is never rescanned
    let mut done = run_named("run-d", 1000);
    done.status = JobRunStatus::Complete;
    assert!(plan_manual_job(&config, &done, 1000 + 700).is_none());
    // nothing due yet
    let quiet = run_named("run-q", 1000);
    assert!(plan_manual_job(&config, &quiet, 1030).is_none());
}

#[test]
fn latest_run_per_job_prefers_newest_then_first() {
    let runs = vec![
        run_named("a", 100),
        run_named("b", 300),
        run_named("c", 300),
        run_named("d", 200),
    ];
    let i = latest_run_for(&runs, &"acme".to_string(), &"nightly".to_string()).unwrap();
    assert_eq!(runs[i].id, "b");
    let none = latest_run_for(&runs, &"acme".to_string(), &"other".to_string());
    assert!(none.is_none());
}
