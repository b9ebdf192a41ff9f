use jobwatch::job_run_matching::{detect_time_outs, get_status, sort_stages};
use jobwatch::models::{
    JobConfig, JobRun, JobRunStage, JobRunStageStatus, JobRunStatus, JobStageConfig,
};
use jobwatch::process_timeouts::combine;

fn config_with(stages: Vec<JobStageConfig>) -> JobConfig {
    JobConfig {
        app_name: "acme".to_string(),
        job_name: "nightly".to_string(),
        schedule: Some("0 0 5 * * *".to_string()),
        zone_id: Some("America/Los_Angeles".to_string()),
        enabled: true,
        stages,
        channel_ids: "chan1".to_string(),
        created_at: 0,
        updated_at: 0,
    }
}

fn stage_cfg(name: &str, start: Option<u64>, complete: Option<u64>) -> JobStageConfig {
    JobStageConfig { name: name.to_string(), start, complete }
}

fn run_with(stages: Vec<JobRunStage>) -> JobRun {
    JobRun {
        id: "run-1".to_string(),
        app_name: "acme".to_string(),
        job_name: "nightly".to_string(),
        triggered_at: 1000,
        status: JobRunStatus::InProgress,
        stages,
        created_at: 1000,
        updated_at: 1000,
    }
}

fn occurred_start(name: &str, at: i64) -> JobRunStage {
    JobRunStage {
        name: name.to_string(),
        start_status: Some(JobRunStageStatus::Occurred),
        start_date_time: Some(at),
        complete_status: None,
        complete_date_time: None,
    }
}

const JS: i64 = 1710504000; // 2024-03-15 05:00:00 America/Los_Angeles
const NOW: i64 = 1710504900; // 05:15:00, past both deadlines of (60, 600)

#[test]
fn both_deadlines_missed_on_an_empty_run() {
    let config = config_with(vec![stage_cfg("ingest", Some(60), Some(600))]);
    let run = run_with(vec![]);
    let out = detect_time_outs(&config, &run, NOW, JS);
    assert_eq!(out.len(), 1);
    assert_eq!(out[0].name, "ingest");
    assert_eq!(out[0].start_status, Some(JobRunStageStatus::Missed));
    assert_eq!(out[0].start_date_time, Some(NOW));
    assert_eq!(out[0].complete_status, Some(JobRunStageStatus::Missed));
    assert_eq!(out[0].complete_date_time, Some(NOW));
}

#[test]
fn late_complete_emits_only_the_complete_side() {
    let config = config_with(vec![stage_cfg("ingest", Some(60), Some(600))]);
    let run = run_with(vec![occurred_start("ingest", JS + 30)]);
    let out = detect_time_outs(&config, &run, NOW, JS);
    assert_eq!(out.len(), 1);
    // the recorded Occurred start is never overwritten
    assert_eq!(out[0].start_status, Some(JobRunStageStatus::Occurred));
    assert_eq!(out[0].start_date_time, Some(JS + 30));
    assert_eq!(out[0].complete_status, Some(JobRunStageStatus::Missed));
}

#[test]
fn no_deadline_passed_emits_nothing() {
    let config = config_with(vec![stage_cfg("ingest", Some(60), Some(600))]);
    let run = run_with(vec![]);
    let out = detect_time_outs(&config, &run, JS + 59, JS);
    assert_eq!(out.len(), 0);
    // the deadline itself has not yet passed at start + 60
    let out2 = detect_time_outs(&config, &run, JS + 60, JS);
    assert_eq!(out2.len(), 0);
    // one second after the deadline it has
    let out3 = detect_time_outs(&config, &run, JS + 61, JS);
    assert_eq!(out3.len(), 1);
    assert_eq!(out3[0].start_status, Some(JobRunStageStatus::Missed));
    assert_eq!(out3[0].complete_status, None);
}

#[test]
fn a_second_pass_after_the_merge_emits_nothing() {
    let config = config_with(vec![
        stage_cfg("ingest", Some(60), Some(600)),
        stage_cfg("load", Some(120), None),
    ]);
    let mut run = run_with(vec![occurred_start("ingest", JS + 30)]);
    let first = detect_time_outs(&config, &run, NOW, JS);
    assert_eq!(first.len(), 2);
    run.stages = combine(&run.stages, &first);
    let second = detect_time_outs(&config, &run, NOW, JS);
    assert_eq!(second.len(), 0);
}

#[test]
fn stages_are_matched_in_order_of_earliest_deadline() {
    let config = config_with(vec![
        stage_cfg("late", Some(500), Some(900)),
        stage_cfg("early", Some(10), Some(950)),
        stage_cfg("tie", Some(500), None),
    ]);
    let sorted = sort_stages(&config.stages);
    assert_eq!(sorted[0].name, "early");
    // equal keys keep config order
    assert_eq!(sorted[1].name, "late");
    assert_eq!(sorted[2].name, "tie");
    let run = run_with(vec![]);
    let out = detect_time_outs(&config, &run, NOW, JS);
    assert_eq!(out[0].name, "early");
    assert_eq!(out[1].name, "late");
    assert_eq!(out[2].name, "tie");
}

#[test]
fn folder_returns_terminal_status_unchanged() {
    let config = config_with(vec![stage_cfg("ingest", Some(60), Some(600))]);
    let mut run = run_with(vec![]);
    run.status = JobRunStatus::Failed;
    assert_eq!(get_status(&config, &run), JobRunStatus::Failed);
    run.status = JobRunStatus::Complete;
    assert_eq!(get_status(&config, &run), JobRunStatus::Complete);
}

#[test]
fn folder_rolls_stage_states_up() {
    let config = config_with(vec![stage_cfg("ingest", Some(60), Some(600))]);
    // no record of the stage: still in progress
    let run = run_with(vec![]);
    assert_eq!(get_status(&config, &run), JobRunStatus::InProgress);
    // start occurred, complete not recorded: complete
    let run2 = run_with(vec![occurred_start("ingest", JS + 30)]);
    assert_eq!(get_status(&config, &run2), JobRunStatus::Complete);
    // a missed side fails the run
    let missed = JobRunStage {
        name: "ingest".to_string(),
        start_status: Some(JobRunStageStatus::Missed),
        start_date_time: Some(NOW),
        complete_status: None,
        complete_date_time: None,
    };
    let run3 = run_with(vec![missed]);
    assert_eq!(get_status(&config, &run3), JobRunStatus::Failed);
}

#[test]
fn folder_stays_terminal_under_appended_stages() {
    let config = config_with(vec![stage_cfg("ingest", Some(60), Some(600))]);
    let missed = JobRunStage {
        name: "ingest".to_string(),
        start_status: Some(JobRunStageStatus::Missed),
        start_date_time: Some(NOW),
        complete_status: None,
        complete_date_time: None,
    };
    let mut run = run_with(vec![missed]);
    assert_eq!(get_status(&config, &run), JobRunStatus::Failed);
    // appending a fresh Occurred entry does not unfail the run: the first
    // record of the name still decides
    run.stages.push(occurred_start("ingest", NOW + 1));
    assert_eq!(get_status(&config, &run), JobRunStatus::Failed);
}

#[test]
fn merge_keeps_first_position_and_last_value() {
    let a = vec![occurred_start("a", 1), occurred_start("b", 2)];
    let replacement = JobRunStage {
        name: "a".to_string(),
        start_status: Some(JobRunStageStatus::Missed),
        start_date_time: Some(9),
        complete_status: Some(JobRunStageStatus::Missed),
        complete_date_time: Some(9),
    };
    let b = vec![replacement, occurred_start("c", 3)];
    let merged = combine(&a, &b);
    assert_eq!(merged.len(), 3);
    assert_eq!(merged[0].name, "a");
    assert_eq!(merged[0].start_status, Some(JobRunStageStatus::Missed));
    assert_eq!(merged[1].name, "b");
    assert_eq!(merged[2].name, "c");
}
