use vstd::prelude::*;

use crate::cron_utils::{get_job_start_time, job_start_defined, spec_job_start};
use crate::errors::{compose_message, AppError};
use crate::job_run_matching::{fold_status, get_status};
use crate::job_stage_validations::{check, event_error_message, event_valid};
use crate::models::{
    JobConfig, JobRun, JobRunStage, JobRunStageStatus, JobRunStageType, JobRunStatus,
};
use crate::process_timeouts::create_new_job_run;
use crate::time_utils::ts_in_range;

verus! {

/// The stage record an event appends: exactly one side carries the status
/// and the timestamp — the start side for Start events, the completion
/// side for Complete and Failed events.
pub open spec fn event_stage_spec(
    name: String,
    stage_type: JobRunStageType,
    stage_status: JobRunStageStatus,
    now: i64,
) -> JobRunStage {
    if stage_type == JobRunStageType::Start {
        JobRunStage {
            name,
            start_status: Some(stage_status),
            start_date_time: Some(now),
            complete_status: None,
            complete_date_time: None,
        }
    } else {
        JobRunStage {
            name,
            start_status: None,
            start_date_time: None,
            complete_status: Some(stage_status),
            complete_date_time: Some(now),
        }
    }
}

/// Applies one incoming stage event to a run: validates it against the
/// config, appends the new stage record (never merging into an existing
/// entry), and refolds the run's status.  Fails with a bad-request error,
/// leaving the run untouched, exactly when the event is invalid.
pub fn apply_stage_event(
    job_config: &JobConfig,
    job_run: &JobRun,
    stage_name: &String,
    stage_type: JobRunStageType,
    stage_status: JobRunStageStatus,
    now: i64,
) -> (r: Result<JobRun, AppError>)
    ensures
        (r is Ok) <==> event_valid(stage_type, job_config.stages@, stage_name@),
        r is Err ==> r->Err_0 is BadRequest && r->Err_0.spec_message() == event_error_message(
            stage_type,
            job_config.stages@,
            stage_name@,
        ),
        r matches Ok(updated) ==> {
            &&& updated.stages@ == job_run.stages@.push(
                event_stage_spec(*stage_name, stage_type, stage_status, now),
            )
            &&& updated.status == (if job_run.status != JobRunStatus::InProgress {
                job_run.status
            } else {
                fold_status(job_config.stages@, updated.stages@, false)
            })
            &&& updated.id == job_run.id
            &&& updated.app_name == job_run.app_name
            &&& updated.job_name == job_run.job_name
            &&& updated.triggered_at == job_run.triggered_at
            &&& updated.created_at == job_run.created_at
            &&& updated.updated_at == job_run.updated_at
        },
{
    match check(&stage_type, job_config, stage_name) {
        Err(e) => {
            return Err(e);
        },
        Ok(()) => {},
    }
    let mut new_stage = JobRunStage {
        name: stage_name.clone(),
        start_status: None,
        start_date_time: None,
        complete_status: None,
        complete_date_time: None,
    };
    if stage_type == JobRunStageType::Start {
        new_stage.start_status = Some(stage_status);
        new_stage.start_date_time = Some(now);
    } else {
        new_stage.complete_status = Some(stage_status);
        new_stage.complete_date_time = Some(now);
    }
    let mut updated = job_run.clone();
    updated.stages.push(new_stage);
    updated.status = get_status(job_config, &updated);
    Ok(updated)
}

/// The window start for an event addressed by job context rather than run
/// id: demands a schedule and a zone — their absence is the caller's bad
/// request — then takes the schedule's previous fire time.
pub fn resolve_context_job_start(job_config: &JobConfig, now: i64) -> (r: Result<i64, AppError>)
    requires
        ts_in_range(now as int),
    ensures
        (r is Ok) <==> job_start_defined(*job_config, now as int),
        r is Ok ==> Some(r->Ok_0 as int) == spec_job_start(*job_config, now as int),
        job_config.schedule is None || job_config.zone_id is None ==> r matches Err(
            AppError::BadRequest(_),
        ),
{
    if job_config.zone_id.is_none() || job_config.schedule.is_none() {
        return Err(
            AppError::BadRequest(
                compose_message(
                    "zone or schedule should not be empty for job ",
                    job_config.job_name.as_str(),
                ),
            ),
        );
    }
    get_job_start_time(job_config, now)
}

/// The run a context-addressed event lands on: the latest run of the
/// window when the store holds one, else a fresh run triggered now.
pub fn select_context_run(
    found: Option<JobRun>,
    app_name: String,
    job_name: String,
    new_run_id: String,
    now: i64,
) -> (r: JobRun)
    ensures
        found matches Some(f) ==> r == f,
        found is None ==> r.id == new_run_id && r.app_name == app_name && r.job_name == job_name
            && r.triggered_at == now && r.status == JobRunStatus::InProgress && r.stages@
            == Seq::<JobRunStage>::empty() && r.created_at == now && r.updated_at == now,
{
    match found {
        Some(f) => f,
        None => create_new_job_run(app_name, job_name, new_run_id, now),
    }
}

/// Ingesting an event re-enables a paused job: the returned config is
/// enabled, and the flag says whether it changed and must be persisted.
pub fn ensure_enabled(job_config: JobConfig) -> (r: (JobConfig, bool))
    ensures
        r.0.enabled,
        r.1 == !job_config.enabled,
        r.0.app_name == job_config.app_name,
        r.0.job_name == job_config.job_name,
        r.0.schedule == job_config.schedule,
        r.0.zone_id == job_config.zone_id,
        r.0.stages@ == job_config.stages@,
        r.0.channel_ids == job_config.channel_ids,
        r.0.created_at == job_config.created_at,
        r.0.updated_at == job_config.updated_at,
{
    let was_disabled = !job_config.enabled;
    let mut config = job_config;
    config.enabled = true;
    (config, was_disabled)
}

} // verus!
