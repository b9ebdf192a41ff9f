use vstd::prelude::*;

use crate::errors::{compose_message, AppError};
use crate::models::{JobConfig, JobStageConfig};
use crate::time_utils::{
    cron_match, cron_matches_at, cron_ok, cron_prev_before, prev_fire_before, ts_in_range,
    zone_is_valid, zone_ok,
};

verus! {

/// Stand-in duration for a stage, or a whole config, that carries no offset:
/// in practice the job is then in-window for any instant after its start.
pub const UNBOUNDED_DURATION_SECS: u64 = 9223372036854775807;

/// Scanner jitter absorbed at the end of a window, in seconds.
pub const WINDOW_BUFFER_SECS: u64 = 120;

pub open spec fn opt_min(a: Option<u64>, b: Option<u64>) -> Option<u64> {
    match (a, b) {
        (Some(x), Some(y)) => if x <= y { Some(x) } else { Some(y) },
        (Some(x), None) => Some(x),
        (None, Some(y)) => Some(y),
        (None, None) => None,
    }
}

pub open spec fn opt_max(a: Option<u64>, b: Option<u64>) -> Option<u64> {
    match (a, b) {
        (Some(x), Some(y)) => if x >= y { Some(x) } else { Some(y) },
        (Some(x), None) => Some(x),
        (None, Some(y)) => Some(y),
        (None, None) => None,
    }
}

/// The smaller of two optional deadline offsets; a lone offset wins over none.
pub fn get_min(a: Option<u64>, b: Option<u64>) -> (r: Option<u64>)
    ensures
        r == opt_min(a, b),
{
    match (a, b) {
        (Some(x), Some(y)) => if x <= y { Some(x) } else { Some(y) },
        (Some(x), None) => Some(x),
        (None, Some(y)) => Some(y),
        (None, None) => None,
    }
}

/// The larger of two optional deadline offsets; a lone offset wins over none.
pub fn get_max(a: Option<u64>, b: Option<u64>) -> (r: Option<u64>)
    ensures
        r == opt_max(a, b),
{
    match (a, b) {
        (Some(x), Some(y)) => if x >= y { Some(x) } else { Some(y) },
        (Some(x), None) => Some(x),
        (None, Some(y)) => Some(y),
        (None, None) => None,
    }
}

/// The duration a single stage contributes to the window end: its larger
/// offset, or the unbounded stand-in when it has none.
pub open spec fn stage_duration_secs(s: JobStageConfig) -> u64 {
    match opt_max(s.start, s.complete) {
        Some(d) => d,
        None => UNBOUNDED_DURATION_SECS,
    }
}

/// The window length of a config: the maximum stage duration, or the
/// unbounded stand-in when there are no stages.
pub open spec fn max_duration_secs(stages: Seq<JobStageConfig>) -> u64
    decreases stages.len(),
{
    if stages.len() == 0 {
        UNBOUNDED_DURATION_SECS
    } else if stages.len() == 1 {
        stage_duration_secs(stages.last())
    } else {
        let rest = max_duration_secs(stages.drop_last());
        if stage_duration_secs(stages.last()) >= rest {
            stage_duration_secs(stages.last())
        } else {
            rest
        }
    }
}

/// Computes the window length of a config's stage list.
pub fn compute_max_duration_secs(stages: &Vec<JobStageConfig>) -> (r: u64)
    ensures
        r == max_duration_secs(stages@),
{
    if stages.len() == 0 {
        return UNBOUNDED_DURATION_SECS;
    }
    let mut best: u64 = 0;
    let mut i: usize = 0;
    while i < stages.len()
        invariant
            i <= stages.len(),
            stages.len() > 0,
            i > 0 ==> best == max_duration_secs(stages@.take(i as int)),
            i == 0 ==> best == 0,
        decreases stages.len() - i,
    {
        let d = match get_max(stages[i].start, stages[i].complete) {
            Some(d) => d,
            None => UNBOUNDED_DURATION_SECS,
        };
        proof {
            assert(stages@.take(i + 1 as int).drop_last() =~= stages@.take(i as int));
            assert(stages@.take(i + 1 as int).last() == stages@[i as int]);
        }
        if i == 0 {
            best = d;
        } else if d > best {
            best = d;
        }
        i = i + 1;
    }
    proof {
        assert(stages@.take(stages@.len() as int) =~= stages@);
    }
    best
}

/// Whether `now` lies inside the window that opens at `job_start`:
/// strictly after the start, strictly before the completion deadline plus
/// the scanner buffer.
pub open spec fn in_window_at(config: JobConfig, job_start: int, now: int) -> bool {
    &&& now > job_start
    &&& now < job_start + max_duration_secs(config.stages@) + WINDOW_BUFFER_SECS
}

/// Decides window membership for a known window start.
pub fn in_window_given_start(config: &JobConfig, job_start: i64, now: i64) -> (r: bool)
    ensures
        r == in_window_at(*config, job_start as int, now as int),
{
    let max_dur = compute_max_duration_secs(&config.stages);
    let end: i128 = job_start as i128 + max_dur as i128 + WINDOW_BUFFER_SECS as i128;
    now > job_start && (now as i128) < end
}

/// The window never contains its own start, and contains every instant
/// strictly between the start and the buffered completion deadline.
pub proof fn lemma_window_boundary(config: JobConfig, job_start: int, now: int)
    ensures
        !in_window_at(config, job_start, job_start),
        job_start < now < job_start + max_duration_secs(config.stages@) + WINDOW_BUFFER_SECS
            ==> in_window_at(config, job_start, now),
{
}

/// The last fire time of `expr` in `zone` at or before `t`: `t` itself when
/// the schedule matches it, else the latest fire strictly before `t`.
pub open spec fn spec_prev_fire(expr: Seq<char>, zone: Seq<char>, t: int) -> Option<int> {
    if cron_match(expr, zone, t) {
        Some(t)
    } else {
        prev_fire_before(expr, zone, t)
    }
}

/// The last fire time of the cron expression at or before `t`, inclusive at
/// `t` itself.  Fails with a bad-request error on an unknown zone, and an
/// internal error on a malformed expression or when no fire time precedes
/// `t`.
pub fn previous_fire(expr: &str, zone: &str, t: i64) -> (r: Result<i64, AppError>)
    requires
        ts_in_range(t as int),
    ensures
        (r is Ok) <==> (cron_ok(expr@) && zone_ok(zone@) && spec_prev_fire(expr@, zone@, t as int)
            is Some),
        r is Ok ==> Some(r->Ok_0 as int) == spec_prev_fire(expr@, zone@, t as int),
        r is Err && !zone_ok(zone@) ==> r->Err_0 is BadRequest && r->Err_0.spec_message()
            == "Invalid timezone provided: "@ + zone@,
        r is Err && zone_ok(zone@) ==> r->Err_0 is InternalError,
        r is Err && zone_ok(zone@) && !cron_ok(expr@) ==> r->Err_0.spec_message()
            == "invalid schedule found: "@ + expr@,
        r is Err && zone_ok(zone@) && cron_ok(expr@) ==> r->Err_0.spec_message() == expr@,
{
    if !zone_is_valid(zone) {
        return Err(AppError::BadRequest(compose_message("Invalid timezone provided: ", zone)));
    }
    match cron_matches_at(expr, zone, t) {
        None => Err(AppError::InternalError(compose_message("invalid schedule found: ", expr))),
        Some(true) => Ok(t),
        Some(false) => match cron_prev_before(expr, zone, t) {
            Some(Some(p)) => Ok(p),
            Some(None) => Err(AppError::InternalError(String::from_str(expr))),
            None => Err(
                AppError::InternalError(compose_message("invalid schedule found: ", expr)),
            ),
        },
    }
}

/// Whether the config carries a schedule and zone on which the window start
/// is defined at `now`.
pub open spec fn job_start_defined(config: JobConfig, now: int) -> bool {
    &&& config.schedule is Some
    &&& config.zone_id is Some
    &&& cron_ok(config.schedule->0@)
    &&& zone_ok(config.zone_id->0@)
    &&& spec_prev_fire(config.schedule->0@, config.zone_id->0@, now) is Some
}

/// The window start of a scheduled config at `now`: the last fire of its
/// schedule, in its zone, at or before `now`.
pub open spec fn spec_job_start(config: JobConfig, now: int) -> Option<int> {
    if config.schedule is Some && config.zone_id is Some {
        spec_prev_fire(config.schedule->0@, config.zone_id->0@, now)
    } else {
        None
    }
}

/// The window start of the job at `current_time`: the previous fire of its
/// cron schedule in its zone, inclusive at `current_time` itself.
pub fn get_cron_start_time(job: &JobConfig, current_time: i64) -> (r: Result<i64, AppError>)
    requires
        ts_in_range(current_time as int),
    ensures
        (r is Ok) <==> job_start_defined(*job, current_time as int),
        r is Ok ==> Some(r->Ok_0 as int) == spec_job_start(*job, current_time as int),
        job.schedule is None ==> r matches Err(AppError::InternalError(_)),
        job.schedule is Some && job.zone_id is None ==> r matches Err(AppError::BadRequest(_)),
{
    let sched = match &job.schedule {
        Some(s) => s,
        None => {
            return Err(AppError::InternalError(String::from_str("schedule is expected")));
        },
    };
    let zone = match &job.zone_id {
        Some(z) => z,
        None => {
            return Err(
                AppError::BadRequest(compose_message("Invalid timezone provided for: ", sched)),
            );
        },
    };
    previous_fire(sched.as_str(), zone.as_str(), current_time)
}

/// Same as `get_cron_start_time`: the instant the job's current window
/// opened.
pub fn get_job_start_time(job: &JobConfig, current_time: i64) -> (r: Result<i64, AppError>)
    requires
        ts_in_range(current_time as int),
    ensures
        (r is Ok) <==> job_start_defined(*job, current_time as int),
        r is Ok ==> Some(r->Ok_0 as int) == spec_job_start(*job, current_time as int),
{
    get_cron_start_time(job, current_time)
}

/// The instant the job's current window closes, before the scanner buffer:
/// window start plus the maximum stage duration.
pub fn get_job_complete_time(job: &JobConfig, current_time: i64) -> (r: Result<i128, AppError>)
    requires
        ts_in_range(current_time as int),
    ensures
        (r is Ok) <==> job_start_defined(*job, current_time as int),
        r is Ok ==> r->Ok_0 == spec_job_start(*job, current_time as int)->0 + max_duration_secs(
            job.stages@,
        ),
{
    let js = get_cron_start_time(job, current_time)?;
    let d = compute_max_duration_secs(&job.stages);
    Ok(js as i128 + d as i128)
}

/// Whether `current_time` lies inside the job's current window.  The job
/// start is recomputed from the schedule; errors propagate as in
/// `get_cron_start_time`.
pub fn in_between(job: &JobConfig, current_time: i64) -> (r: Result<bool, AppError>)
    requires
        ts_in_range(current_time as int),
    ensures
        (r is Ok) <==> job_start_defined(*job, current_time as int),
        r is Ok ==> r->Ok_0 == in_window_at(
            *job,
            spec_job_start(*job, current_time as int)->0,
            current_time as int,
        ),
{
    let js = get_cron_start_time(job, current_time)?;
    Ok(in_window_given_start(job, js, current_time))
}

} // verus!
