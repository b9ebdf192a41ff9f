use vstd::prelude::*;

use crate::errors::{compose_message, AppError};
use crate::models::{JobConfig, JobRunStageType, JobStageConfig};

verus! {

/// The configured stage carrying `name`, at its first occurrence.
pub open spec fn cfg_stage_lookup(cfgs: Seq<JobStageConfig>, name: Seq<char>) -> Option<
    JobStageConfig,
>
    decreases cfgs.len(),
{
    if cfgs.len() == 0 {
        None
    } else if cfgs[0].name@ == name {
        Some(cfgs[0])
    } else {
        cfg_stage_lookup(cfgs.drop_first(), name)
    }
}

/// A prefix without the name does not change the lookup.
proof fn lemma_cfg_stage_lookup_skip(cfgs: Seq<JobStageConfig>, name: Seq<char>, i: int)
    requires
        0 <= i <= cfgs.len(),
        forall|j: int| 0 <= j < i ==> (#[trigger] cfgs[j]).name@ != name,
    ensures
        cfg_stage_lookup(cfgs, name) == cfg_stage_lookup(cfgs.skip(i), name),
    decreases i,
{
    if i > 0 {
        lemma_cfg_stage_lookup_skip(cfgs.drop_first(), name, i - 1);
        assert(cfgs.drop_first().skip(i - 1) =~= cfgs.skip(i));
    } else {
        assert(cfgs.skip(0) =~= cfgs);
    }
}

/// Index of the configured stage carrying `name`, or a bad-request error.
fn find_config_stage(job_config: &JobConfig, stage_name: &String) -> (r: Result<usize, AppError>)
    ensures
        (r is Ok) <==> (cfg_stage_lookup(job_config.stages@, stage_name@) is Some),
        r is Ok ==> r->Ok_0 < job_config.stages@.len() && cfg_stage_lookup(
            job_config.stages@,
            stage_name@,
        ) == Some(job_config.stages@[r->Ok_0 as int]),
        r is Err ==> r->Err_0 is BadRequest && r->Err_0.spec_message()
            == "invalid stage name provided "@ + stage_name@,
{
    let mut i: usize = 0;
    while i < job_config.stages.len()
        invariant
            i <= job_config.stages.len(),
            forall|j: int| 0 <= j < i ==> (#[trigger] job_config.stages@[j]).name@ != stage_name@,
        decreases job_config.stages.len() - i,
    {
        if job_config.stages[i].name == *stage_name {
            proof {
                lemma_cfg_stage_lookup_skip(job_config.stages@, stage_name@, i as int);
                assert(job_config.stages@.skip(i as int)[0] == job_config.stages@[i as int]);
            }
            return Ok(i);
        }
        i = i + 1;
    }
    proof {
        lemma_cfg_stage_lookup_skip(job_config.stages@, stage_name@, job_config.stages@.len() as int);
    }
    Err(AppError::BadRequest(compose_message("invalid stage name provided ", stage_name.as_str())))
}

/// A Start event is valid when the named stage exists and carries a start
/// offset.
pub fn check_valid_start(job_config: &JobConfig, stage_name: &String) -> (r: Result<(), AppError>)
    ensures
        (r is Ok) <==> (cfg_stage_lookup(job_config.stages@, stage_name@) matches Some(c)
            && c.start is Some),
        r is Err ==> r->Err_0 is BadRequest && r->Err_0.spec_message() == event_error_message(
            JobRunStageType::Start,
            job_config.stages@,
            stage_name@,
        ),
{
    let i = match find_config_stage(job_config, stage_name) {
        Ok(i) => i,
        Err(e) => {
            return Err(e);
        },
    };
    if job_config.stages[i].start.is_none() {
        return Err(
            AppError::BadRequest(
                compose_message("start not configured for the stage ", stage_name.as_str()),
            ),
        );
    }
    Ok(())
}

/// A Complete event is valid when the named stage exists and carries a
/// completion offset.
pub fn check_valid_complete(job_config: &JobConfig, stage_name: &String) -> (r: Result<
    (),
    AppError,
>)
    ensures
        (r is Ok) <==> (cfg_stage_lookup(job_config.stages@, stage_name@) matches Some(c)
            && c.complete is Some),
        r is Err ==> r->Err_0 is BadRequest && r->Err_0.spec_message() == event_error_message(
            JobRunStageType::Complete,
            job_config.stages@,
            stage_name@,
        ),
{
    let i = match find_config_stage(job_config, stage_name) {
        Ok(i) => i,
        Err(e) => {
            return Err(e);
        },
    };
    if job_config.stages[i].complete.is_none() {
        return Err(
            AppError::BadRequest(
                compose_message("complete not configured for the stage ", stage_name.as_str()),
            ),
        );
    }
    Ok(())
}

/// Whether an event of this kind against this config and stage name is
/// accepted: Failed events always are, Start and Complete only when the
/// matching offset is configured.
pub open spec fn event_valid(
    stage_type: JobRunStageType,
    cfgs: Seq<JobStageConfig>,
    name: Seq<char>,
) -> bool {
    match stage_type {
        JobRunStageType::Start => cfg_stage_lookup(cfgs, name) matches Some(c) && c.start is Some,
        JobRunStageType::Complete => cfg_stage_lookup(cfgs, name) matches Some(c)
            && c.complete is Some,
        JobRunStageType::Failed => true,
    }
}

/// The message a rejected event carries: an unknown stage name, or the
/// missing offset for the event's side.
pub open spec fn event_error_message(
    stage_type: JobRunStageType,
    cfgs: Seq<JobStageConfig>,
    name: Seq<char>,
) -> Seq<char> {
    if cfg_stage_lookup(cfgs, name) is None {
        "invalid stage name provided "@ + name
    } else if stage_type == JobRunStageType::Start {
        "start not configured for the stage "@ + name
    } else {
        "complete not configured for the stage "@ + name
    }
}

/// Validates an incoming stage event against the job's configuration.
pub fn check(
    event_stage_type: &JobRunStageType,
    job_config: &JobConfig,
    stage_name: &String,
) -> (r: Result<(), AppError>)
    ensures
        (r is Ok) <==> event_valid(*event_stage_type, job_config.stages@, stage_name@),
        r is Err ==> r->Err_0 is BadRequest && r->Err_0.spec_message() == event_error_message(
            *event_stage_type,
            job_config.stages@,
            stage_name@,
        ),
{
    match event_stage_type {
        JobRunStageType::Start => check_valid_start(job_config, stage_name),
        JobRunStageType::Complete => check_valid_complete(job_config, stage_name),
        JobRunStageType::Failed => Ok(()),
    }
}

} // verus!
