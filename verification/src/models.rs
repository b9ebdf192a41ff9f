use vstd::prelude::*;

verus! {

/// One configured checkpoint of a job: optional deadline offsets, in seconds
/// from the job's start, for the stage's own start and completion.
#[derive(Debug)]
pub struct JobStageConfig {
    pub name: String,
    pub start: Option<u64>,
    pub complete: Option<u64>,
}

impl JobStageConfig {
    /// The configuration invariant: at least one of the two offsets is set.
    pub open spec fn wf(&self) -> bool {
        self.start is Some || self.complete is Some
    }
}

impl Clone for JobStageConfig {
    fn clone(&self) -> (r: Self)
        ensures
            r == *self,
    {
        JobStageConfig { name: self.name.clone(), start: self.start, complete: self.complete }
    }
}

/// A job watched by the engine, identified by `(app_name, job_name)`.
/// Timestamps are UTC epoch seconds.
#[derive(Debug)]
pub struct JobConfig {
    pub app_name: String,
    pub job_name: String,
    pub schedule: Option<String>,
    pub zone_id: Option<String>,
    pub enabled: bool,
    pub stages: Vec<JobStageConfig>,
    pub channel_ids: String,
    pub created_at: i64,
    pub updated_at: i64,
}

impl JobConfig {
    /// Invariants of a stored configuration: a schedule demands a zone,
    /// every stage carries at least one offset, and stage names are unique.
    pub open spec fn wf(&self) -> bool {
        &&& self.schedule is Some ==> self.zone_id is Some
        &&& forall|i: int| 0 <= i < self.stages@.len() ==> (#[trigger] self.stages@[i]).wf()
        &&& forall|i: int, j: int|
            0 <= i < j < self.stages@.len() ==> self.stages@[i].name@ != self.stages@[j].name@
    }
}

impl Clone for JobConfig {
    fn clone(&self) -> (r: Self)
        ensures
            r.app_name == self.app_name,
            r.job_name == self.job_name,
            r.schedule == self.schedule,
            r.zone_id == self.zone_id,
            r.enabled == self.enabled,
            r.stages@ == self.stages@,
            r.channel_ids == self.channel_ids,
            r.created_at == self.created_at,
            r.updated_at == self.updated_at,
    {
        let mut stages: Vec<JobStageConfig> = Vec::new();
        let mut i: usize = 0;
        while i < self.stages.len()
            invariant
                i <= self.stages.len(),
                stages@ =~= self.stages@.take(i as int),
            decreases self.stages.len() - i,
        {
            stages.push(self.stages[i].clone());
            i = i + 1;
        }
        proof {
            assert(stages@ =~= self.stages@);
        }
        JobConfig {
            app_name: self.app_name.clone(),
            job_name: self.job_name.clone(),
            schedule: match &self.schedule {
                Some(s) => Some(s.clone()),
                None => None,
            },
            zone_id: match &self.zone_id {
                Some(z) => Some(z.clone()),
                None => None,
            },
            enabled: self.enabled,
            stages,
            channel_ids: self.channel_ids.clone(),
            created_at: self.created_at,
            updated_at: self.updated_at,
        }
    }
}

/// The run-level status the folder produces.
#[derive(Debug, Clone, Copy, PartialEq, Eq, Structural)]
pub enum JobRunStatus {
    InProgress,
    Complete,
    Failed,
}

/// The per-side status of a stage within a run.
#[derive(Debug, Clone, Copy, PartialEq, Eq, Structural)]
pub enum JobRunStageStatus {
    Occurred,
    Failed,
    Missed,
}

/// The kind of stage event an external pipeline reports.
#[derive(Debug, Clone, Copy, PartialEq, Eq, Structural)]
pub enum JobRunStageType {
    Start,
    Complete,
    Failed,
}

/// One recorded checkpoint of a run.  Timestamps are UTC epoch seconds.
#[derive(Debug)]
pub struct JobRunStage {
    pub name: String,
    pub start_status: Option<JobRunStageStatus>,
    pub start_date_time: Option<i64>,
    pub complete_status: Option<JobRunStageStatus>,
    pub complete_date_time: Option<i64>,
}

impl Clone for JobRunStage {
    fn clone(&self) -> (r: Self)
        ensures
            r == *self,
    {
        JobRunStage {
            name: self.name.clone(),
            start_status: self.start_status,
            start_date_time: self.start_date_time,
            complete_status: self.complete_status,
            complete_date_time: self.complete_date_time,
        }
    }
}

/// One attempted execution of a job.  Timestamps are UTC epoch seconds.
#[derive(Debug)]
pub struct JobRun {
    pub id: String,
    pub app_name: String,
    pub job_name: String,
    pub triggered_at: i64,
    pub status: JobRunStatus,
    pub stages: Vec<JobRunStage>,
    pub created_at: i64,
    pub updated_at: i64,
}

impl Clone for JobRun {
    fn clone(&self) -> (r: Self)
        ensures
            r.id == self.id,
            r.app_name == self.app_name,
            r.job_name == self.job_name,
            r.triggered_at == self.triggered_at,
            r.status == self.status,
            r.stages@ == self.stages@,
            r.created_at == self.created_at,
            r.updated_at == self.updated_at,
    {
        JobRun {
            id: self.id.clone(),
            app_name: self.app_name.clone(),
            job_name: self.job_name.clone(),
            triggered_at: self.triggered_at,
            status: self.status,
            stages: clone_stages(&self.stages),
            created_at: self.created_at,
            updated_at: self.updated_at,
        }
    }
}

/// Copies a stage list element by element.
pub fn clone_stages(stages: &Vec<JobRunStage>) -> (r: Vec<JobRunStage>)
    ensures
        r@ == stages@,
{
    let mut out: Vec<JobRunStage> = Vec::new();
    let mut i: usize = 0;
    while i < stages.len()
        invariant
            i <= stages.len(),
            out@ =~= stages@.take(i as int),
        decreases stages.len() - i,
    {
        out.push(stages[i].clone());
        i = i + 1;
    }
    proof {
        assert(out@ =~= stages@);
    }
    out
}

} // verus!
