use vstd::prelude::*;

use crate::cron_utils::{get_min, opt_min};
use crate::models::{JobConfig, JobRun, JobRunStage, JobRunStageStatus, JobRunStatus, JobStageConfig};

verus! {

// ---------------------------------------------------------------------------
// First-occurrence lookup of a stage record by name.
//
// A run's stage list is append-only and may hold several entries of one
// name; the matcher and the folder read it as a map from name to the first
// entry carrying that name.
// ---------------------------------------------------------------------------

pub open spec fn stage_lookup(stages: Seq<JobRunStage>, name: Seq<char>) -> Option<JobRunStage>
    decreases stages.len(),
{
    if stages.len() == 0 {
        None
    } else if stages[0].name@ == name {
        Some(stages[0])
    } else {
        stage_lookup(stages.drop_first(), name)
    }
}

/// A prefix without the name does not change the lookup.
pub proof fn lemma_stage_lookup_skip(stages: Seq<JobRunStage>, name: Seq<char>, i: int)
    requires
        0 <= i <= stages.len(),
        forall|j: int| 0 <= j < i ==> (#[trigger] stages[j]).name@ != name,
    ensures
        stage_lookup(stages, name) == stage_lookup(stages.skip(i), name),
    decreases i,
{
    if i > 0 {
        assert(stages[0].name@ != name);
        lemma_stage_lookup_skip(stages.drop_first(), name, i - 1);
        assert(stages.drop_first().skip(i - 1) =~= stages.skip(i));
    } else {
        assert(stages.skip(0) =~= stages);
    }
}

/// The lookup finds an entry exactly when one with that name exists, and
/// then returns one whose name matches.
pub proof fn lemma_stage_lookup_exists(stages: Seq<JobRunStage>, name: Seq<char>)
    ensures
        (stage_lookup(stages, name) is Some) <==> (exists|j: int|
            0 <= j < stages.len() && (#[trigger] stages[j]).name@ == name),
        stage_lookup(stages, name) is Some ==> stage_lookup(stages, name)->0.name@ == name,
    decreases stages.len(),
{
    if stages.len() > 0 {
        if stages[0].name@ == name {
        } else {
            lemma_stage_lookup_exists(stages.drop_first(), name);
            if stage_lookup(stages, name) is Some {
                let j = choose|j: int|
                    0 <= j < stages.drop_first().len() && (#[trigger] stages.drop_first()[j]).name@
                        == name;
                assert(stages[j + 1].name@ == name);
            }
            if exists|j: int| 0 <= j < stages.len() && (#[trigger] stages[j]).name@ == name {
                let j = choose|j: int| 0 <= j < stages.len() && (#[trigger] stages[j]).name@ == name;
                assert(j >= 1);
                assert(stages.drop_first()[j - 1].name@ == name);
            }
        }
    }
}

/// Index of the first stage entry carrying `name`, when one exists.
pub fn find_stage_index(stages: &Vec<JobRunStage>, name: &String) -> (r: Option<usize>)
    ensures
        match r {
            Some(i) => i < stages@.len() && stage_lookup(stages@, name@) == Some(stages@[i as int]),
            None => stage_lookup(stages@, name@) is None,
        },
{
    let mut i: usize = 0;
    while i < stages.len()
        invariant
            i <= stages.len(),
            forall|j: int| 0 <= j < i ==> (#[trigger] stages@[j]).name@ != name@,
        decreases stages.len() - i,
    {
        if stages[i].name == *name {
            proof {
                lemma_stage_lookup_skip(stages@, name@, i as int);
                assert(stages@.skip(i as int)[0] == stages@[i as int]);
            }
            return Some(i);
        }
        i = i + 1;
    }
    proof {
        lemma_stage_lookup_skip(stages@, name@, stages@.len() as int);
    }
    None
}

// ---------------------------------------------------------------------------
// Stable sort of configured stages by their earliest deadline offset.
// ---------------------------------------------------------------------------

/// The sort key of a configured stage: its earliest offset.  A stage with
/// no offset at all is outside the configuration invariant; the key falls
/// back to zero for totality.
pub open spec fn stage_sort_key(s: JobStageConfig) -> u64 {
    match opt_min(s.start, s.complete) {
        Some(k) => k,
        None => 0,
    }
}

/// Inserts `s` behind every element of `sorted` whose key does not exceed
/// its own, keeping equal keys in their existing order.
pub open spec fn insert_by_key(s: JobStageConfig, sorted: Seq<JobStageConfig>) -> Seq<
    JobStageConfig,
>
    decreases sorted.len(),
{
    if sorted.len() == 0 {
        seq![s]
    } else if stage_sort_key(sorted.last()) <= stage_sort_key(s) {
        sorted.push(s)
    } else {
        insert_by_key(s, sorted.drop_last()).push(sorted.last())
    }
}

/// Insertion sort by `stage_sort_key`: ascending, stable on ties.
pub open spec fn sort_stages_by_min(stages: Seq<JobStageConfig>) -> Seq<JobStageConfig>
    decreases stages.len(),
{
    if stages.len() == 0 {
        Seq::empty()
    } else {
        insert_by_key(stages.last(), sort_stages_by_min(stages.drop_last()))
    }
}

/// Where the insertion lands: just past the last element whose key does not
/// exceed the inserted key.
proof fn lemma_insert_by_key_at(s: JobStageConfig, sorted: Seq<JobStageConfig>, j: int)
    requires
        0 <= j <= sorted.len(),
        forall|k: int| j <= k < sorted.len() ==> stage_sort_key(#[trigger] sorted[k])
            > stage_sort_key(s),
        j > 0 ==> stage_sort_key(sorted[j - 1]) <= stage_sort_key(s),
    ensures
        insert_by_key(s, sorted) =~= sorted.take(j) + seq![s] + sorted.skip(j),
    decreases sorted.len(),
{
    if j == sorted.len() {
        if sorted.len() == 0 {
        } else {
            assert(insert_by_key(s, sorted) == sorted.push(s));
        }
    } else {
        assert(stage_sort_key(sorted.last()) > stage_sort_key(s));
        lemma_insert_by_key_at(s, sorted.drop_last(), j);
        assert(sorted.drop_last().take(j) =~= sorted.take(j));
        assert(insert_by_key(s, sorted) == insert_by_key(s, sorted.drop_last()).push(
            sorted.last(),
        ));
    }
}

/// The executable sort key of a configured stage.
pub fn stage_key_of(s: &JobStageConfig) -> (k: u64)
    ensures
        k == stage_sort_key(*s),
{
    match get_min(s.start, s.complete) {
        Some(k) => k,
        None => 0,
    }
}

/// An insertion puts the element at a single position, leaving the rest in
/// order.
pub proof fn lemma_insert_by_key_shape(s: JobStageConfig, sorted: Seq<JobStageConfig>)
    ensures
        exists|j: int|
            0 <= j <= sorted.len() && insert_by_key(s, sorted) == sorted.take(j) + seq![s]
                + sorted.skip(j),
    decreases sorted.len(),
{
    if sorted.len() == 0 {
        assert(insert_by_key(s, sorted) =~= sorted.take(0) + seq![s] + sorted.skip(0));
        assert(0 <= 0 <= sorted.len() && insert_by_key(s, sorted) == sorted.take(0) + seq![s]
            + sorted.skip(0));
    } else if stage_sort_key(sorted.last())
        <= stage_sort_key(s) {
        let j = sorted.len() as int;
        assert(insert_by_key(s, sorted) =~= sorted.take(j) + seq![s] + sorted.skip(j));
        assert(0 <= j <= sorted.len() && insert_by_key(s, sorted) == sorted.take(j) + seq![s]
            + sorted.skip(j));
    } else {
        lemma_insert_by_key_shape(s, sorted.drop_last());
        let j = choose|j: int|
            0 <= j <= sorted.drop_last().len() && insert_by_key(s, sorted.drop_last())
                == sorted.drop_last().take(j) + seq![s] + sorted.drop_last().skip(j);
        assert(insert_by_key(s, sorted) == insert_by_key(s, sorted.drop_last()).push(
            sorted.last(),
        ));
        assert(insert_by_key(s, sorted) =~= sorted.take(j) + seq![s] + sorted.skip(j));
        assert(0 <= j <= sorted.len() && insert_by_key(s, sorted) == sorted.take(j) + seq![s]
            + sorted.skip(j));
    }
}

/// Inserting behind every key that does not exceed the new one keeps the
/// sequence ascending.
proof fn lemma_insert_by_key_sorted(s: JobStageConfig, sorted: Seq<JobStageConfig>)
    requires
        forall|x: int, y: int|
            0 <= x < y < sorted.len() ==> stage_sort_key(#[trigger] sorted[x]) <= stage_sort_key(
                #[trigger] sorted[y],
            ),
    ensures
        forall|x: int, y: int|
            0 <= x < y < insert_by_key(s, sorted).len() ==> stage_sort_key(
                #[trigger] insert_by_key(s, sorted)[x],
            ) <= stage_sort_key(#[trigger] insert_by_key(s, sorted)[y]),
    decreases sorted.len(),
{
    if sorted.len() == 0 {
    } else if stage_sort_key(sorted.last()) <= stage_sort_key(s) {
        let r = sorted.push(s);
        assert forall|x: int, y: int|
            0 <= x < y < r.len() implies stage_sort_key(#[trigger] r[x]) <= stage_sort_key(
            #[trigger] r[y],
        ) by {
            if y == r.len() - 1 {
                assert(r[x] == sorted[x]);
                assert(stage_sort_key(sorted[x]) <= stage_sort_key(sorted.last()));
            } else {
                assert(r[x] == sorted[x] && r[y] == sorted[y]);
            }
        }
    } else {
        let dl = sorted.drop_last();
        assert(forall|x: int| 0 <= x < dl.len() ==> dl[x] == (#[trigger] sorted[x]));
        lemma_insert_by_key_sorted(s, dl);
        let a = insert_by_key(s, dl);
        lemma_insert_by_key_shape(s, dl);
        let j = choose|j: int|
            0 <= j <= dl.len() && insert_by_key(s, dl) == dl.take(j) + seq![s] + dl.skip(j);
        // every element of the recursive insertion is bounded by the key
        // of the element put back on top
        assert(forall|x: int|
            0 <= x < a.len() ==> stage_sort_key(#[trigger] a[x]) <= stage_sort_key(sorted.last()));
        let r = a.push(sorted.last());
        assert(insert_by_key(s, sorted) == r);
        assert forall|x: int, y: int|
            0 <= x < y < r.len() implies stage_sort_key(#[trigger] r[x]) <= stage_sort_key(
            #[trigger] r[y],
        ) by {
            if y == r.len() - 1 {
                assert(r[x] == a[x]);
            } else {
                assert(r[x] == a[x] && r[y] == a[y]);
            }
        }
    }
}

/// The matcher's order: the sorted stage list ascends by earliest
/// deadline.  Ties keep their configured order by construction, each
/// element being inserted behind every equal key.
pub proof fn lemma_sort_stages_ascending(stages: Seq<JobStageConfig>)
    ensures
        forall|x: int, y: int|
            0 <= x < y < sort_stages_by_min(stages).len() ==> stage_sort_key(
                #[trigger] sort_stages_by_min(stages)[x],
            ) <= stage_sort_key(#[trigger] sort_stages_by_min(stages)[y]),
    decreases stages.len(),
{
    if stages.len() > 0 {
        lemma_sort_stages_ascending(stages.drop_last());
        lemma_insert_by_key_sorted(stages.last(), sort_stages_by_min(stages.drop_last()));
    }
}

/// Sorts the configured stages by earliest deadline, keeping config order
/// on ties.
pub fn sort_stages(stages: &Vec<JobStageConfig>) -> (r: Vec<JobStageConfig>)
    requires
        forall|i: int| 0 <= i < stages@.len() ==> (#[trigger] stages@[i]).wf(),
    ensures
        r@ == sort_stages_by_min(stages@),
{
    let mut out: Vec<JobStageConfig> = Vec::new();
    let mut i: usize = 0;
    while i < stages.len()
        invariant
            i <= stages.len(),
            out@ == sort_stages_by_min(stages@.take(i as int)),
            forall|k: int| 0 <= k < stages@.len() ==> (#[trigger] stages@[k]).wf(),
        decreases stages.len() - i,
    {
        let s = stages[i].clone();
        let key: u64 = stage_key_of(&s);
        let mut j: usize = out.len();
        while j > 0 && stage_key_of(&out[j - 1]) > key
            invariant
                j <= out.len(),
                forall|k: int| j <= k < out@.len() ==> stage_sort_key(#[trigger] out@[k]) > key,
            decreases j,
        {
            j = j - 1;
        }
        proof {
            lemma_insert_by_key_at(s, out@, j as int);
            assert(stages@.take(i + 1 as int).drop_last() =~= stages@.take(i as int));
            assert(stages@.take(i + 1 as int).last() == stages@[i as int]);
        }
        out.insert(j, s);
        proof {
            assert(out@ =~= sort_stages_by_min(stages@.take(i as int)).take(j as int) + seq![s]
                + sort_stages_by_min(stages@.take(i as int)).skip(j as int));
        }
        i = i + 1;
    }
    proof {
        assert(stages@.take(stages@.len() as int) =~= stages@);
    }
    out
}

// ---------------------------------------------------------------------------
// The matcher: derive missed stage deadlines for one run at one instant.
// ---------------------------------------------------------------------------

/// A stage record without any recorded event.
pub open spec fn empty_run_stage(name: String) -> JobRunStage {
    JobRunStage {
        name,
        start_status: None,
        start_date_time: None,
        complete_status: None,
        complete_date_time: None,
    }
}

/// The record the matcher works on for a configured stage: the run's first
/// entry of that name, or an empty one.
pub open spec fn base_stage(run_stages: Seq<JobRunStage>, cfg: JobStageConfig) -> JobRunStage {
    match stage_lookup(run_stages, cfg.name@) {
        Some(s) => s,
        None => empty_run_stage(cfg.name),
    }
}

/// The start deadline has passed without a recorded start status.
pub open spec fn start_timed_out(cfg: JobStageConfig, s: JobRunStage, now: i64, js: i64) -> bool {
    cfg.start is Some && s.start_status is None && js + cfg.start->0 < now
}

/// The completion deadline has passed without a recorded completion status.
pub open spec fn complete_timed_out(cfg: JobStageConfig, s: JobRunStage, now: i64, js: i64) -> bool {
    cfg.complete is Some && s.complete_status is None && js + cfg.complete->0 < now
}

/// Whether the matcher updates the stage at all.
pub open spec fn stage_updated(cfg: JobStageConfig, s: JobRunStage, now: i64, js: i64) -> bool {
    start_timed_out(cfg, s, now, js) || complete_timed_out(cfg, s, now, js)
}

/// Marks each passed deadline `Missed` at `now`, leaving recorded statuses
/// untouched.
pub open spec fn apply_timeouts(cfg: JobStageConfig, s: JobRunStage, now: i64, js: i64) -> JobRunStage {
    let s1 = if start_timed_out(cfg, s, now, js) {
        JobRunStage {
            start_status: Some(JobRunStageStatus::Missed),
            start_date_time: Some(now),
            ..s
        }
    } else {
        s
    };
    if complete_timed_out(cfg, s, now, js) {
        JobRunStage {
            complete_status: Some(JobRunStageStatus::Missed),
            complete_date_time: Some(now),
            ..s1
        }
    } else {
        s1
    }
}

/// The matcher over a list of configured stages, in order: for each one,
/// emit its updated record when a deadline has newly passed.
pub open spec fn detect_spec(
    cfgs: Seq<JobStageConfig>,
    run_stages: Seq<JobRunStage>,
    now: i64,
    js: i64,
) -> Seq<JobRunStage>
    decreases cfgs.len(),
{
    if cfgs.len() == 0 {
        Seq::empty()
    } else {
        let rest = detect_spec(cfgs.drop_last(), run_stages, now, js);
        let b = base_stage(run_stages, cfgs.last());
        if stage_updated(cfgs.last(), b, now, js) {
            rest.push(apply_timeouts(cfgs.last(), b, now, js))
        } else {
            rest
        }
    }
}

/// What one matcher pass over a whole config produces: the configured
/// stages sorted by earliest deadline, each checked against the run.
pub open spec fn detect_time_outs_spec(config: JobConfig, run: JobRun, now: i64, js: i64) -> Seq<
    JobRunStage,
> {
    detect_spec(sort_stages_by_min(config.stages@), run.stages@, now, js)
}

/// One matcher pass: which configured stages of this run have newly missed
/// a deadline at `current_time`, given the window start `job_start_time`.
/// Pure and deterministic; stages whose deadline has not passed, or whose
/// status is already recorded, are not emitted.
pub fn detect_time_outs(
    job_config: &JobConfig,
    latest_job_run: &JobRun,
    current_time: i64,
    job_start_time: i64,
) -> (r: Vec<JobRunStage>)
    requires
        forall|i: int| 0 <= i < job_config.stages@.len() ==> (#[trigger] job_config.stages@[i]).wf(),
    ensures
        r@ == detect_time_outs_spec(*job_config, *latest_job_run, current_time, job_start_time),
{
    let sorted = sort_stages(&job_config.stages);
    let mut out: Vec<JobRunStage> = Vec::new();
    let mut i: usize = 0;
    while i < sorted.len()
        invariant
            i <= sorted.len(),
            out@ == detect_spec(
                sorted@.take(i as int),
                latest_job_run.stages@,
                current_time,
                job_start_time,
            ),
        decreases sorted.len() - i,
    {
        let cfg = &sorted[i];
        let mut stage = match find_stage_index(&latest_job_run.stages, &cfg.name) {
            Some(k) => latest_job_run.stages[k].clone(),
            None => JobRunStage {
                name: cfg.name.clone(),
                start_status: None,
                start_date_time: None,
                complete_status: None,
                complete_date_time: None,
            },
        };
        assert(stage == base_stage(latest_job_run.stages@, sorted@[i as int]));
        let mut updated = false;
        if let Some(start_offset) = cfg.start {
            if stage.start_status.is_none() && (job_start_time as i128 + start_offset as i128)
                < current_time as i128 {
                stage.start_status = Some(JobRunStageStatus::Missed);
                stage.start_date_time = Some(current_time);
                updated = true;
            }
        }
        if let Some(complete_offset) = cfg.complete {
            if stage.complete_status.is_none() && (job_start_time as i128 + complete_offset as i128)
                < current_time as i128 {
                stage.complete_status = Some(JobRunStageStatus::Missed);
                stage.complete_date_time = Some(current_time);
                updated = true;
            }
        }
        proof {
            assert(sorted@.take(i + 1 as int).drop_last() =~= sorted@.take(i as int));
            assert(sorted@.take(i + 1 as int).last() == sorted@[i as int]);
        }
        if updated {
            out.push(stage);
        }
        i = i + 1;
    }
    proof {
        assert(sorted@.take(sorted@.len() as int) =~= sorted@);
    }
    out
}

// ---------------------------------------------------------------------------
// The folder: roll stage states up into a run-level status.
// ---------------------------------------------------------------------------

/// A configured stage fails the run when a required side carries a
/// recorded status other than Occurred.
pub open spec fn stage_failed_for(cfg: JobStageConfig, s: JobRunStage) -> bool {
    ||| (cfg.start is Some && s.start_status is Some && s.start_status->0
        != JobRunStageStatus::Occurred)
    ||| (cfg.complete is Some && s.complete_status is Some && s.complete_status->0
        != JobRunStageStatus::Occurred)
}

/// Folds the configured stages left to right: the first failing stage
/// decides Failed; a stage with no record leaves the run InProgress; a run
/// with every stage present and none failing is Complete.
pub open spec fn fold_status(
    cfgs: Seq<JobStageConfig>,
    stages: Seq<JobRunStage>,
    any_missing: bool,
) -> JobRunStatus
    decreases cfgs.len(),
{
    if cfgs.len() == 0 {
        if any_missing {
            JobRunStatus::InProgress
        } else {
            JobRunStatus::Complete
        }
    } else {
        match stage_lookup(stages, cfgs[0].name@) {
            None => fold_status(cfgs.drop_first(), stages, true),
            Some(s) => if stage_failed_for(cfgs[0], s) {
                JobRunStatus::Failed
            } else {
                fold_status(cfgs.drop_first(), stages, any_missing)
            },
        }
    }
}

/// The folded status of a run: terminal statuses are returned unchanged,
/// an in-progress run is folded over the config.
pub open spec fn get_status_spec(config: JobConfig, run: JobRun) -> JobRunStatus {
    if run.status != JobRunStatus::InProgress {
        run.status
    } else {
        fold_status(config.stages@, run.stages@, false)
    }
}

/// Folds the run's stage states under the config into a run-level status.
pub fn get_status(job_config: &JobConfig, job_run: &JobRun) -> (r: JobRunStatus)
    ensures
        r == get_status_spec(*job_config, *job_run),
{
    if job_run.status != JobRunStatus::InProgress {
        return job_run.status;
    }
    let mut is_missed = false;
    let mut i: usize = 0;
    proof {
        assert(job_config.stages@.skip(0) =~= job_config.stages@);
    }
    while i < job_config.stages.len()
        invariant
            i <= job_config.stages.len(),
            job_run.status == JobRunStatus::InProgress,
            fold_status(job_config.stages@.skip(i as int), job_run.stages@, is_missed)
                == fold_status(job_config.stages@, job_run.stages@, false),
        decreases job_config.stages.len() - i,
    {
        let cfg = &job_config.stages[i];
        proof {
            assert(job_config.stages@.skip(i as int).drop_first() =~= job_config.stages@.skip(
                i + 1 as int,
            ));
            assert(job_config.stages@.skip(i as int)[0] == job_config.stages@[i as int]);
        }
        match find_stage_index(&job_run.stages, &cfg.name) {
            None => {
                is_missed = true;
            },
            Some(k) => {
                let s = &job_run.stages[k];
                let mut failed = false;
                if cfg.start.is_some() {
                    if let Some(st) = s.start_status {
                        if st != JobRunStageStatus::Occurred {
                            failed = true;
                        }
                    }
                }
                if cfg.complete.is_some() {
                    if let Some(st) = s.complete_status {
                        if st != JobRunStageStatus::Occurred {
                            failed = true;
                        }
                    }
                }
                if failed {
                    proof {
                        assert(stage_failed_for(
                            job_config.stages@[i as int],
                            job_run.stages@[k as int],
                        ));
                        assert(fold_status(
                            job_config.stages@.skip(i as int),
                            job_run.stages@,
                            is_missed,
                        ) == JobRunStatus::Failed);
                    }
                    return JobRunStatus::Failed;
                }
            },
        }
        i = i + 1;
    }
    proof {
        assert(job_config.stages@.skip(job_config.stages@.len() as int)
            =~= Seq::<JobStageConfig>::empty());
    }
    if is_missed {
        JobRunStatus::InProgress
    } else {
        JobRunStatus::Complete
    }
}

// ---------------------------------------------------------------------------
// Laws of the matcher and the folder.
// ---------------------------------------------------------------------------

/// The matcher never rewrites a recorded `Occurred` status: for any stage
/// name whose first record carries `Occurred` on a side, every stage the
/// matcher emits under that name still carries `Occurred` there, whatever
/// the instant.
pub proof fn lemma_no_overwrite_of_occurred(
    cfgs: Seq<JobStageConfig>,
    stages: Seq<JobRunStage>,
    now: i64,
    js: i64,
    name: Seq<char>,
)
    requires
        stage_lookup(stages, name) is Some,
    ensures
        forall|i: int|
            0 <= i < detect_spec(cfgs, stages, now, js).len() && (#[trigger] detect_spec(
                cfgs,
                stages,
                now,
                js,
            )[i]).name@ == name ==> {
                let b = stage_lookup(stages, name)->0;
                let e = detect_spec(cfgs, stages, now, js)[i];
                &&& (b.start_status == Some(JobRunStageStatus::Occurred) ==> e.start_status
                    == Some(JobRunStageStatus::Occurred))
                &&& (b.complete_status == Some(JobRunStageStatus::Occurred) ==> e.complete_status
                    == Some(JobRunStageStatus::Occurred))
            },
    decreases cfgs.len(),
{
    if cfgs.len() > 0 {
        lemma_no_overwrite_of_occurred(cfgs.drop_last(), stages, now, js, name);
        lemma_stage_lookup_exists(stages, cfgs.last().name@);
    }
}

/// Appending entries never changes an existing first-occurrence record.
pub proof fn lemma_stage_lookup_append(s1: Seq<JobRunStage>, s2: Seq<JobRunStage>, name: Seq<char>)
    ensures
        stage_lookup(s1 + s2, name) == if stage_lookup(s1, name) is Some {
            stage_lookup(s1, name)
        } else {
            stage_lookup(s2, name)
        },
    decreases s1.len(),
{
    if s1.len() == 0 {
        assert(s1 + s2 =~= s2);
    } else {
        assert((s1 + s2)[0] == s1[0]);
        assert((s1 + s2).drop_first() =~= s1.drop_first() + s2);
        lemma_stage_lookup_append(s1.drop_first(), s2, name);
    }
}

/// A fold that has already seen a missing stage can no longer be Complete.
proof fn lemma_fold_missing_not_complete(cfgs: Seq<JobStageConfig>, stages: Seq<JobRunStage>)
    ensures
        fold_status(cfgs, stages, true) != JobRunStatus::Complete,
    decreases cfgs.len(),
{
    if cfgs.len() > 0 {
        lemma_fold_missing_not_complete(cfgs.drop_first(), stages);
    }
}

/// A Failed fold stays Failed when entries are appended, whatever the
/// missing flags.
proof fn lemma_fold_failed_monotonic(
    cfgs: Seq<JobStageConfig>,
    s1: Seq<JobRunStage>,
    extra: Seq<JobRunStage>,
    b1: bool,
    b2: bool,
)
    requires
        fold_status(cfgs, s1, b1) == JobRunStatus::Failed,
    ensures
        fold_status(cfgs, s1 + extra, b2) == JobRunStatus::Failed,
    decreases cfgs.len(),
{
    if cfgs.len() > 0 {
        lemma_stage_lookup_append(s1, extra, cfgs[0].name@);
        match stage_lookup(s1, cfgs[0].name@) {
            None => {
                match stage_lookup(s1 + extra, cfgs[0].name@) {
                    None => {
                        lemma_fold_failed_monotonic(cfgs.drop_first(), s1, extra, true, true);
                    },
                    Some(s) => {
                        if !stage_failed_for(cfgs[0], s) {
                            lemma_fold_failed_monotonic(cfgs.drop_first(), s1, extra, true, b2);
                        }
                    },
                }
            },
            Some(s) => {
                if !stage_failed_for(cfgs[0], s) {
                    lemma_fold_failed_monotonic(cfgs.drop_first(), s1, extra, b1, b2);
                }
            },
        }
    }
}

/// A Complete fold stays Complete when entries are appended: every
/// configured stage already has its first record, and appended entries
/// cannot displace one.
proof fn lemma_fold_complete_monotonic(
    cfgs: Seq<JobStageConfig>,
    s1: Seq<JobRunStage>,
    extra: Seq<JobRunStage>,
)
    requires
        fold_status(cfgs, s1, false) == JobRunStatus::Complete,
    ensures
        fold_status(cfgs, s1 + extra, false) == JobRunStatus::Complete,
    decreases cfgs.len(),
{
    if cfgs.len() > 0 {
        lemma_stage_lookup_append(s1, extra, cfgs[0].name@);
        match stage_lookup(s1, cfgs[0].name@) {
            None => {
                lemma_fold_missing_not_complete(cfgs.drop_first(), s1);
            },
            Some(s) => {
                lemma_fold_complete_monotonic(cfgs.drop_first(), s1, extra);
            },
        }
    }
}

/// A run holding a record for every configured stage, none of them
/// failing a required side, folds to Complete: the happy path of a fully
/// reported run.
pub proof fn lemma_all_recorded_folds_complete(
    cfgs: Seq<JobStageConfig>,
    stages: Seq<JobRunStage>,
)
    requires
        forall|i: int|
            0 <= i < cfgs.len() ==> stage_lookup(stages, (#[trigger] cfgs[i]).name@) is Some
                && !stage_failed_for(cfgs[i], stage_lookup(stages, cfgs[i].name@)->0),
    ensures
        fold_status(cfgs, stages, false) == JobRunStatus::Complete,
    decreases cfgs.len(),
{
    if cfgs.len() > 0 {
        assert forall|i: int| 0 <= i < cfgs.drop_first().len() implies stage_lookup(
            stages,
            (#[trigger] cfgs.drop_first()[i]).name@,
        ) is Some && !stage_failed_for(
            cfgs.drop_first()[i],
            stage_lookup(stages, cfgs.drop_first()[i].name@)->0,
        ) by {
            assert(cfgs.drop_first()[i] == cfgs[i + 1]);
        }
        lemma_all_recorded_folds_complete(cfgs.drop_first(), stages);
    }
}

/// A run whose status is already terminal folds to that status unchanged.
pub proof fn lemma_folder_terminal_fixed(config: JobConfig, run: JobRun)
    requires
        run.status != JobRunStatus::InProgress,
    ensures
        get_status_spec(config, run) == run.status,
{
}

/// Folder monotonicity: once the folder decides Complete or Failed on a
/// run, it decides the same on any run carrying the same status and the
/// same stage entries with more appended.
pub proof fn lemma_folder_monotonic(
    config: JobConfig,
    run1: JobRun,
    run2: JobRun,
    extra: Seq<JobRunStage>,
)
    requires
        run2.stages@ == run1.stages@ + extra,
        run2.status == run1.status,
        get_status_spec(config, run1) != JobRunStatus::InProgress,
    ensures
        get_status_spec(config, run2) == get_status_spec(config, run1),
{
    if run1.status == JobRunStatus::InProgress {
        let st = fold_status(config.stages@, run1.stages@, false);
        if st == JobRunStatus::Failed {
            lemma_fold_failed_monotonic(config.stages@, run1.stages@, extra, false, false);
        } else {
            lemma_fold_complete_monotonic(config.stages@, run1.stages@, extra);
        }
    }
}

} // verus!
