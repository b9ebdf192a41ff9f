use vstd::prelude::*;

use crate::cron_utils::{get_job_start_time, in_between, in_window_at, spec_job_start};
use crate::errors::AppError;
use crate::job_run_matching::{
    apply_timeouts, base_stage, complete_timed_out, detect_spec, detect_time_outs,
    detect_time_outs_spec, empty_run_stage, find_stage_index, insert_by_key, sort_stages,
    sort_stages_by_min, stage_lookup, stage_updated, start_timed_out,
};
use crate::models::{JobConfig, JobRun, JobRunStage, JobRunStatus, JobStageConfig};
use crate::time_utils::ts_in_range;

verus! {

// ---------------------------------------------------------------------------
// Merge of stage lists by name: insertion order of the first occurrence,
// value of the last occurrence.  This is the write the scanner applies when
// it folds the matcher's output back into a run.
// ---------------------------------------------------------------------------

/// The last entry carrying `name`, scanning from the back.
pub open spec fn last_stage_lookup(stages: Seq<JobRunStage>, name: Seq<char>) -> Option<JobRunStage>
    decreases stages.len(),
{
    if stages.len() == 0 {
        None
    } else if stages.last().name@ == name {
        Some(stages.last())
    } else {
        last_stage_lookup(stages.drop_last(), name)
    }
}

/// Whether position `i` holds the first occurrence of its name.
pub open spec fn first_occurrence_at(all: Seq<JobRunStage>, i: int) -> bool {
    forall|j: int| 0 <= j < i ==> (#[trigger] all[j]).name@ != all[i].name@
}

/// The merge of the first `n` positions: one entry per distinct name, in
/// first-occurrence order, carrying the last value recorded anywhere in
/// `all` under that name.
pub open spec fn merge_upto(all: Seq<JobRunStage>, n: int) -> Seq<JobRunStage>
    decreases n,
{
    if n <= 0 {
        Seq::empty()
    } else {
        let rest = merge_upto(all, n - 1);
        if first_occurrence_at(all, n - 1) {
            rest.push(last_stage_lookup(all, all[n - 1].name@)->0)
        } else {
            rest
        }
    }
}

/// Merging `stages2` into `stages1`: entries keep the position of their
/// name's first appearance, and the value written last wins.
pub open spec fn merge_stages(stages1: Seq<JobRunStage>, stages2: Seq<JobRunStage>) -> Seq<
    JobRunStage,
> {
    merge_upto(stages1 + stages2, (stages1 + stages2).len() as int)
}

/// Index of the last entry carrying `name`, when one exists.
fn find_last_stage_index(stages: &Vec<JobRunStage>, name: &String) -> (r: Option<usize>)
    ensures
        match r {
            Some(i) => i < stages@.len() && last_stage_lookup(stages@, name@) == Some(
                stages@[i as int],
            ),
            None => last_stage_lookup(stages@, name@) is None,
        },
{
    let mut i: usize = stages.len();
    proof {
        assert(stages@.take(stages@.len() as int) =~= stages@);
    }
    while i > 0
        invariant
            i <= stages.len(),
            last_stage_lookup(stages@, name@) == last_stage_lookup(stages@.take(i as int), name@),
        decreases i,
    {
        proof {
            assert(stages@.take(i as int).last() == stages@[i - 1]);
            assert(stages@.take(i as int).drop_last() =~= stages@.take(i - 1));
        }
        if stages[i - 1].name == *name {
            return Some(i - 1);
        }
        i = i - 1;
    }
    None
}

/// Combines two stage lists into one entry per name: the position of the
/// name's first appearance, the value of its last.
pub fn combine(stages1: &Vec<JobRunStage>, stages2: &Vec<JobRunStage>) -> (r: Vec<JobRunStage>)
    ensures
        r@ == merge_stages(stages1@, stages2@),
{
    let mut all: Vec<JobRunStage> = Vec::new();
    let mut i: usize = 0;
    while i < stages1.len()
        invariant
            i <= stages1.len(),
            all@ =~= stages1@.take(i as int),
        decreases stages1.len() - i,
    {
        all.push(stages1[i].clone());
        i = i + 1;
    }
    let mut j: usize = 0;
    while j < stages2.len()
        invariant
            j <= stages2.len(),
            all@ =~= stages1@ + stages2@.take(j as int),
        decreases stages2.len() - j,
    {
        all.push(stages2[j].clone());
        j = j + 1;
    }
    proof {
        assert(all@ =~= stages1@ + stages2@);
    }
    let mut out: Vec<JobRunStage> = Vec::new();
    let mut k: usize = 0;
    while k < all.len()
        invariant
            k <= all.len(),
            all@ == stages1@ + stages2@,
            out@ == merge_upto(all@, k as int),
        decreases all.len() - k,
    {
        let mut is_first = true;
        let mut m: usize = 0;
        while m < k
            invariant
                m <= k,
                k < all@.len(),
                is_first == (forall|j2: int|
                    0 <= j2 < m ==> (#[trigger] all@[j2]).name@ != all@[k as int].name@),
            decreases k - m,
        {
            if all[m].name == all[k].name {
                is_first = false;
            }
            m = m + 1;
        }
        if is_first {
            match find_last_stage_index(&all, &all[k].name) {
                Some(v) => {
                    out.push(all[v].clone());
                },
                None => {
                    proof {
                        // position k itself carries the name, so a last
                        // occurrence exists
                        assert(all@.len() > 0);
                        assert(false) by {
                            lemma_last_lookup_exists(all@, all@[k as int].name@, k as int);
                        };
                    }
                },
            }
        }
        k = k + 1;
    }
    out
}

/// A sequence holding the name at some position has a last occurrence.
proof fn lemma_last_lookup_exists(stages: Seq<JobRunStage>, name: Seq<char>, i: int)
    requires
        0 <= i < stages.len(),
        stages[i].name@ == name,
    ensures
        last_stage_lookup(stages, name) is Some,
    decreases stages.len(),
{
    if stages.last().name@ != name {
        assert(i < stages.len() - 1);
        lemma_last_lookup_exists(stages.drop_last(), name, i);
    }
}

// ---------------------------------------------------------------------------
// Facts about the two lookups and the merge, leading to the idempotence law.
// ---------------------------------------------------------------------------

/// The first-occurrence lookup returns the entry at the first index
/// carrying the name.
proof fn lemma_stage_lookup_index(stages: Seq<JobRunStage>, name: Seq<char>)
    requires
        stage_lookup(stages, name) is Some,
    ensures
        exists|i: int|
            {
                &&& 0 <= i < stages.len()
                &&& (#[trigger] stages[i]).name@ == name
                &&& stage_lookup(stages, name) == Some(stages[i])
                &&& forall|j: int| 0 <= j < i ==> (#[trigger] stages[j]).name@ != name
            },
    decreases stages.len(),
{
    if stages[0].name@ == name {
        assert(stages[0].name@ == name && stage_lookup(stages, name) == Some(stages[0]));
    } else {
        lemma_stage_lookup_index(stages.drop_first(), name);
        let i = choose|i: int|
            {
                &&& 0 <= i < stages.drop_first().len()
                &&& (#[trigger] stages.drop_first()[i]).name@ == name
                &&& stage_lookup(stages.drop_first(), name) == Some(stages.drop_first()[i])
                &&& forall|j: int| 0 <= j < i ==> (#[trigger] stages.drop_first()[j]).name@ != name
            };
        assert(stages[i + 1].name@ == name && stage_lookup(stages, name) == Some(stages[i + 1]));
        assert forall|j: int| 1 <= j < i + 1 implies (#[trigger] stages[j]).name@ != name by {
            assert(stages.drop_first()[j - 1] == stages[j]);
            assert(stages.drop_first()[j - 1].name@ != name);
        }
    }
}

/// The last-occurrence lookup returns the entry at the last index carrying
/// the name, and finds one exactly when some index carries it.
proof fn lemma_last_lookup_index(stages: Seq<JobRunStage>, name: Seq<char>)
    ensures
        (last_stage_lookup(stages, name) is Some) <==> (exists|i: int|
            0 <= i < stages.len() && (#[trigger] stages[i]).name@ == name),
        last_stage_lookup(stages, name) is Some ==> exists|i: int|
            {
                &&& 0 <= i < stages.len()
                &&& (#[trigger] stages[i]).name@ == name
                &&& last_stage_lookup(stages, name) == Some(stages[i])
                &&& forall|j: int| i < j < stages.len() ==> (#[trigger] stages[j]).name@ != name
            },
    decreases stages.len(),
{
    if stages.len() > 0 {
        if stages.last().name@ == name {
            let i = stages.len() - 1;
            assert(stages[i].name@ == name && last_stage_lookup(stages, name) == Some(stages[i]));
        } else {
            lemma_last_lookup_index(stages.drop_last(), name);
            if last_stage_lookup(stages, name) is Some {
                let i = choose|i: int|
                    {
                        &&& 0 <= i < stages.drop_last().len()
                        &&& (#[trigger] stages.drop_last()[i]).name@ == name
                        &&& last_stage_lookup(stages.drop_last(), name) == Some(
                            stages.drop_last()[i],
                        )
                        &&& forall|j: int|
                            i < j < stages.drop_last().len()
                                ==> (#[trigger] stages.drop_last()[j]).name@ != name
                    };
                assert(stages[i].name@ == name && last_stage_lookup(stages, name) == Some(
                    stages[i],
                ));
                assert forall|j: int| i < j < stages.len() - 1 implies (
                #[trigger] stages[j]).name@ != name by {
                    assert(stages.drop_last()[j] == stages[j]);
                    assert(stages.drop_last()[j].name@ != name);
                }
            } else {
                if exists|i: int| 0 <= i < stages.len() && (#[trigger] stages[i]).name@ == name {
                    let i = choose|i: int|
                        0 <= i < stages.len() && (#[trigger] stages[i]).name@ == name;
                    assert(i < stages.len() - 1);
                    assert(stages.drop_last()[i].name@ == name);
                }
            }
        }
    }
}

/// The last occurrence over a concatenation: the second part wins when it
/// holds the name at all.
proof fn lemma_last_lookup_append(s1: Seq<JobRunStage>, s2: Seq<JobRunStage>, name: Seq<char>)
    ensures
        last_stage_lookup(s1 + s2, name) == if last_stage_lookup(s2, name) is Some {
            last_stage_lookup(s2, name)
        } else {
            last_stage_lookup(s1, name)
        },
    decreases s2.len(),
{
    if s2.len() == 0 {
        assert(s1 + s2 =~= s1);
    } else {
        assert((s1 + s2).last() == s2.last());
        assert((s1 + s2).drop_last() =~= s1 + s2.drop_last());
        lemma_last_lookup_append(s1, s2.drop_last(), name);
    }
}

/// With pairwise distinct names the two lookups agree.
proof fn lemma_unique_first_eq_last(stages: Seq<JobRunStage>, name: Seq<char>)
    requires
        forall|i: int, j: int|
            0 <= i < j < stages.len() ==> (#[trigger] stages[i]).name@ != (
            #[trigger] stages[j]).name@,
    ensures
        stage_lookup(stages, name) == last_stage_lookup(stages, name),
{
    lemma_last_lookup_index(stages, name);
    if last_stage_lookup(stages, name) is Some {
        let i1 = choose|i: int|
            {
                &&& 0 <= i < stages.len()
                &&& (#[trigger] stages[i]).name@ == name
                &&& last_stage_lookup(stages, name) == Some(stages[i])
                &&& forall|j: int| i < j < stages.len() ==> (#[trigger] stages[j]).name@ != name
            };
        crate::job_run_matching::lemma_stage_lookup_exists(stages, name);
        lemma_stage_lookup_index(stages, name);
        let i0 = choose|i: int|
            {
                &&& 0 <= i < stages.len()
                &&& (#[trigger] stages[i]).name@ == name
                &&& stage_lookup(stages, name) == Some(stages[i])
                &&& forall|j: int| 0 <= j < i ==> (#[trigger] stages[j]).name@ != name
            };
        assert(i0 == i1);
    } else {
        crate::job_run_matching::lemma_stage_lookup_exists(stages, name);
    }
}

/// What the merge holds under a name: the last value recorded under it, or
/// nothing when the name never occurs among the first `n` positions.
proof fn lemma_merge_lookup(all: Seq<JobRunStage>, n: int, name: Seq<char>)
    requires
        0 <= n <= all.len(),
    ensures
        stage_lookup(merge_upto(all, n), name) == if exists|i: int|
            0 <= i < n && (#[trigger] all[i]).name@ == name {
            Some(last_stage_lookup(all, name)->0)
        } else {
            None::<JobRunStage>
        },
    decreases n,
{
    if n > 0 {
        lemma_merge_lookup(all, n - 1, name);
        let rest = merge_upto(all, n - 1);
        if first_occurrence_at(all, n - 1) {
            let e = last_stage_lookup(all, all[n - 1].name@)->0;
            lemma_last_lookup_exists(all, all[n - 1].name@, n - 1);
            lemma_last_lookup_index(all, all[n - 1].name@);
            assert(e.name@ == all[n - 1].name@);
            assert(merge_upto(all, n) == rest.push(e));
            assert(rest.push(e) =~= rest + seq![e]);
            crate::job_run_matching::lemma_stage_lookup_append(rest, seq![e], name);
            if all[n - 1].name@ == name {
                assert(forall|j: int| 0 <= j < n - 1 ==> (#[trigger] all[j]).name@ != name);
                assert(stage_lookup(rest, name) is None);
                assert(stage_lookup(seq![e], name) == Some(e));
            } else {
                assert(stage_lookup(seq![e], name) is None) by {
                    assert(seq![e][0] == e);
                    assert(seq![e].drop_first() =~= Seq::<JobRunStage>::empty());
                    assert(stage_lookup(Seq::<JobRunStage>::empty(), name) is None);
                    assert(stage_lookup(seq![e], name) == stage_lookup(
                        seq![e].drop_first(),
                        name,
                    ));
                }
                assert(forall|i: int|
                    0 <= i < n && (#[trigger] all[i]).name@ == name <==> 0 <= i < n - 1
                        && all[i].name@ == name);
            }
        } else {
            let w = choose|j: int| 0 <= j < n - 1 && (#[trigger] all[j]).name@ == all[n - 1].name@;
            assert(forall|i: int|
                0 <= i < n && (#[trigger] all[i]).name@ == name ==> (i < n - 1 || all[w].name@
                    == name));
        }
    }
}

/// The last occurrence within a single entry.
proof fn lemma_last_lookup_singleton(e: JobRunStage, name: Seq<char>)
    ensures
        last_stage_lookup(seq![e], name) == if e.name@ == name {
            Some(e)
        } else {
            None::<JobRunStage>
        },
{
    assert(seq![e].last() == e);
    assert(seq![e].drop_last() =~= Seq::<JobRunStage>::empty());
    assert(last_stage_lookup(Seq::<JobRunStage>::empty(), name) is None);
}

/// Whether some configured stage carries the name.
pub open spec fn has_cfg_name(cfgs: Seq<JobStageConfig>, name: Seq<char>) -> bool {
    exists|i: int| 0 <= i < cfgs.len() && (#[trigger] cfgs[i]).name@ == name
}

/// Pairwise distinct names among configured stages.
pub open spec fn distinct_cfg_names(cfgs: Seq<JobStageConfig>) -> bool {
    forall|i: int, j: int|
        0 <= i < j < cfgs.len() ==> (#[trigger] cfgs[i]).name@ != (#[trigger] cfgs[j]).name@
}

/// Pairwise distinct names among recorded stages.
pub open spec fn distinct_stage_names(stages: Seq<JobRunStage>) -> bool {
    forall|i: int, j: int|
        0 <= i < j < stages.len() ==> (#[trigger] stages[i]).name@ != (#[trigger] stages[j]).name@
}

/// The sort keeps stage names pairwise distinct and neither loses nor
/// invents a name.
proof fn lemma_sort_distinct(stages: Seq<JobStageConfig>)
    requires
        distinct_cfg_names(stages),
    ensures
        distinct_cfg_names(sort_stages_by_min(stages)),
        forall|n: Seq<char>| #[trigger] has_cfg_name(sort_stages_by_min(stages), n) == has_cfg_name(
            stages,
            n,
        ),
    decreases stages.len(),
{
    if stages.len() > 0 {
        let dl = stages.drop_last();
        let s = stages.last();
        assert(distinct_cfg_names(dl)) by {
            assert(forall|i: int| 0 <= i < dl.len() ==> dl[i] == (#[trigger] stages[i]));
        }
        lemma_sort_distinct(dl);
        let a = sort_stages_by_min(dl);
        crate::job_run_matching::lemma_insert_by_key_shape(s, a);
        let j = choose|j: int|
            0 <= j <= a.len() && insert_by_key(s, a) == a.take(j) + seq![s] + a.skip(j);
        let r = a.take(j) + seq![s] + a.skip(j);
        // every name of the prefix stands somewhere in `a`, hence in `dl`,
        // and so differs from the inserted name
        assert(!has_cfg_name(dl, s.name@)) by {
            assert(forall|i: int| 0 <= i < dl.len() ==> dl[i] == (#[trigger] stages[i]));
        }
        assert(!has_cfg_name(a, s.name@));
        assert forall|x: int, y: int| 0 <= x < y < r.len() implies (#[trigger] r[x]).name@ != (
        #[trigger] r[y]).name@ by {
            if x < j {
                assert(r[x] == a[x]);
            } else if x == j {
                assert(r[x] == s);
            } else {
                assert(r[x] == a[x - 1]);
            }
            if y < j {
                assert(r[y] == a[y]);
            } else if y == j {
                assert(r[y] == s);
            } else {
                assert(r[y] == a[y - 1]);
            }
            if x == j {
                assert(y > j && r[y] == a[y - 1]);
                assert(has_cfg_name(a, a[y - 1].name@));
            }
            if y == j {
                assert(x < j && r[x] == a[x]);
                assert(has_cfg_name(a, a[x].name@));
            }
        }
        assert forall|n: Seq<char>| #[trigger] has_cfg_name(r, n) == has_cfg_name(stages, n) by {
            if has_cfg_name(r, n) {
                let i = choose|i: int| 0 <= i < r.len() && (#[trigger] r[i]).name@ == n;
                if i < j {
                    assert(r[i] == a[i]);
                    assert(has_cfg_name(a, n));
                    let w = choose|w: int| 0 <= w < dl.len() && (#[trigger] dl[w]).name@ == n;
                    assert(stages[w].name@ == n);
                } else if i == j {
                    assert(r[i] == s);
                    assert(stages[stages.len() - 1].name@ == n);
                } else {
                    assert(r[i] == a[i - 1]);
                    assert(has_cfg_name(a, n));
                    let w = choose|w: int| 0 <= w < dl.len() && (#[trigger] dl[w]).name@ == n;
                    assert(stages[w].name@ == n);
                }
            }
            if has_cfg_name(stages, n) {
                let i = choose|i: int| 0 <= i < stages.len() && (#[trigger] stages[i]).name@ == n;
                if i == stages.len() - 1 {
                    assert(r[j] == s);
                    assert(r[j].name@ == n);
                } else {
                    assert(dl[i] == stages[i]);
                    assert(has_cfg_name(dl, n));
                    assert(has_cfg_name(a, n));
                    let w = choose|w: int| 0 <= w < a.len() && (#[trigger] a[w]).name@ == n;
                    if w < j {
                        assert(r[w] == a[w]);
                        assert(has_cfg_name(r, n));
                    } else {
                        assert(r[w + 1] == a[w]);
                        assert(has_cfg_name(r, n));
                    }
                }
            }
        }
    }
}

/// When no configured stage named `n` is due, the matcher's output holds
/// no entry named `n`.
proof fn lemma_detect_no_entry(
    cfgs: Seq<JobStageConfig>,
    stages: Seq<JobRunStage>,
    now: i64,
    js: i64,
    name: Seq<char>,
)
    requires
        forall|ci: int|
            0 <= ci < cfgs.len() && (#[trigger] cfgs[ci]).name@ == name ==> !stage_updated(
                cfgs[ci],
                base_stage(stages, cfgs[ci]),
                now,
                js,
            ),
    ensures
        last_stage_lookup(detect_spec(cfgs, stages, now, js), name) is None,
    decreases cfgs.len(),
{
    if cfgs.len() > 0 {
        assert(forall|i: int| 0 <= i < cfgs.drop_last().len() ==> cfgs.drop_last()[i] == (
        #[trigger] cfgs[i]));
        lemma_detect_no_entry(cfgs.drop_last(), stages, now, js, name);
        let rest = detect_spec(cfgs.drop_last(), stages, now, js);
        let c = cfgs.last();
        let b = base_stage(stages, c);
        if stage_updated(c, b, now, js) {
            assert(cfgs[cfgs.len() - 1] == c);
            assert(c.name@ != name);
            let e = apply_timeouts(c, b, now, js);
            assert(e.name@ == c.name@) by {
                crate::job_run_matching::lemma_stage_lookup_exists(stages, c.name@);
            }
            assert(rest.push(e) =~= rest + seq![e]);
            lemma_last_lookup_append(rest, seq![e], name);
            lemma_last_lookup_singleton(e, name);
        }
    }
}

/// The matcher's output holds, under the name of a due configured stage,
/// exactly that stage's updated record.
proof fn lemma_detect_entry(
    cfgs: Seq<JobStageConfig>,
    stages: Seq<JobRunStage>,
    now: i64,
    js: i64,
    ci: int,
)
    requires
        distinct_cfg_names(cfgs),
        0 <= ci < cfgs.len(),
        stage_updated(cfgs[ci], base_stage(stages, cfgs[ci]), now, js),
    ensures
        last_stage_lookup(detect_spec(cfgs, stages, now, js), cfgs[ci].name@) == Some(
            apply_timeouts(cfgs[ci], base_stage(stages, cfgs[ci]), now, js),
        ),
    decreases cfgs.len(),
{
    let n = cfgs[ci].name@;
    let rest = detect_spec(cfgs.drop_last(), stages, now, js);
    let c = cfgs.last();
    let b = base_stage(stages, c);
    assert(forall|i: int| 0 <= i < cfgs.drop_last().len() ==> cfgs.drop_last()[i] == (
    #[trigger] cfgs[i]));
    if ci == cfgs.len() - 1 {
        let e = apply_timeouts(c, b, now, js);
        assert(e.name@ == c.name@) by {
            crate::job_run_matching::lemma_stage_lookup_exists(stages, c.name@);
        }
        assert(rest.push(e) =~= rest + seq![e]);
        lemma_last_lookup_append(rest, seq![e], n);
        lemma_last_lookup_singleton(e, n);
    } else {
        lemma_detect_entry(cfgs.drop_last(), stages, now, js, ci);
        assert(c.name@ != n);
        if stage_updated(c, b, now, js) {
            let e = apply_timeouts(c, b, now, js);
            assert(e.name@ == c.name@) by {
                crate::job_run_matching::lemma_stage_lookup_exists(stages, c.name@);
            }
            assert(rest.push(e) =~= rest + seq![e]);
            lemma_last_lookup_append(rest, seq![e], n);
            lemma_last_lookup_singleton(e, n);
        }
    }
}

/// After one pass's output is merged back, no configured stage is still
/// due at the same instant.
proof fn lemma_pointwise_idle(
    cfgs: Seq<JobStageConfig>,
    stages: Seq<JobRunStage>,
    now: i64,
    js: i64,
    ci: int,
)
    requires
        distinct_cfg_names(cfgs),
        distinct_stage_names(stages),
        0 <= ci < cfgs.len(),
    ensures
        !stage_updated(
            cfgs[ci],
            base_stage(merge_stages(stages, detect_spec(cfgs, stages, now, js)), cfgs[ci]),
            now,
            js,
        ),
{
    let out = detect_spec(cfgs, stages, now, js);
    let all = stages + out;
    let n = cfgs[ci].name@;
    let c = cfgs[ci];
    let b1 = base_stage(stages, c);
    lemma_merge_lookup(all, all.len() as int, n);
    if stage_updated(c, b1, now, js) {
        lemma_detect_entry(cfgs, stages, now, js, ci);
        let e = apply_timeouts(c, b1, now, js);
        lemma_last_lookup_append(stages, out, n);
        assert(last_stage_lookup(all, n) == Some(e));
        lemma_last_lookup_index(all, n);
        assert(stage_lookup(merge_stages(stages, out), n) == Some(e));
        assert(e.name@ == c.name@) by {
            crate::job_run_matching::lemma_stage_lookup_exists(stages, c.name@);
        }
        assert(base_stage(merge_stages(stages, out), c) == e);
        assert(!stage_updated(c, e, now, js));
    } else {
        assert(forall|k: int|
            0 <= k < cfgs.len() && (#[trigger] cfgs[k]).name@ == n ==> k == ci);
        lemma_detect_no_entry(cfgs, stages, now, js, n);
        lemma_last_lookup_append(stages, out, n);
        lemma_unique_first_eq_last(stages, n);
        lemma_last_lookup_index(all, n);
        lemma_last_lookup_index(stages, n);
        crate::job_run_matching::lemma_stage_lookup_exists(stages, n);
        match stage_lookup(stages, n) {
            Some(b) => {
                assert(last_stage_lookup(all, n) == Some(b));
                assert(stage_lookup(merge_stages(stages, out), n) == Some(b));
                assert(base_stage(merge_stages(stages, out), c) == b1);
            },
            None => {
                assert(last_stage_lookup(stages, n) is None);
                assert(last_stage_lookup(all, n) is None);
                assert(forall|i: int|
                    0 <= i < all.len() ==> (#[trigger] all[i]).name@ != n);
                assert(stage_lookup(merge_stages(stages, out), n) is None);
                assert(base_stage(merge_stages(stages, out), c) == empty_run_stage(c.name));
                assert(b1 == empty_run_stage(c.name));
            },
        }
    }
}

/// A pass over stages none of which is due emits nothing.
proof fn lemma_detect_empty_when_idle(
    cfgs: Seq<JobStageConfig>,
    stages2: Seq<JobRunStage>,
    now: i64,
    js: i64,
)
    requires
        forall|i: int|
            0 <= i < cfgs.len() ==> !stage_updated(
                #[trigger] cfgs[i],
                base_stage(stages2, cfgs[i]),
                now,
                js,
            ),
    ensures
        detect_spec(cfgs, stages2, now, js) == Seq::<JobRunStage>::empty(),
    decreases cfgs.len(),
{
    if cfgs.len() > 0 {
        assert(forall|i: int| 0 <= i < cfgs.drop_last().len() ==> cfgs.drop_last()[i] == (
        #[trigger] cfgs[i]));
        lemma_detect_empty_when_idle(cfgs.drop_last(), stages2, now, js);
        assert(cfgs[cfgs.len() - 1] == cfgs.last());
    }
}

/// Matcher idempotence: a single pass is a deterministic function of its
/// inputs, and a second pass at the same instant, over the run updated in
/// place with the first pass's output, emits nothing.  Runs carrying
/// several entries under one stage name are outside this law: the merge
/// keeps the last entry of a name while the matcher reads the first.
pub proof fn lemma_matcher_idempotent(
    config: JobConfig,
    run: JobRun,
    run2: JobRun,
    now: i64,
    js: i64,
)
    requires
        config.wf(),
        distinct_stage_names(run.stages@),
        run2.stages@ == merge_stages(run.stages@, detect_time_outs_spec(config, run, now, js)),
    ensures
        detect_time_outs_spec(config, run2, now, js) == Seq::<JobRunStage>::empty(),
{
    let sorted = sort_stages_by_min(config.stages@);
    lemma_sort_distinct(config.stages@);
    assert forall|i: int| 0 <= i < sorted.len() implies !stage_updated(
        #[trigger] sorted[i],
        base_stage(run2.stages@, sorted[i]),
        now,
        js,
    ) by {
        lemma_pointwise_idle(sorted, run.stages@, now, js, i);
    }
    lemma_detect_empty_when_idle(sorted, run2.stages@, now, js);
}

// ---------------------------------------------------------------------------
// Scanner planning: pure decisions of one scan over loaded state.
// ---------------------------------------------------------------------------

/// Whether a run belongs to the job `(app, job)`.
pub open spec fn run_key_matches(r: JobRun, app: Seq<char>, job: Seq<char>) -> bool {
    r.app_name@ == app && r.job_name@ == job
}

/// The latest pending run of a job: the first run carrying the maximal
/// `created_at` among those with the job's key.
pub fn latest_run_for(pending: &Vec<JobRun>, app_name: &String, job_name: &String) -> (r: Option<
    usize,
>)
    ensures
        match r {
            Some(i) => {
                &&& i < pending@.len()
                &&& run_key_matches(pending@[i as int], app_name@, job_name@)
                &&& forall|j: int|
                    0 <= j < pending@.len() && run_key_matches(
                        #[trigger] pending@[j],
                        app_name@,
                        job_name@,
                    ) ==> pending@[j].created_at <= pending@[i as int].created_at
                &&& forall|j: int|
                    0 <= j < i && run_key_matches(#[trigger] pending@[j], app_name@, job_name@)
                        ==> pending@[j].created_at < pending@[i as int].created_at
            },
            None => forall|j: int|
                0 <= j < pending@.len() ==> !run_key_matches(
                    #[trigger] pending@[j],
                    app_name@,
                    job_name@,
                ),
        },
{
    let mut best: Option<usize> = None;
    let mut j: usize = 0;
    while j < pending.len()
        invariant
            j <= pending.len(),
            match best {
                Some(i) => {
                    &&& i < j
                    &&& run_key_matches(pending@[i as int], app_name@, job_name@)
                    &&& forall|k: int|
                        0 <= k < j && run_key_matches(#[trigger] pending@[k], app_name@, job_name@)
                            ==> pending@[k].created_at <= pending@[i as int].created_at
                    &&& forall|k: int|
                        0 <= k < i && run_key_matches(#[trigger] pending@[k], app_name@, job_name@)
                            ==> pending@[k].created_at < pending@[i as int].created_at
                },
                None => forall|k: int|
                    0 <= k < j ==> !run_key_matches(#[trigger] pending@[k], app_name@, job_name@),
            },
        decreases pending.len() - j,
    {
        if pending[j].app_name == *app_name && pending[j].job_name == *job_name {
            match best {
                None => {
                    best = Some(j);
                },
                Some(i) => {
                    if pending[j].created_at > pending[i].created_at {
                        best = Some(j);
                    }
                },
            }
        }
        j = j + 1;
    }
    best
}

/// Run selection under grace: the scanner reuses the latest run exactly
/// when one exists and was created no earlier than the window start less
/// the grace.
pub fn select_run_for_window(latest_created_at: Option<i64>, job_start: i64, grace: i64) -> (reuse:
    bool)
    ensures
        reuse <==> (latest_created_at is Some && latest_created_at->0 >= job_start - grace),
{
    match latest_created_at {
        None => false,
        Some(c) => (c as i128) >= (job_start as i128) - (grace as i128),
    }
}

/// The view of a list of names.
pub open spec fn names_view(v: Seq<String>) -> Seq<Seq<char>> {
    v.map_values(|s: String| s@)
}

/// One timeout alert per newly missed deadline, in matcher order: a stage
/// whose start and completion both pass in one scan contributes its name
/// twice.
pub open spec fn alert_names_spec(
    cfgs: Seq<JobStageConfig>,
    stages: Seq<JobRunStage>,
    now: i64,
    js: i64,
) -> Seq<Seq<char>>
    decreases cfgs.len(),
{
    if cfgs.len() == 0 {
        Seq::empty()
    } else {
        let rest = alert_names_spec(cfgs.drop_last(), stages, now, js);
        let b = base_stage(stages, cfgs.last());
        let with_start = if start_timed_out(cfgs.last(), b, now, js) {
            rest.push(cfgs.last().name@)
        } else {
            rest
        };
        if complete_timed_out(cfgs.last(), b, now, js) {
            with_start.push(cfgs.last().name@)
        } else {
            with_start
        }
    }
}

/// The stage names to alert on, one per newly missed deadline.
pub fn collect_timeout_alerts(
    job_config: &JobConfig,
    latest_job_run: &JobRun,
    current_time: i64,
    job_start_time: i64,
) -> (r: Vec<String>)
    requires
        forall|i: int| 0 <= i < job_config.stages@.len() ==> (#[trigger] job_config.stages@[i]).wf(),
    ensures
        names_view(r@) == alert_names_spec(
            sort_stages_by_min(job_config.stages@),
            latest_job_run.stages@,
            current_time,
            job_start_time,
        ),
{
    let sorted = sort_stages(&job_config.stages);
    let mut out: Vec<String> = Vec::new();
    let mut i: usize = 0;
    proof {
        assert(names_view(out@) =~= alert_names_spec(
            sorted@.take(0),
            latest_job_run.stages@,
            current_time,
            job_start_time,
        ));
    }
    while i < sorted.len()
        invariant
            i <= sorted.len(),
            names_view(out@) == alert_names_spec(
                sorted@.take(i as int),
                latest_job_run.stages@,
                current_time,
                job_start_time,
            ),
        decreases sorted.len() - i,
    {
        let cfg = &sorted[i];
        let base = match find_stage_index(&latest_job_run.stages, &cfg.name) {
            Some(k) => latest_job_run.stages[k].clone(),
            None => JobRunStage {
                name: cfg.name.clone(),
                start_status: None,
                start_date_time: None,
                complete_status: None,
                complete_date_time: None,
            },
        };
        assert(base == base_stage(latest_job_run.stages@, sorted@[i as int]));
        proof {
            assert(sorted@.take(i + 1 as int).drop_last() =~= sorted@.take(i as int));
            assert(sorted@.take(i + 1 as int).last() == sorted@[i as int]);
        }
        if let Some(start_offset) = cfg.start {
            if base.start_status.is_none() && (job_start_time as i128 + start_offset as i128)
                < current_time as i128 {
                out.push(cfg.name.clone());
                proof {
                    assert(names_view(out@) =~= names_view(out@.drop_last()).push(
                        sorted@[i as int].name@,
                    ));
                }
            }
        }
        if let Some(complete_offset) = cfg.complete {
            if base.complete_status.is_none() && (job_start_time as i128 + complete_offset as i128)
                < current_time as i128 {
                out.push(cfg.name.clone());
                proof {
                    assert(names_view(out@) =~= names_view(out@.drop_last()).push(
                        sorted@[i as int].name@,
                    ));
                }
            }
        }
        i = i + 1;
    }
    proof {
        assert(sorted@.take(sorted@.len() as int) =~= sorted@);
    }
    out
}

/// Alerts follow the matcher's output exactly: every alerted name belongs
/// to a stage the matcher emitted, every emitted stage is alerted at
/// least once, and one stage contributes at most two alerts — one per
/// newly missed deadline.
pub proof fn lemma_alerts_match_emissions(
    cfgs: Seq<JobStageConfig>,
    stages: Seq<JobRunStage>,
    now: i64,
    js: i64,
)
    ensures
        forall|k: int|
            0 <= k < alert_names_spec(cfgs, stages, now, js).len() ==> exists|m: int|
                0 <= m < detect_spec(cfgs, stages, now, js).len() && (#[trigger] detect_spec(
                    cfgs,
                    stages,
                    now,
                    js,
                )[m]).name@ == #[trigger] alert_names_spec(cfgs, stages, now, js)[k],
        forall|m: int|
            0 <= m < detect_spec(cfgs, stages, now, js).len() ==> exists|k: int|
                0 <= k < alert_names_spec(cfgs, stages, now, js).len() && (
                #[trigger] alert_names_spec(cfgs, stages, now, js)[k]) == (#[trigger] detect_spec(
                    cfgs,
                    stages,
                    now,
                    js,
                )[m]).name@,
        detect_spec(cfgs, stages, now, js).len() <= alert_names_spec(cfgs, stages, now, js).len()
            <= 2 * detect_spec(cfgs, stages, now, js).len(),
    decreases cfgs.len(),
{
    if cfgs.len() > 0 {
        lemma_alerts_match_emissions(cfgs.drop_last(), stages, now, js);
        let out_rest = detect_spec(cfgs.drop_last(), stages, now, js);
        let al_rest = alert_names_spec(cfgs.drop_last(), stages, now, js);
        let out = detect_spec(cfgs, stages, now, js);
        let al = alert_names_spec(cfgs, stages, now, js);
        let c = cfgs.last();
        let b = base_stage(stages, c);
        crate::job_run_matching::lemma_stage_lookup_exists(stages, c.name@);
        if stage_updated(c, b, now, js) {
            let e = apply_timeouts(c, b, now, js);
            assert(e.name@ == c.name@);
            assert(out == out_rest.push(e));
            assert(forall|m: int| 0 <= m < out_rest.len() ==> out[m] == (#[trigger] out_rest[m]));
            assert(forall|k: int| 0 <= k < al_rest.len() ==> al[k] == (#[trigger] al_rest[k]));
            assert(forall|k: int| al_rest.len() <= k < al.len() ==> (#[trigger] al[k]) == c.name@);
            assert(al.len() > al_rest.len());
            assert forall|k: int| 0 <= k < al.len() implies exists|m: int|
                0 <= m < out.len() && (#[trigger] out[m]).name@ == #[trigger] al[k] by {
                if k < al_rest.len() {
                    let m = choose|m: int|
                        0 <= m < out_rest.len() && (#[trigger] out_rest[m]).name@ == al_rest[k];
                    assert(out[m].name@ == al[k]);
                } else {
                    assert(out[out.len() - 1].name@ == al[k]);
                }
            }
            assert forall|m: int| 0 <= m < out.len() implies exists|k: int|
                0 <= k < al.len() && (#[trigger] al[k]) == (#[trigger] out[m]).name@ by {
                if m < out_rest.len() {
                    let k = choose|k: int|
                        0 <= k < al_rest.len() && (#[trigger] al_rest[k]) == out_rest[m].name@;
                    assert(al[k] == out[m].name@);
                } else {
                    assert(al[al.len() - 1] == out[m].name@);
                }
            }
        } else {
            assert(out == out_rest);
            assert(al == al_rest);
        }
    }
}

/// A fresh in-progress run for a job, triggered and created at `now`.
pub fn create_new_job_run(app_name: String, job_name: String, id: String, now: i64) -> (r: JobRun)
    ensures
        r.id == id,
        r.app_name == app_name,
        r.job_name == job_name,
        r.triggered_at == now,
        r.status == JobRunStatus::InProgress,
        r.stages@ == Seq::<JobRunStage>::empty(),
        r.created_at == now,
        r.updated_at == now,
{
    JobRun {
        id,
        app_name,
        job_name,
        triggered_at: now,
        status: JobRunStatus::InProgress,
        stages: Vec::new(),
        created_at: now,
        updated_at: now,
    }
}

/// What one scan decides for one run: the run to persist, whether it must
/// first be created, whether its stages and status changed, the stages the
/// matcher emitted, and the stage names to alert on.
pub struct RunUpdatePlan {
    pub run: JobRun,
    pub is_new_run: bool,
    pub updated: bool,
    pub emitted: Vec<JobRunStage>,
    pub alerts: Vec<String>,
}

/// The base stage list a plan was computed from.
pub open spec fn plan_base_stages(p: RunUpdatePlan, latest_run: Option<&JobRun>) -> Seq<
    JobRunStage,
> {
    if p.is_new_run {
        Seq::<JobRunStage>::empty()
    } else {
        latest_run->0.stages@
    }
}

/// One scheduled job in one scan.  Decides window membership from the
/// schedule, selects or creates the run under the grace rule, runs the
/// matcher against the window start, merges its output into the run and
/// collects the timeout alerts.  Fails exactly when the window start
/// cannot be computed; a job out of its window yields no plan.
pub fn plan_scheduled_job(
    config: &JobConfig,
    latest_run: Option<&JobRun>,
    new_run_id: String,
    now: i64,
    grace: i64,
) -> (r: Result<Option<RunUpdatePlan>, AppError>)
    requires
        config.wf(),
        ts_in_range(now as int),
    ensures
        (r is Err) <==> !crate::cron_utils::job_start_defined(*config, now as int),
        r matches Ok(None) ==> !in_window_at(
            *config,
            spec_job_start(*config, now as int)->0,
            now as int,
        ),
        r matches Ok(Some(p)) ==> {
            let js = spec_job_start(*config, now as int)->0 as i64;
            let base = plan_base_stages(p, latest_run);
            &&& in_window_at(*config, js as int, now as int)
            &&& (p.is_new_run <==> !(latest_run is Some && latest_run->0.created_at >= js - grace))
            &&& (p.is_new_run ==> p.run.id == new_run_id && p.run.app_name == config.app_name
                && p.run.job_name == config.job_name && p.run.triggered_at == now
                && p.run.created_at == now)
            &&& (!p.is_new_run ==> latest_run is Some && p.run.id == latest_run->0.id
                && p.run.app_name == latest_run->0.app_name && p.run.job_name
                == latest_run->0.job_name && p.run.triggered_at == latest_run->0.triggered_at
                && p.run.created_at == latest_run->0.created_at)
            &&& p.emitted@ == detect_spec(sort_stages_by_min(config.stages@), base, now, js)
            &&& names_view(p.alerts@) == alert_names_spec(
                sort_stages_by_min(config.stages@),
                base,
                now,
                js,
            )
            &&& p.updated == (p.emitted@.len() > 0)
            &&& (p.updated ==> p.run.stages@ == merge_stages(base, p.emitted@) && p.run.status
                == JobRunStatus::Failed && p.run.updated_at == now)
            &&& (!p.updated && p.is_new_run ==> p.run.status == JobRunStatus::InProgress
                && p.run.stages@ == Seq::<JobRunStage>::empty() && p.run.updated_at == now)
            &&& (!p.updated && !p.is_new_run ==> p.run.status == latest_run->0.status
                && p.run.stages@ == latest_run->0.stages@ && p.run.updated_at
                == latest_run->0.updated_at)
        },
{
    let inside = match in_between(config, now) {
        Err(e) => {
            return Err(e);
        },
        Ok(b) => b,
    };
    if !inside {
        return Ok(None);
    }
    let js = match get_job_start_time(config, now) {
        Err(e) => {
            return Err(e);
        },
        Ok(v) => v,
    };
    let mut is_new: bool;
    let mut run: JobRun;
    match latest_run {
        None => {
            is_new = true;
            run = create_new_job_run(config.app_name.clone(), config.job_name.clone(), new_run_id, now);
        },
        Some(lr) => {
            if select_run_for_window(Some(lr.created_at), js, grace) {
                is_new = false;
                run = lr.clone();
            } else {
                is_new = true;
                run = create_new_job_run(
                    config.app_name.clone(),
                    config.job_name.clone(),
                    new_run_id,
                    now,
                );
            }
        },
    }
    let emitted = detect_time_outs(config, &run, now, js);
    let alerts = collect_timeout_alerts(config, &run, now, js);
    let updated = emitted.len() > 0;
    if updated {
        let merged = combine(&run.stages, &emitted);
        run.stages = merged;
        run.status = JobRunStatus::Failed;
        run.updated_at = now;
    }
    Ok(Some(RunUpdatePlan { run, is_new_run: is_new, updated, emitted, alerts }))
}

/// One manual (unscheduled) run in one scan.  The window start is the
/// run's own trigger time; a completed run, or one with nothing newly
/// missed, yields no plan.
pub fn plan_manual_job(config: &JobConfig, run: &JobRun, now: i64) -> (r: Option<RunUpdatePlan>)
    requires
        config.wf(),
    ensures
        (r is Some) <==> (run.status != JobRunStatus::Complete && detect_time_outs_spec(
            *config,
            *run,
            now,
            run.triggered_at,
        ).len() > 0),
        r matches Some(p) ==> {
            &&& p.is_new_run == false
            &&& p.updated == true
            &&& p.run.id == run.id
            &&& p.run.app_name == run.app_name
            &&& p.run.job_name == run.job_name
            &&& p.run.triggered_at == run.triggered_at
            &&& p.run.created_at == run.created_at
            &&& p.emitted@ == detect_time_outs_spec(*config, *run, now, run.triggered_at)
            &&& names_view(p.alerts@) == alert_names_spec(
                sort_stages_by_min(config.stages@),
                run.stages@,
                now,
                run.triggered_at,
            )
            &&& p.run.stages@ == merge_stages(run.stages@, p.emitted@)
            &&& p.run.status == JobRunStatus::Failed
            &&& p.run.updated_at == now
        },
{
    if run.status == JobRunStatus::Complete {
        return None;
    }
    let js = run.triggered_at;
    let emitted = detect_time_outs(config, run, now, js);
    if emitted.len() == 0 {
        return None;
    }
    let alerts = collect_timeout_alerts(config, run, now, js);
    let mut updated_run = run.clone();
    let merged = combine(&updated_run.stages, &emitted);
    updated_run.stages = merged;
    updated_run.status = JobRunStatus::Failed;
    updated_run.updated_at = now;
    Some(RunUpdatePlan { run: updated_run, is_new_run: false, updated: true, emitted, alerts })
}

} // verus!
