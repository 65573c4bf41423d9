//! Plan application: the request that pushes a desired task set to one
//! node, and the diff that tells a node's current plan apart from the
//! desired one, grouped by logical-work keys.
use vstd::prelude::*;
use vstd::string::*;

use crate::pipeline::{spec_task_key, IndexingTask, NodeId, TaskModel};

verus! {

/// Request: the receiving node must converge its running pipelines to
/// exactly the listed task set — start the missing ones, stop the
/// extraneous ones, leave the unchanged ones running.
#[derive(Clone, Debug, PartialEq, Eq)]
pub struct ApplyIndexingPlanRequest {
    pub node_id: NodeId,
    pub indexing_tasks: Vec<IndexingTask>,
}

impl ApplyIndexingPlanRequest {
    /// Stable operation name used for routing and metrics.
    pub fn rpc_name() -> (name: &'static str)
        ensures
            name@ == "apply_indexing_plan"@,
    {
        "apply_indexing_plan"
    }
}

/// Acknowledgment that a node accepted a plan; failures travel as
/// `IndexingError` instead.
#[derive(Clone, Copy, Debug, PartialEq, Eq, Structural)]
pub struct ApplyIndexingPlanResponse {}

/// Models of a task list.
pub open spec fn task_models(ts: Seq<IndexingTask>) -> Seq<TaskModel> {
    ts.map_values(|t: IndexingTask| t@)
}

/// Whether some task of `ts` does the logical work `key` names.
pub open spec fn has_task_key(ts: Seq<TaskModel>, key: (Seq<char>, Seq<char>)) -> bool {
    exists|i: int| 0 <= i < ts.len() && spec_task_key(#[trigger] ts[i]) == key
}

/// The tasks of `from` whose logical work no task of `among` does, in
/// their order in `from`.
pub open spec fn missing_task_models(from: Seq<TaskModel>, among: Seq<TaskModel>) -> Seq<TaskModel>
    decreases from.len(),
{
    if from.len() == 0 {
        Seq::empty()
    } else {
        let rest = missing_task_models(from.drop_last(), among);
        if has_task_key(among, spec_task_key(from.last())) {
            rest
        } else {
            rest.push(from.last())
        }
    }
}

fn contains_task_key(ts: &Vec<IndexingTask>, index_uid: &String, source_id: &String) -> (r: bool)
    ensures
        r == has_task_key(task_models(ts@), (index_uid@, source_id@)),
{
    let n = ts.len();
    let mut i: usize = 0;
    while i < n
        invariant
            0 <= i <= n,
            n == ts@.len(),
            forall|j: int|
                0 <= j < i ==> spec_task_key(#[trigger] task_models(ts@)[j]) != (
                index_uid@,
                source_id@,
                ),
        decreases n - i,
    {
        let t = &ts[i];
        if t.index_uid == *index_uid && t.source_id == *source_id {
            proof {
                assert(task_models(ts@)[i as int] == ts@[i as int]@);
            }
            return true;
        }
        proof {
            assert(task_models(ts@)[i as int] == ts@[i as int]@);
        }
        i = i + 1;
    }
    false
}

fn clone_shard_ids(v: &Vec<String>) -> (r: Vec<String>)
    ensures
        r.deep_view() == v.deep_view(),
{
    let mut out: Vec<String> = Vec::new();
    let n = v.len();
    let mut i: usize = 0;
    while i < n
        invariant
            0 <= i <= n,
            n == v@.len(),
            out@.len() == i,
            forall|j: int| 0 <= j < i ==> (#[trigger] out@[j])@ == v@[j]@,
        decreases n - i,
    {
        out.push(v[i].clone());
        i = i + 1;
    }
    proof {
        assert(out.deep_view() =~= v.deep_view());
    }
    out
}

/// A fresh task with the same model.
fn clone_task(t: &IndexingTask) -> (r: IndexingTask)
    ensures
        r@ == t@,
{
    IndexingTask {
        index_uid: t.index_uid.clone(),
        source_id: t.source_id.clone(),
        pipeline_uid: t.pipeline_uid,
        shard_ids: clone_shard_ids(&t.shard_ids),
    }
}

fn missing_tasks(from: &Vec<IndexingTask>, among: &Vec<IndexingTask>) -> (r: Vec<IndexingTask>)
    ensures
        task_models(r@) == missing_task_models(task_models(from@), task_models(among@)),
{
    let mut out: Vec<IndexingTask> = Vec::new();
    let n = from.len();
    let mut i: usize = 0;
    while i < n
        invariant
            0 <= i <= n,
            n == from@.len(),
            task_models(out@) == missing_task_models(
                task_models(from@).take(i as int),
                task_models(among@),
            ),
        decreases n - i,
    {
        let t = &from[i];
        let ghost pre = task_models(out@);
        if !contains_task_key(among, &t.index_uid, &t.source_id) {
            let c = clone_task(t);
            out.push(c);
            proof {
                assert(task_models(out@) =~= pre.push(from@[i as int]@));
            }
        }
        proof {
            let fm = task_models(from@);
            assert(fm.take(i as int + 1).drop_last() =~= fm.take(i as int));
            assert(fm.take(i as int + 1).last() == fm[i as int]);
            assert(fm[i as int] == from@[i as int]@);
            assert(spec_task_key(fm[i as int]) == (t.index_uid@, t.source_id@));
        }
        i = i + 1;
    }
    proof {
        assert(task_models(from@).take(n as int) =~= task_models(from@));
    }
    out
}

/// The convergence delta from the plan a node runs to the plan it
/// should run: the desired tasks whose logical work is not yet running
/// are to start, the running tasks whose logical work is no longer
/// desired are to stop, and tasks whose logical work appears on both
/// sides are left running. Grouping is by logical key, never by full
/// structural equality: a restarted instantiation of the same work is
/// not churned.
pub fn diff_plan(running: &Vec<IndexingTask>, desired: &Vec<IndexingTask>) -> (r: (
    Vec<IndexingTask>,
    Vec<IndexingTask>,
))
    ensures
        task_models(r.0@) == missing_task_models(task_models(desired@), task_models(running@)),
        task_models(r.1@) == missing_task_models(task_models(running@), task_models(desired@)),
{
    (missing_tasks(desired, running), missing_tasks(running, desired))
}

} // verus!
