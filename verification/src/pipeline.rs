//! Pipeline identity and the task model: who runs what, and the
//! deliberately non-structural grouping key used when plans are diffed.
use vstd::prelude::*;
use vstd::string::*;

verus! {

/// Identifier of a node of the fleet.
pub type NodeId = String;

/// Identifier of an index, unique across its incarnations.
pub type IndexUid = String;

/// Identifier of one source of an index.
pub type SourceId = String;

/// Identifier of one shard of a source's input stream.
pub type ShardId = String;

/// Distinguishes successive or parallel instances of the same logical
/// pipeline, for example across restarts.
#[derive(Clone, Copy, Debug, PartialEq, Eq, Structural, Hash, PartialOrd, Ord)]
pub struct PipelineUid {
    pub uid: u64,
}

/// Identity of one running pipeline instance: full identity over all
/// four fields.
#[derive(Clone, Debug, PartialEq, Eq, Hash)]
pub struct IndexingPipelineId {
    pub node_id: NodeId,
    pub index_uid: IndexUid,
    pub source_id: SourceId,
    pub pipeline_uid: PipelineUid,
}

/// Display form of pipeline identities and tasks: `<index>:<source>`,
/// for human-readable grouping by logical work only.
pub open spec fn logical_display(index_uid: Seq<char>, source_id: Seq<char>) -> Seq<char> {
    index_uid + ":"@ + source_id
}

impl IndexingPipelineId {
    /// The display form omits the node and the instantiation.
    pub fn display_string(&self) -> (r: String)
        ensures
            r@ == logical_display(self.index_uid@, self.source_id@),
    {
        let mut out = self.index_uid.clone();
        out.append(":");
        out.append(self.source_id.as_str());
        out
    }
}

/// Display is blind to node and instantiation: identities that agree on
/// index and source display identically.
pub proof fn lemma_display_ignores_node_and_instantiation(
    a: IndexingPipelineId,
    b: IndexingPipelineId,
)
    requires
        a.index_uid@ == b.index_uid@,
        a.source_id@ == b.source_id@,
    ensures
        logical_display(a.index_uid@, a.source_id@) == logical_display(b.index_uid@, b.source_id@),
{
}

/// The unit of scheduling: run source `source_id` of index `index_uid`
/// as the pipeline instance `pipeline_uid`, serving `shard_ids`.
#[derive(Clone, Debug, PartialEq, Eq)]
pub struct IndexingTask {
    pub index_uid: IndexUid,
    pub source_id: SourceId,
    /// Present on every task this core builds; optional only for values
    /// that cross a boundary where it was historically allowed absent.
    pub pipeline_uid: Option<PipelineUid>,
    pub shard_ids: Vec<ShardId>,
}

/// Mathematical model of a task: index, source, instantiation, shards.
pub type TaskModel = (Seq<char>, Seq<char>, Option<PipelineUid>, Seq<Seq<char>>);

impl View for IndexingTask {
    type V = TaskModel;

    open spec fn view(&self) -> TaskModel {
        (self.index_uid@, self.source_id@, self.pipeline_uid, self.shard_ids.deep_view())
    }
}

/// The logical-work identity of a task: index and source only — never
/// the instantiation or the shard parameters. Plans are grouped and
/// diffed by this key; the task type's own equality stays structural.
pub open spec fn spec_task_key(m: TaskModel) -> (Seq<char>, Seq<char>) {
    (m.0, m.1)
}

/// Key type used wherever tasks are grouped or deduplicated by logical
/// work, rather than overriding the task type's equality.
#[derive(Clone, Debug, PartialEq, Eq, Hash)]
pub struct IndexingTaskKey {
    pub index_uid: IndexUid,
    pub source_id: SourceId,
}

impl IndexingTask {
    /// The required instantiation identifier. Asking for it on a task
    /// that lacks one is a precondition violation, not a recoverable
    /// outcome.
    pub fn pipeline_uid(&self) -> (uid: PipelineUid)
        requires
            self.pipeline_uid is Some,
        ensures
            Some(uid) == self.pipeline_uid,
    {
        self.pipeline_uid.unwrap()
    }

    /// The grouping key: the logical work the task names.
    pub fn logical_key(&self) -> (k: IndexingTaskKey)
        ensures
            k.index_uid@ == self.index_uid@,
            k.source_id@ == self.source_id@,
    {
        IndexingTaskKey { index_uid: self.index_uid.clone(), source_id: self.source_id.clone() }
    }

    /// Same display form as the pipeline identity: index and source.
    pub fn display_string(&self) -> (r: String)
        ensures
            r@ == logical_display(self.index_uid@, self.source_id@),
    {
        let mut out = self.index_uid.clone();
        out.append(":");
        out.append(self.source_id.as_str());
        out
    }
}

/// Two tasks share a key exactly when they agree on index and source;
/// the instantiation and the shard parameters never part them.
pub proof fn lemma_task_key_ignores_instantiation(a: IndexingTask, b: IndexingTask)
    ensures
        spec_task_key(a@) == spec_task_key(b@) <==> (a.index_uid@ == b.index_uid@ && a.source_id@
            == b.source_id@),
{
}

} // verus!
