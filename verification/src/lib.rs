//! Control-plane model for a distributed indexing engine: typed CPU capacity
//! accounting, pipeline identity, plan diffing, shard-position propagation,
//! and the error taxonomy shared by every operation of the core.
pub mod capacity;
pub mod decimal;
pub mod error;
pub mod metrics;
pub mod pipeline;
pub mod plan;
pub mod shard_positions;

pub use capacity::{mcpu, CpuCapacity};
pub use error::{AskError, IndexingError, IndexingResult, MetastoreError, ServiceErrorCode};
pub use metrics::PipelineMetrics;
pub use pipeline::{IndexingPipelineId, IndexingTask, IndexingTaskKey, PipelineUid};
pub use plan::{ApplyIndexingPlanRequest, ApplyIndexingPlanResponse};
pub use shard_positions::{ShardPositionsUpdate, ShardPositionsView, SourceUid};
