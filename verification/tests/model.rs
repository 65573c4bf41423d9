use std::collections::HashSet;

use indexing_core::plan::diff_plan;
use indexing_core::{
    mcpu, ApplyIndexingPlanRequest, AskError, IndexingError, IndexingPipelineId, IndexingTask,
    MetastoreError, PipelineMetrics, PipelineUid, ServiceErrorCode, ShardPositionsUpdate,
    ShardPositionsView, SourceUid,
};

fn task(index_uid: &str, source_id: &str, uid: u64) -> IndexingTask {
    IndexingTask {
        index_uid: index_uid.to_string(),
        source_id: source_id.to_string(),
        pipeline_uid: Some(PipelineUid { uid }),
        shard_ids: Vec::new(),
    }
}

fn pipeline_id(node_id: &str, index_uid: &str, source_id: &str, uid: u64) -> IndexingPipelineId {
    IndexingPipelineId {
        node_id: node_id.to_string(),
        index_uid: index_uid.to_string(),
        source_id: source_id.to_string(),
        pipeline_uid: PipelineUid { uid },
    }
}

#[test]
fn test_task_key_ignores_instantiation() {
    let a = task("idx", "src", 1);
    let b = task("idx", "src", 2);
    assert_eq!(a.logical_key(), b.logical_key());
    let mut keys = HashSet::new();
    keys.insert(a.logical_key());
    keys.insert(b.logical_key());
    assert_eq!(keys.len(), 1);
    // differing index or source: never the same key
    assert_ne!(a.logical_key(), task("other", "src", 1).logical_key());
    assert_ne!(a.logical_key(), task("idx", "other", 1).logical_key());
}

#[test]
fn test_pipeline_id_display_ignores_node_and_instantiation() {
    let a = pipeline_id("node-1", "idx", "src", 1);
    let b = pipeline_id("node-2", "idx", "src", 2);
    assert_eq!(a.display_string(), "idx:src");
    assert_eq!(a.display_string(), b.display_string());
}

#[test]
fn test_task_display() {
    assert_eq!(task("idx", "src", 7).display_string(), "idx:src");
}

#[test]
fn test_pipeline_uid_accessor() {
    assert_eq!(task("idx", "src", 42).pipeline_uid(), PipelineUid { uid: 42 });
}

#[test]
fn test_shard_positions_last_write_wins() {
    let source_uid = SourceUid {
        index_uid: "idx".to_string(),
        source_id: "src".to_string(),
    };
    let mut view = ShardPositionsView::new();
    view.apply_update(&ShardPositionsUpdate {
        source_uid: source_uid.clone(),
        updated_shard_positions: vec![("A".to_string(), 5u64), ("B".to_string(), 9u64)],
    });
    view.apply_update(&ShardPositionsUpdate {
        source_uid,
        updated_shard_positions: vec![("A".to_string(), 7u64)],
    });
    assert_eq!(view.position(&"A".to_string()), Some(7));
    assert_eq!(view.position(&"B".to_string()), Some(9));
    assert_eq!(view.position(&"C".to_string()), None);
}

#[test]
fn test_delivery_failure_mapping() {
    let not_delivered = IndexingError::from_ask_error(AskError::MessageNotDelivered);
    assert_eq!(
        not_delivered,
        IndexingError::Unavailable("request could not be delivered to actor".to_string())
    );
    let processing = IndexingError::from_ask_error(AskError::ProcessMessageError);
    assert_eq!(
        processing,
        IndexingError::Internal("an error occurred while processing the request".to_string())
    );
    let reply = IndexingError::Timeout("deadline exceeded".to_string());
    assert_eq!(
        IndexingError::from_ask_error(AskError::ErrorReply(reply.clone())),
        reply
    );
}

#[test]
fn test_error_code_mapping_is_total() {
    assert_eq!(
        IndexingError::new_internal("x".to_string()).error_code(),
        ServiceErrorCode::Internal
    );
    assert_eq!(
        IndexingError::new_timeout("x".to_string()).error_code(),
        ServiceErrorCode::Timeout
    );
    assert_eq!(
        IndexingError::new_unavailable("x".to_string()).error_code(),
        ServiceErrorCode::Unavailable
    );
    assert_eq!(
        IndexingError::new_unimplemented("x".to_string()).error_code(),
        ServiceErrorCode::Unimplemented
    );
    // the metastore variant inherits the wrapped error's own code
    let metastore_error = MetastoreError {
        code: ServiceErrorCode::NotFound,
        message: "index not found".to_string(),
    };
    assert_eq!(
        IndexingError::Metastore(metastore_error).error_code(),
        ServiceErrorCode::NotFound
    );
}

#[test]
fn test_error_messages() {
    assert_eq!(
        IndexingError::new_internal("boom".to_string()).message_string(),
        "internal error: boom"
    );
    assert_eq!(
        IndexingError::new_timeout("boom".to_string()).message_string(),
        "request timed out: boom"
    );
    assert_eq!(
        IndexingError::new_unavailable("boom".to_string()).message_string(),
        "service unavailable: boom"
    );
    assert_eq!(
        IndexingError::new_unimplemented("boom".to_string()).message_string(),
        "boom"
    );
    let metastore_error = MetastoreError {
        code: ServiceErrorCode::Internal,
        message: "db down".to_string(),
    };
    assert_eq!(
        IndexingError::Metastore(metastore_error).message_string(),
        "metastore error: db down"
    );
}

#[test]
fn test_rpc_and_service_names() {
    assert_eq!(ApplyIndexingPlanRequest::rpc_name(), "apply_indexing_plan");
    assert_eq!(IndexingError::service_name(), "indexing");
}

#[test]
fn test_diff_plan_by_logical_key() {
    let running = vec![task("idx1", "s1", 1), task("idx2", "s1", 2)];
    // idx1:s1 is desired under a new instantiation: same logical work,
    // so it is neither started nor stopped.
    let desired = vec![task("idx1", "s1", 9), task("idx3", "s1", 3)];
    let (to_start, to_stop) = diff_plan(&running, &desired);
    assert_eq!(to_start, vec![task("idx3", "s1", 3)]);
    assert_eq!(to_stop, vec![task("idx2", "s1", 2)]);
}

#[test]
fn test_diff_plan_empty_sides() {
    let running: Vec<IndexingTask> = Vec::new();
    let desired = vec![task("idx", "src", 1)];
    let (to_start, to_stop) = diff_plan(&running, &desired);
    assert_eq!(to_start, desired);
    assert!(to_stop.is_empty());
    let (to_start, to_stop) = diff_plan(&desired, &running);
    assert!(to_start.is_empty());
    assert_eq!(to_stop, desired);
}

#[test]
fn test_metrics_display() {
    let metrics = PipelineMetrics {
        cpu_millis: mcpu(1500),
        throughput_mb_per_sec: 25,
    };
    assert_eq!(metrics.display_string(), "1500m,25MB/s");
}

#[test]
fn test_shard_listed_twice_takes_last_position() {
    let mut view = ShardPositionsView::new();
    view.apply_update(&ShardPositionsUpdate {
        source_uid: SourceUid {
            index_uid: "idx".to_string(),
            source_id: "src".to_string(),
        },
        updated_shard_positions: vec![("A".to_string(), 1u64), ("A".to_string(), 2u64)],
    });
    assert_eq!(view.position(&"A".to_string()), Some(2));
}
