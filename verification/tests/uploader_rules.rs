use streaming_data_loader::models::{ServerConfig, UtcDateTime};
use streaming_data_loader::pipeline::ObservationValue;
use streaming_data_loader::responses::ObservationContext;
use streaming_data_loader::uploader::{
    summarize_batch, BatchKey, PendingBatch, QueuedObservation, BATCH_SIZE, FLUSH_INTERVAL_SECS,
};
use std::time::Duration;

fn context(job_id: &str, datastream_id: &str) -> ObservationContext {
    ObservationContext {
        server: ServerConfig::empty(),
        job_id: job_id.to_string(),
        datastream_id: datastream_id.to_string(),
        datastream_name: "Test".to_string(),
    }
}

fn test_observation(job_id: &str, datastream_id: &str, row_index: u64) -> QueuedObservation {
    QueuedObservation {
        context: context(job_id, datastream_id),
        timestamp: UtcDateTime { secs: 1_775_203_200 + row_index as i64, nanos: 0 },
        row_index,
        value: ObservationValue::Number(row_index.to_string()),
    }
}

#[test]
fn batch_key_groups_by_server_and_datastream() {
    let obs_a1 = test_observation("job-1", "ds-a", 1);
    let obs_a2 = test_observation("job-1", "ds-a", 2);
    let obs_b1 = test_observation("job-1", "ds-b", 1);

    let key_a1 = BatchKey::from(&obs_a1);
    let key_a2 = BatchKey::from(&obs_a2);
    let key_b1 = BatchKey::from(&obs_b1);

    assert_eq!(key_a1, key_a2, "same datastream should produce same key");
    assert_ne!(key_a1, key_b1, "different datastreams should differ");
}

#[test]
fn summarize_batch_tracks_max_timestamp_and_row_index() {
    let t1 = UtcDateTime { secs: 1_775_203_200 - 600, nanos: 0 };
    let t2 = UtcDateTime { secs: 1_775_203_200, nanos: 0 };

    let batch = PendingBatch {
        key: BatchKey::from(&test_observation("job-1", "ds-1", 0)),
        rows: vec![
            QueuedObservation {
                context: context("job-1", "ds-1"),
                timestamp: t1,
                row_index: 5,
                value: ObservationValue::Number("1.0".to_string()),
            },
            QueuedObservation {
                context: context("job-1", "ds-1"),
                timestamp: t2,
                row_index: 10,
                value: ObservationValue::Number("2.0".to_string()),
            },
        ],
    };

    let summaries = summarize_batch(&batch);
    let summary = summaries.iter().find(|s| s.job_id == "job-1").expect("should have job-1");
    assert_eq!(summary.observation_count, 2);
    assert_eq!(summary.max_timestamp, t2);
    assert_eq!(summary.max_row_index, 10);
}

#[test]
fn batch_size_constant_is_reasonable() {
    assert_eq!(BATCH_SIZE, 500);
    assert_eq!(Duration::from_secs(FLUSH_INTERVAL_SECS), Duration::from_secs(1));
}
