use streaming_data_loader::config_store::ConfigStore;
use streaming_data_loader::models::{AuthType, ColumnMapping, FileConfig, JobUpsertRequest};
use streaming_data_loader::uploader::{record_upload_failure, record_upload_success};
use streaming_data_loader::hydroserver::RequestError;
use streaming_data_loader::models::{ServerConfig, UtcDateTime};
use streaming_data_loader::pipeline::ObservationValue;
use streaming_data_loader::responses::ObservationContext;
use streaming_data_loader::uploader::{
    build_payload, jitter_nanos, loaded_message, next_backoff, partition_by_watermark, reconcile_plan,
    summarize_rows, upload_step, ConflictPlan, PendingBatches, QueuedObservation, UploadStep, BATCH_SIZE,
};

fn observation(job_id: &str, datastream_id: &str, secs: i64, row_index: u64, value: &str) -> QueuedObservation {
    QueuedObservation {
        context: ObservationContext {
            server: ServerConfig::empty(),
            job_id: job_id.to_string(),
            datastream_id: datastream_id.to_string(),
            datastream_name: "Stage".to_string(),
        },
        timestamp: UtcDateTime { secs, nanos: 0 },
        row_index,
        value: ObservationValue::Number(value.to_string()),
    }
}

#[test]
fn payload_is_sorted_with_the_last_value_per_timestamp() {
    let rows = vec![
        observation("job", "ds", 30, 3, "3"),
        observation("job", "ds", 10, 1, "1"),
        observation("job", "ds", 30, 4, "4"),
    ];
    let payload = build_payload(&rows);
    assert_eq!(payload.len(), 2);
    assert_eq!(payload[0].phenomenon_time, UtcDateTime { secs: 10, nanos: 0 });
    assert_eq!(payload[0].result, ObservationValue::Number("1".to_string()));
    assert_eq!(payload[1].phenomenon_time, UtcDateTime { secs: 30, nanos: 0 });
    assert_eq!(payload[1].result, ObservationValue::Number("4".to_string()));
}

#[test]
fn watermark_splits_stored_rows_from_pending_ones() {
    let rows = vec![
        observation("job", "ds", 10, 1, "1"),
        observation("job", "ds", 30, 3, "3"),
        observation("job", "ds", 20, 2, "2"),
    ];
    let (stored, pending) = partition_by_watermark(rows, UtcDateTime { secs: 20, nanos: 0 });
    let stored_rows: Vec<u64> = stored.iter().map(|r| r.row_index).collect();
    let pending_rows: Vec<u64> = pending.iter().map(|r| r.row_index).collect();
    assert_eq!(stored_rows, vec![1, 2]);
    assert_eq!(pending_rows, vec![3]);
}

#[test]
fn conflicts_without_a_watermark_fail() {
    let rows = vec![observation("job", "ds", 10, 1, "1")];
    match reconcile_plan(rows, Ok(None)) {
        ConflictPlan::Fail(message, _) => assert_eq!(
            message,
            "Upload conflicted but the server reports no stored observations to reconcile against."
        ),
        ConflictPlan::Split(..) => panic!("expected a failure"),
    }
    let rows = vec![observation("job", "ds", 10, 1, "1")];
    match reconcile_plan(rows, Err("offline".to_string())) {
        ConflictPlan::Fail(message, returned) => {
            assert_eq!(message, "Upload conflicted and the server's stored range could not be confirmed: offline");
            assert_eq!(returned.len(), 1);
            assert_eq!(returned[0].row_index, 1);
        }
        ConflictPlan::Split(..) => panic!("expected a failure"),
    }
    let rows = vec![observation("job", "ds", 10, 1, "1"), observation("job", "ds", 40, 2, "2")];
    match reconcile_plan(rows, Ok(Some(UtcDateTime { secs: 10, nanos: 0 }))) {
        ConflictPlan::Split(stored, pending) => {
            assert_eq!(stored.len(), 1);
            assert_eq!(pending.len(), 1);
            assert_eq!(pending[0].row_index, 2);
        }
        ConflictPlan::Fail(message, _) => panic!("unexpected failure: {message}"),
    }
}

#[test]
fn upload_steps_retry_only_transient_errors() {
    assert_eq!(upload_step(0, &Ok(()), 500), UploadStep::Accepted);
    let conflict = Err(RequestError::Http { status: Some(409), message: "conflict".to_string() });
    assert_eq!(upload_step(0, &conflict, 500), UploadStep::Conflict);
    assert_eq!(upload_step(0, &Err(RequestError::Timeout), 500), UploadStep::Retry(500));
    assert_eq!(
        upload_step(3, &Err(RequestError::Timeout), 4000),
        UploadStep::Fail("HydroServer request timed out.".to_string())
    );
    let bad = Err(RequestError::Http { status: Some(400), message: "bad request".to_string() });
    assert_eq!(upload_step(0, &bad, 500), UploadStep::Fail("bad request".to_string()));
    assert_eq!(next_backoff(500), 1000);
}

#[test]
fn jitter_is_at_most_a_quarter_of_the_wait() {
    assert_eq!(jitter_nanos(500, 1_000_249), 500 * 249 * 1000);
    assert_eq!(jitter_nanos(500, 250), 0);
    assert!(jitter_nanos(1000, 249) * 4 <= 1000 * 1_000_000);
}

#[test]
fn pending_batches_flush_when_full() {
    let mut batches = PendingBatches::new();
    assert!(batches.is_empty());
    let mut flushed = None;
    for i in 0..BATCH_SIZE as u64 {
        flushed = batches.add(observation("job", "ds", i as i64, i, "1"));
        if flushed.is_some() {
            assert_eq!(i, BATCH_SIZE as u64 - 1);
        }
    }
    let full = flushed.expect("a full batch is handed out");
    assert_eq!(full.rows.len(), BATCH_SIZE);
    assert!(batches.is_empty());

    assert!(batches.add(observation("job", "a", 1, 1, "1")).is_none());
    assert!(batches.add(observation("job", "b", 1, 1, "1")).is_none());
    let drained = batches.drain();
    assert_eq!(drained.len(), 2);
    assert!(batches.is_empty());
}

#[test]
fn summaries_track_each_job() {
    let rows = vec![
        observation("job-a", "ds", 10, 4, "1"),
        observation("job-b", "ds", 50, 2, "1"),
        observation("job-a", "ds", 30, 9, "1"),
    ];
    let summaries = summarize_rows(&rows);
    assert_eq!(summaries.len(), 2);
    assert_eq!(summaries[0].job_id, "job-a");
    assert_eq!(summaries[0].max_row_index, 9);
    assert_eq!(summaries[0].max_timestamp, UtcDateTime { secs: 30, nanos: 0 });
    assert_eq!(summaries[1].job_id, "job-b");
    assert_eq!(loaded_message(3, "Stage"), "Loaded 3 observation(s) to datastream Stage.");
}

#[test]
fn recorded_uploads_move_each_jobs_cursor() {

    let mut store = ConfigStore::new("/tmp/cfg".to_string());
    store.set_server(
        ServerConfig {
            auth_type: AuthType::Apikey,
            url: "https://example.com".to_string(),
            api_key: String::new(),
            username: String::new(),
            password: String::new(),
            workspace_id: "w".to_string(),
            workspace_name: "W".to_string(),
        },
        "W",
    );
    for id in ["job-a", "job-b"] {
        store
            .create_job(
                id.to_string(),
                JobUpsertRequest {
                    name: id.to_string(),
                    enabled: true,
                    file_path: "/tmp/a.csv".to_string(),
                    schedule_minutes: 15,
                    file_config: FileConfig::default_config(),
                    column_mappings: vec![ColumnMapping {
                        csv_column: "Stage".to_string(),
                        datastream_id: "ds".to_string(),
                        datastream_name: "Stage".to_string(),
                    }],
                },
            )
            .expect("create job");
    }
    let rows = vec![
        observation("job-a", "ds", 10, 4, "1"),
        observation("job-b", "ds", 50, 2, "1"),
        observation("job-a", "ds", 30, 9, "1"),
    ];
    let now = UtcDateTime { secs: 100, nanos: 0 };
    let logs = record_upload_success(&mut store, "ds", "Stage", &rows, now);
    assert_eq!(
        logs,
        vec![
            ("job-a".to_string(), "Loaded 2 observation(s) to datastream Stage.".to_string()),
            ("job-b".to_string(), "Loaded 1 observation(s) to datastream Stage.".to_string()),
        ]
    );
    assert_eq!(store.cursor_for("job-a").last_pushed_row_index, Some(9));
    assert_eq!(store.cursor_for("job-b").last_pushed_row_index, Some(2));

    let only_b = vec![observation("job-b", "ds", 50, 2, "1")];
    let failed = record_upload_failure(&mut store, "ds", &only_b, "timeout", now);
    assert_eq!(failed, vec!["job-b".to_string()]);
    assert_eq!(store.cursor_for("job-b").last_error.as_deref(), Some("timeout"));
    assert_eq!(store.cursor_for("job-b").last_pushed_row_index, Some(2));
    assert_eq!(store.cursor_for("job-a").last_error, None);
}

#[test]
fn upload_rate_comes_from_a_positive_setting() {
    assert_eq!(streaming_data_loader::uploader::requests_per_second(Some(" 25 ")), 25);
    assert_eq!(streaming_data_loader::uploader::requests_per_second(Some("0")), 10);
    assert_eq!(streaming_data_loader::uploader::requests_per_second(Some("fast")), 10);
    assert_eq!(streaming_data_loader::uploader::requests_per_second(None), 10);
}
