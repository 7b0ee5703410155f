use streaming_data_loader::config_store::AppConfig;
use streaming_data_loader::models::{
    AuthType, ColumnMapping, FileConfig, IdentifierType, JobConfig, ServerConfig, TimestampConfig,
    UtcDateTime,
};
use streaming_data_loader::pipeline::{
    build_watch_plan, cursor_row_seed, is_newer_than_cursor, latest_row_count, overdue_paths,
    read_csv_rows, scan_job_contents, ObservationValue, ScanMode, WatchPlan,
};
use streaming_data_loader::records::JobCursor;

fn sample_job(path: &str) -> JobConfig {
    JobConfig {
        id: "job-1".to_string(),
        name: "Example".to_string(),
        enabled: true,
        file_path: path.to_string(),
        schedule_minutes: 15,
        file_config: FileConfig {
            header_row: Some(3),
            data_start_row: 4,
            delimiter: ",".to_string(),
            identifier_type: IdentifierType::Name,
            timestamp: TimestampConfig::default_config(),
        },
        column_mappings: vec![ColumnMapping {
            csv_column: "Stage_ft".to_string(),
            datastream_id: "ds-1".to_string(),
            datastream_name: "Stage".to_string(),
        }],
    }
}

/// 2026-04-03T08:00:00Z plus `minutes`.
fn at(minutes: i64) -> UtcDateTime {
    UtcDateTime { secs: 1_775_203_200 + minutes * 60, nanos: 0 }
}

const FIVE_ROWS: &str = "\
Station,Example Creek at Demo Site
Generated At,2026-04-03 09:00:00
Timestamp,Stage_ft,WaterTemp_C
2026-04-03 08:00:00,2.41,7.8
2026-04-03 08:05:00,2.45,7.9
";

const SEVEN_ROWS: &str = "\
Station,Example Creek
Generated At,2026-04-03
Timestamp,Stage_ft,WaterTemp_C
2026-04-03 08:00:00,2.41,7.8
2026-04-03 08:05:00,2.45,7.9
2026-04-03 08:10:00,2.50,8.0
2026-04-03 08:15:00,2.55,8.1
";

#[test]
fn read_csv_rows_allows_variable_width_preamble_rows() {
    let csv_text = "\
Station,Example Creek at Demo Site
Generated At,2026-04-03 09:00:00
Timestamp,Stage_ft,WaterTemp_C
2026-04-03 08:00:00,2.41,7.8
";
    let rows = read_csv_rows(csv_text, ',').expect("csv should parse");
    assert_eq!(rows.len(), 4);
    assert_eq!(rows[0], vec!["Station", "Example Creek at Demo Site"]);
    assert_eq!(rows[2].len(), 3);
}

#[test]
fn scan_job_file_only_returns_appended_rows() {
    let result = scan_job_contents(
        &sample_job("source.csv"),
        FIVE_ROWS.as_bytes(),
        4,
        &JobCursor::fresh(),
        ScanMode::Incremental,
    )
    .expect("scan should succeed");
    assert_eq!(result.file_row_count, 5);
    assert_eq!(result.observations.len(), 1);
    assert_eq!(result.observations[0].row_index, 5);
    assert_eq!(result.observations[0].timestamp, at(5));
    assert_eq!(result.observations[0].value, ObservationValue::Number("2.45".to_string()));
}

#[test]
fn scan_detects_file_truncation_and_rescans() {
    let job = sample_job("source.csv");
    let six = "\
Station,Example Creek at Demo Site
Generated At,2026-04-03 09:00:00
Timestamp,Stage_ft,WaterTemp_C
2026-04-03 08:00:00,2.41,7.8
2026-04-03 08:05:00,2.45,7.9
2026-04-03 08:10:00,2.50,8.0
";
    let result1 = scan_job_contents(&job, six.as_bytes(), 0, &JobCursor::fresh(), ScanMode::Incremental)
        .expect("scan 1");
    assert_eq!(result1.file_row_count, 6);
    assert_eq!(result1.observations.len(), 3);

    let four = "\
Station,Example Creek at Demo Site
Generated At,2026-04-03 10:00:00
Timestamp,Stage_ft,WaterTemp_C
2026-04-03 09:00:00,2.60,8.1
";
    let result2 = scan_job_contents(
        &job,
        four.as_bytes(),
        result1.file_row_count,
        &JobCursor::fresh(),
        ScanMode::Incremental,
    )
    .expect("scan 2");
    assert!(result2.reset_detected);
    assert_eq!(result2.file_row_count, 4);
    assert_eq!(result2.observations.len(), 1);
}

#[test]
fn full_resync_respects_cursor() {
    let mut cursor = JobCursor::fresh();
    cursor.last_pushed_timestamp = Some(at(5));
    cursor.last_pushed_row_index = Some(5);
    let result = scan_job_contents(
        &sample_job("source.csv"),
        SEVEN_ROWS.as_bytes(),
        0,
        &cursor,
        ScanMode::FullResync,
    )
    .expect("full resync scan");
    assert_eq!(result.observations.len(), 2);
    assert_eq!(result.observations[0].row_index, 6);
    assert_eq!(result.observations[1].row_index, 7);
}

#[test]
fn scan_seeded_from_cursor_skips_already_pushed_rows() {
    let mut cursor = JobCursor::fresh();
    cursor.last_pushed_timestamp = Some(at(10));
    cursor.last_pushed_row_index = Some(6);
    let result = scan_job_contents(
        &sample_job("source.csv"),
        SEVEN_ROWS.as_bytes(),
        6,
        &cursor,
        ScanMode::Incremental,
    )
    .expect("seeded scan");
    assert_eq!(result.observations.len(), 1, "only the new row should be returned");
    assert_eq!(result.observations[0].row_index, 7);
}

#[test]
fn failed_upload_backtracks_to_the_last_confirmed_row() {
    let mut cursor = JobCursor::fresh();
    cursor.last_pushed_row_index = Some(4);
    cursor.last_error = Some("network error".to_string());
    let result = scan_job_contents(
        &sample_job("source.csv"),
        SEVEN_ROWS.as_bytes(),
        7,
        &cursor,
        ScanMode::Incremental,
    )
    .expect("scan");
    let rows: Vec<u64> = result.observations.iter().map(|o| o.row_index).collect();
    assert_eq!(rows, vec![5, 6, 7]);
}

#[test]
fn incremental_no_change_returns_zero() {
    let csv = "\
Station,Example Creek
Generated At,2026-04-03
Timestamp,Stage_ft,WaterTemp_C
2026-04-03 08:00:00,2.41,7.8
2026-04-03 08:05:00,2.45,7.9
";
    let result = scan_job_contents(&sample_job("source.csv"), csv.as_bytes(), 5, &JobCursor::fresh(), ScanMode::Incremental)
        .expect("no-change scan");
    assert_eq!(result.observations.len(), 0);
    assert!(!result.reset_detected);
}

#[test]
fn empty_csv_file_returns_zero_observations() {
    let result =
        scan_job_contents(&sample_job("source.csv"), b"", 0, &JobCursor::fresh(), ScanMode::Incremental)
            .expect("scan");
    assert_eq!(result.file_row_count, 0);
    assert_eq!(result.observations.len(), 0);
    assert!(!result.reset_detected);
}

#[test]
fn missing_column_produces_clear_error() {
    let csv = "\
Station,Example Creek
Generated At,2026-04-03
Timestamp,Stage_ft,WaterTemp_C
2026-04-03 08:00:00,2.41,7.8
";
    let mut job = sample_job("source.csv");
    job.column_mappings = vec![ColumnMapping {
        csv_column: "Discharge_cfs".to_string(),
        datastream_id: "ds-1".to_string(),
        datastream_name: "Discharge".to_string(),
    }];
    let result = scan_job_contents(&job, csv.as_bytes(), 0, &JobCursor::fresh(), ScanMode::Incremental);
    assert!(result.is_err());
    let msg = result.unwrap_err();
    assert!(msg.contains("Discharge_cfs"), "error should name the missing column: {msg}");
}

#[test]
fn missing_column_error_names_the_header_settings() {
    let mut job = sample_job("source.csv");
    job.column_mappings[0].csv_column = "Missing".to_string();
    let error = scan_job_contents(&job, SEVEN_ROWS.as_bytes(), 0, &JobCursor::fresh(), ScanMode::Incremental)
        .expect_err("missing column");
    assert_eq!(
        error,
        "Column 'Missing' was not found in the configured header row. Confirm the delimiter and headerRow settings match the source file."
    );
}

#[test]
fn index_based_column_identification() {
    let csv = "\
2026-04-03 08:00:00,2.41,7.8
2026-04-03 08:05:00,2.45,7.9
2026-04-03 08:10:00,2.50,8.0
";
    let job = JobConfig {
        id: "job-index".to_string(),
        name: "Index Job".to_string(),
        enabled: true,
        file_path: "source.csv".to_string(),
        schedule_minutes: 15,
        file_config: FileConfig {
            header_row: None,
            data_start_row: 1,
            delimiter: ",".to_string(),
            identifier_type: IdentifierType::Index,
            timestamp: TimestampConfig { key: "1".to_string(), ..TimestampConfig::default_config() },
        },
        column_mappings: vec![ColumnMapping {
            csv_column: "2".to_string(),
            datastream_id: "ds-1".to_string(),
            datastream_name: "Stage".to_string(),
        }],
    };
    let result = scan_job_contents(&job, csv.as_bytes(), 0, &JobCursor::fresh(), ScanMode::Incremental)
        .expect("index-based scan");
    assert_eq!(result.observations.len(), 3);
}

#[test]
fn index_columns_count_from_one() {
    let mut job = sample_job("source.csv");
    job.file_config.identifier_type = IdentifierType::Index;
    job.file_config.timestamp.key = "1".to_string();
    job.column_mappings[0].csv_column = "3".to_string();
    let result = scan_job_contents(&job, SEVEN_ROWS.as_bytes(), 0, &JobCursor::fresh(), ScanMode::Incremental)
        .expect("index scan");
    assert_eq!(result.observations.len(), 4);
    assert_eq!(result.observations[0].value, ObservationValue::Number("7.8".to_string()));

    job.column_mappings[0].csv_column = "0".to_string();
    let error = scan_job_contents(&job, SEVEN_ROWS.as_bytes(), 0, &JobCursor::fresh(), ScanMode::Incremental)
        .expect_err("index zero");
    assert_eq!(error, "Column index '0' is invalid.");
}

#[test]
fn rows_with_empty_timestamps_are_skipped_and_bad_timestamps_name_the_row() {
    let csv = "\
Station,Example Creek
Generated At,2026-04-03
Timestamp,Stage_ft,WaterTemp_C
,2.41,7.8
2026-04-03 08:05:00,high,7.9
";
    let result = scan_job_contents(&sample_job("source.csv"), csv.as_bytes(), 0, &JobCursor::fresh(), ScanMode::Incremental)
        .expect("scan");
    assert_eq!(result.observations.len(), 1);
    assert_eq!(result.observations[0].value, ObservationValue::Text("high".to_string()));

    let bad = "\
Station,Example Creek
Generated At,2026-04-03
Timestamp,Stage_ft,WaterTemp_C
yesterday,2.41,7.8
";
    let error = scan_job_contents(&sample_job("source.csv"), bad.as_bytes(), 0, &JobCursor::fresh(), ScanMode::Incremental)
        .expect_err("bad timestamp");
    assert!(error.starts_with("Row 4: "), "got {error}");
}

#[test]
fn utf8_bom_does_not_corrupt_first_column() {
    let mut bytes = vec![0xEF, 0xBB, 0xBF];
    bytes.extend_from_slice(b"Timestamp,Stage_ft,WaterTemp_C\n");
    bytes.extend_from_slice(b"2026-04-03 08:00:00,2.41,7.8\n");
    bytes.extend_from_slice(b"2026-04-03 08:05:00,2.45,7.9\n");
    let job = JobConfig {
        id: "job-bom".to_string(),
        name: "BOM Test".to_string(),
        enabled: true,
        file_path: "source.csv".to_string(),
        schedule_minutes: 15,
        file_config: FileConfig {
            header_row: Some(1),
            data_start_row: 2,
            delimiter: ",".to_string(),
            identifier_type: IdentifierType::Name,
            timestamp: TimestampConfig::default_config(),
        },
        column_mappings: vec![ColumnMapping {
            csv_column: "Stage_ft".to_string(),
            datastream_id: "ds-1".to_string(),
            datastream_name: "Stage".to_string(),
        }],
    };
    match scan_job_contents(&job, &bytes, 0, &JobCursor::fresh(), ScanMode::Incremental) {
        Ok(r) => assert_eq!(r.observations.len(), 2),
        Err(msg) => {
            assert!(msg.contains("Timestamp") || msg.contains("not found"), "unexpected error: {msg}");
            panic!("BOM corrupts the first header cell: {msg}");
        }
    }
}

#[test]
fn newer_than_cursor_compares_time_then_row() {
    let mut cursor = JobCursor::fresh();
    assert!(is_newer_than_cursor(at(0), 1, &cursor));
    cursor.last_pushed_timestamp = Some(at(5));
    cursor.last_pushed_row_index = Some(5);
    assert!(!is_newer_than_cursor(at(4), 9, &cursor));
    assert!(!is_newer_than_cursor(at(5), 5, &cursor));
    assert!(is_newer_than_cursor(at(5), 6, &cursor));
    assert!(is_newer_than_cursor(at(6), 1, &cursor));
}

fn sample_job_with(id: &str, path: &str, minutes: u32) -> JobConfig {
    JobConfig { id: id.to_string(), schedule_minutes: minutes, ..sample_job(path) }
}

#[test]
fn scheduler_overdue_path_selection_uses_shortest_job_interval_and_skips_unscanned_paths() {
    let plan = WatchPlan {
        jobs_by_path: vec![
            (
                "/tmp/sdl-scheduler-shared.csv".to_string(),
                vec![
                    sample_job_with("job-fast", "/tmp/sdl-scheduler-shared.csv", 5),
                    sample_job_with("job-slow", "/tmp/sdl-scheduler-shared.csv", 30),
                ],
            ),
            (
                "/tmp/sdl-scheduler-fifteen.csv".to_string(),
                vec![sample_job("/tmp/sdl-scheduler-fifteen.csv")],
            ),
            (
                "/tmp/sdl-scheduler-never.csv".to_string(),
                vec![sample_job_with("job-never", "/tmp/sdl-scheduler-never.csv", 1)],
            ),
        ],
        server: None,
    };
    let overdue = overdue_paths(&plan, &vec![Some(6 * 60), Some(14 * 60), None]);
    assert!(overdue.contains(&"/tmp/sdl-scheduler-shared.csv".to_string()));
    assert!(!overdue.contains(&"/tmp/sdl-scheduler-fifteen.csv".to_string()));
    assert!(!overdue.contains(&"/tmp/sdl-scheduler-never.csv".to_string()));
}

#[test]
fn watch_plan_groups_enabled_jobs_by_path() {
    let mut disabled = sample_job_with("job-3", "/data/a.csv", 15);
    disabled.enabled = false;
    let config = AppConfig {
        version: 1,
        server: ServerConfig {
            auth_type: AuthType::Apikey,
            url: "https://example.com/".to_string(),
            api_key: "key".to_string(),
            ..ServerConfig::empty()
        },
        jobs: vec![
            sample_job_with("job-1", "/data/a.csv", 15),
            sample_job_with("job-2", "/data/b.csv", 15),
            disabled,
            sample_job_with("job-4", "/data/a.csv", 15),
        ],
        launch_at_login_initialized: false,
    };
    let paths = vec![
        "/data/a.csv".to_string(),
        "/data/b.csv".to_string(),
        "/data/a.csv".to_string(),
        "/data/a.csv".to_string(),
    ];
    let plan = build_watch_plan(&config, &paths);
    assert_eq!(plan.jobs_by_path.len(), 2);
    assert_eq!(plan.jobs_by_path[0].0, "/data/a.csv");
    let ids: Vec<&str> = plan.jobs_by_path[0].1.iter().map(|j| j.id.as_str()).collect();
    assert_eq!(ids, vec!["job-1", "job-4"]);
    assert_eq!(plan.server.expect("configured").url, "https://example.com");
}

#[test]
fn row_seed_is_the_slowest_job_and_row_count_only_grows() {
    let mut a = JobCursor::fresh();
    a.last_pushed_row_index = Some(9);
    let mut b = JobCursor::fresh();
    b.last_pushed_row_index = Some(4);
    let c = JobCursor::fresh();
    assert_eq!(cursor_row_seed(&vec![a, b, c]), Some(4));
    assert_eq!(cursor_row_seed(&vec![JobCursor::fresh()]), None);
    assert_eq!(latest_row_count(7, &vec![Some(5), None, Some(12)]), 12);
    assert_eq!(latest_row_count(7, &vec![None, Some(3)]), 7);
}
