use streaming_data_loader::config_store::ConfigStore;
use streaming_data_loader::models::{AuthType, JobUpsertRequest};
use streaming_data_loader::pipeline::{build_watch_plan, cursor_row_seed};
use streaming_data_loader::models::{LogLevel, ServerConfig};
use streaming_data_loader::pipeline::scan_follow_up;
use streaming_data_loader::models::{
    ColumnMapping, FileConfig, IdentifierType, JobConfig, TimestampConfig, UtcDateTime,
};
use streaming_data_loader::pipeline::{scan_job_contents, JobScanResult, ObservationValue, ScanMode};
use streaming_data_loader::records::JobCursor;

fn mapping(csv_column: &str, datastream_id: &str, datastream_name: &str) -> ColumnMapping {
    ColumnMapping {
        csv_column: csv_column.to_string(),
        datastream_id: datastream_id.to_string(),
        datastream_name: datastream_name.to_string(),
    }
}

fn sample_job() -> JobConfig {
    JobConfig {
        id: "job-1".to_string(),
        name: "Example".to_string(),
        enabled: true,
        file_path: "source.csv".to_string(),
        schedule_minutes: 15,
        file_config: FileConfig {
            header_row: Some(3),
            data_start_row: 4,
            delimiter: ",".to_string(),
            identifier_type: IdentifierType::Name,
            timestamp: TimestampConfig::default_config(),
        },
        column_mappings: vec![mapping("Stage_ft", "ds-1", "Stage")],
    }
}

fn scan(job: &JobConfig, csv: &str, previous_row_count: usize) -> Result<JobScanResult, String> {
    scan_job_contents(job, csv.as_bytes(), previous_row_count, &JobCursor::fresh(), ScanMode::Incremental)
}

fn count_for(result: &JobScanResult, datastream_id: &str) -> usize {
    result.observations.iter().filter(|o| o.datastream_id == datastream_id).count()
}

#[test]
fn scan_persists_row_count_across_successive_events() {
    let job = sample_job();
    let first = "\
Station,Example Creek at Demo Site
Generated At,2026-04-03 09:00:00
Timestamp,Stage_ft,WaterTemp_C
2026-04-03 08:00:00,2.41,7.8
2026-04-03 08:05:00,2.45,7.9
";
    let result1 = scan(&job, first, 0).expect("scan 1");
    assert_eq!(result1.file_row_count, 5);
    assert_eq!(result1.observations.len(), 2);

    let result2 = scan(&job, first, result1.file_row_count).expect("scan 2");
    assert_eq!(result2.observations.len(), 0);

    let appended = "\
Station,Example Creek at Demo Site
Generated At,2026-04-03 09:00:00
Timestamp,Stage_ft,WaterTemp_C
2026-04-03 08:00:00,2.41,7.8
2026-04-03 08:05:00,2.45,7.9
2026-04-03 08:10:00,2.50,8.0
";
    let result3 = scan(&job, appended, result2.file_row_count).expect("scan 3");
    assert_eq!(result3.file_row_count, 6);
    assert_eq!(result3.observations.len(), 1);
    assert_eq!(result3.observations[0].row_index, 6);
}

#[test]
fn large_comment_preamble_is_skipped_correctly() {
    let mut csv = String::new();
    for i in 1..=100 {
        csv.push_str(&format!("Comment line {i}: some logger metadata\n"));
    }
    csv.push_str("Timestamp,Stage_ft,WaterTemp_C\n");
    csv.push_str("2026-04-03 08:00:00,2.41,7.8\n");
    csv.push_str("2026-04-03 08:05:00,2.45,7.9\n");
    csv.push_str("2026-04-03 08:10:00,2.50,8.0\n");

    let mut job = sample_job();
    job.id = "job-preamble".to_string();
    job.file_config.header_row = Some(101);
    job.file_config.data_start_row = 102;

    let result = scan(&job, &csv, 0).expect("scan with large preamble");
    assert_eq!(result.file_row_count, 104);
    assert_eq!(result.observations.len(), 3);
    assert_eq!(result.observations[0].row_index, 102);
    assert_eq!(result.observations[2].row_index, 104);
}

#[test]
fn campbell_scientific_style_four_line_header() {
    let csv = "\
\"TOA5\",\"CR1000\",\"CPU:TestSite.CR1X\",\"12345\",\"CR1000.Std.32.06\",\"30490\",\"MyTable\"
\"TIMESTAMP\",\"RECORD\",\"Stage_ft\",\"WaterTemp_C\"
\"TS\",\"RN\",\"ft\",\"Deg C\"
\"\",\"\",\"Avg\",\"Avg\"
\"2026-04-03 08:00:00\",1,2.41,7.8
\"2026-04-03 08:05:00\",2,2.45,7.9
\"2026-04-03 08:10:00\",3,2.50,8.0
";
    let mut job = sample_job();
    job.id = "job-campbell".to_string();
    job.file_config.header_row = Some(2);
    job.file_config.data_start_row = 5;
    job.file_config.timestamp.key = "TIMESTAMP".to_string();

    let result = scan(&job, csv, 0).expect("scan campbell file");
    assert_eq!(result.observations.len(), 3);
    assert_eq!(result.observations[0].row_index, 5);
}

#[test]
fn header_only_file_returns_zero_observations() {
    let csv = "\
Station,Example Creek
Generated At,2026-04-03
Timestamp,Stage_ft,WaterTemp_C
";
    let result = scan(&sample_job(), csv, 0).expect("header-only should succeed");
    assert_eq!(result.file_row_count, 3);
    assert_eq!(result.observations.len(), 0);
}

#[test]
fn sparse_rows_with_missing_values_are_handled() {
    let csv = "\
Station,Example Creek
Generated At,2026-04-03
Timestamp,Stage_ft,WaterTemp_C
2026-04-03 08:00:00,2.41,7.8
2026-04-03 08:05:00,,7.9
2026-04-03 08:10:00,2.50,
2026-04-03 08:15:00,,
2026-04-03 08:20:00,2.55,8.1
";
    let mut job = sample_job();
    job.column_mappings = vec![mapping("Stage_ft", "ds-stage", "Stage"), mapping("WaterTemp_C", "ds-temp", "Temp")];

    let result = scan(&job, csv, 0).expect("sparse scan");
    assert_eq!(result.observations.len(), 6);
    assert_eq!(count_for(&result, "ds-stage"), 3);
    assert_eq!(count_for(&result, "ds-temp"), 3);
}

#[test]
fn rows_with_empty_timestamps_are_skipped() {
    let csv = "\
Station,Example Creek
Generated At,2026-04-03
Timestamp,Stage_ft,WaterTemp_C
2026-04-03 08:00:00,2.41,7.8
,2.45,7.9
2026-04-03 08:10:00,2.50,8.0
   ,2.55,8.1
2026-04-03 08:20:00,2.60,8.2
";
    let result = scan(&sample_job(), csv, 0).expect("empty-ts scan");
    assert_eq!(result.observations.len(), 3);
    assert_eq!(result.observations[0].row_index, 4);
    assert_eq!(result.observations[1].row_index, 6);
    assert_eq!(result.observations[2].row_index, 8);
}

#[test]
fn quoted_fields_with_embedded_commas() {
    let csv = "\
\"Station Name\",\"Example Creek, East Fork\"
\"Generated At\",\"April 3, 2026\"
Timestamp,Stage_ft,WaterTemp_C
2026-04-03 08:00:00,2.41,7.8
2026-04-03 08:05:00,2.45,7.9
";
    let result = scan(&sample_job(), csv, 0).expect("quoted-fields scan");
    assert_eq!(result.observations.len(), 2);
}

#[test]
fn tab_delimited_file() {
    let csv = "Station\tExample Creek\n\
                Generated At\t2026-04-03\n\
                Timestamp\tStage_ft\tWaterTemp_C\n\
                2026-04-03 08:00:00\t2.41\t7.8\n\
                2026-04-03 08:05:00\t2.45\t7.9\n";
    let mut job = sample_job();
    job.file_config.delimiter = "\t".to_string();
    let result = scan(&job, csv, 0).expect("tab-delimited scan");
    assert_eq!(result.observations.len(), 2);
}

#[test]
fn windows_crlf_line_endings() {
    let csv = "Station,Example Creek\r\n\
                Generated At,2026-04-03\r\n\
                Timestamp,Stage_ft,WaterTemp_C\r\n\
                2026-04-03 08:00:00,2.41,7.8\r\n\
                2026-04-03 08:05:00,2.45,7.9\r\n";
    let result = scan(&sample_job(), csv, 0).expect("crlf scan");
    assert_eq!(result.observations.len(), 2);
}

#[test]
fn case_insensitive_header_matching() {
    let csv = "\
Station,Example Creek
Generated At,2026-04-03
TIMESTAMP,STAGE_FT,WATERTEMP_C
2026-04-03 08:00:00,2.41,7.8
2026-04-03 08:05:00,2.45,7.9
";
    let mut job = sample_job();
    job.file_config.timestamp.key = "timestamp".to_string();
    job.column_mappings = vec![mapping("stage_ft", "ds-1", "Stage")];
    let result = scan(&job, csv, 0).expect("case-insensitive scan");
    assert_eq!(result.observations.len(), 2);
}

#[test]
fn multiple_column_mappings_produce_correct_observations() {
    let csv = "\
Station,Example Creek
Generated At,2026-04-03
Timestamp,Stage_ft,WaterTemp_C,Conductivity
2026-04-03 08:00:00,2.41,7.8,145.2
2026-04-03 08:05:00,2.45,7.9,146.0
";
    let mut job = sample_job();
    job.column_mappings = vec![
        mapping("Stage_ft", "ds-stage", "Stage"),
        mapping("WaterTemp_C", "ds-temp", "Temp"),
        mapping("Conductivity", "ds-cond", "Cond"),
    ];
    let result = scan(&job, csv, 0).expect("multi-mapping scan");
    assert_eq!(result.observations.len(), 6);
    assert_eq!(count_for(&result, "ds-stage"), 2);
    assert_eq!(count_for(&result, "ds-temp"), 2);
    assert_eq!(count_for(&result, "ds-cond"), 2);
}

#[test]
fn whitespace_padded_values_are_trimmed() {
    let csv = "\
Station,Example Creek
Generated At,2026-04-03
Timestamp,Stage_ft,WaterTemp_C
  2026-04-03 08:00:00  ,  2.41  ,  7.8
  2026-04-03 08:05:00  ,  2.45  ,  7.9
";
    let result = scan(&sample_job(), csv, 0).expect("whitespace scan");
    assert_eq!(result.observations.len(), 2);
    assert_eq!(result.observations[0].value, ObservationValue::Number("2.41".to_string()));
    assert_eq!(result.observations[1].value, ObservationValue::Number("2.45".to_string()));
}

#[test]
fn mixed_numeric_and_string_observation_values() {
    let csv = "\
Station,Example Creek
Generated At,2026-04-03
Timestamp,Stage_ft,WaterTemp_C
2026-04-03 08:00:00,2.41,7.8
2026-04-03 08:05:00,low,sensor_error
2026-04-03 08:10:00,-0.5,0
";
    let result = scan(&sample_job(), csv, 0).expect("mixed values scan");
    assert_eq!(result.observations.len(), 3);
    assert_eq!(result.observations[0].value, ObservationValue::Number("2.41".to_string()));
    assert_eq!(result.observations[1].value, ObservationValue::Text("low".to_string()));
    assert_eq!(result.observations[2].value, ObservationValue::Number("-0.5".to_string()));
}

#[test]
fn semicolon_delimited_file() {
    let csv = "\
Station;Example Creek\n\
Generated At;2026-04-03\n\
Timestamp;Stage_ft;WaterTemp_C\n\
2026-04-03 08:00:00;2.41;7.8\n\
2026-04-03 08:05:00;2.45;7.9\n";
    let mut job = sample_job();
    job.file_config.delimiter = ";".to_string();
    let result = scan(&job, csv, 0).expect("semicolon scan");
    assert_eq!(result.observations.len(), 2);
}

#[test]
fn large_csv_scan_produces_bounded_observations() {
    let mut csv = String::from("Station,Example Creek\nGenerated At,2026-04-03\nTimestamp,Stage_ft,WaterTemp_C\n");
    // 2026-01-01T00:00:00Z, in seconds since the epoch.
    let base: i64 = 1_767_225_600;
    for i in 0..10_000i64 {
        let secs = base + i * 300;
        let days = secs / 86_400;
        let rem = secs % 86_400;
        let (y, m, d) = civil_from_days(days);
        csv.push_str(&format!(
            "{y:04}-{m:02}-{d:02}T{:02}:{:02}:{:02},{:.2},{:.1}\n",
            rem / 3600,
            (rem % 3600) / 60,
            rem % 60,
            2.0 + (i as f64) * 0.01,
            7.0 + (i as f64) * 0.001,
        ));
    }
    let job = sample_job();
    let result = scan(&job, &csv, 0).expect("scan large file");
    assert_eq!(result.file_row_count, 10_003);
    assert_eq!(result.observations.len(), 10_000);
    assert_eq!(result.observations[1].timestamp, UtcDateTime { secs: base + 300, nanos: 0 });

    let result2 = scan(&job, &csv, result.file_row_count).expect("incremental scan of unchanged file");
    assert_eq!(result2.observations.len(), 0);
}

/// The proleptic Gregorian date of a day count since 1970-01-01.
fn civil_from_days(days: i64) -> (i64, i64, i64) {
    let z = days + 719_468;
    let era = z.div_euclid(146_097);
    let doe = z - era * 146_097;
    let yoe = (doe - doe / 1460 + doe / 36_524 - doe / 146_096) / 365;
    let doy = doe - (365 * yoe + yoe / 4 - yoe / 100);
    let mp = (5 * doy + 2) / 153;
    let d = doy - (153 * mp + 2) / 5 + 1;
    let m = if mp < 10 { mp + 3 } else { mp - 9 };
    let y = yoe + era * 400 + if m <= 2 { 1 } else { 0 };
    (y, m, d)
}

#[test]
fn scan_retries_failed_rows_when_cursor_has_error() {
    let csv = "\
Station,Example Creek
Generated At,2026-04-03
Timestamp,Stage_ft,WaterTemp_C
2026-04-03 08:00:00,2.41,7.8
2026-04-03 08:05:00,2.45,7.9
2026-04-03 08:10:00,2.50,8.0
2026-04-03 08:15:00,2.55,8.1
2026-04-03 08:20:00,2.60,8.2
";
    let mut cursor = JobCursor::fresh();
    cursor.last_pushed_timestamp = Some(UtcDateTime { secs: 1_775_203_500, nanos: 0 });
    cursor.last_pushed_row_index = Some(5);
    cursor.last_error = Some("network error".to_string());

    let result = scan_job_contents(&sample_job(), csv.as_bytes(), 8, &cursor, ScanMode::Incremental)
        .expect("retry scan");
    assert_eq!(result.observations.len(), 3, "failed rows should be retried");
    assert_eq!(result.observations[0].row_index, 6);
    assert_eq!(result.observations[1].row_index, 7);
    assert_eq!(result.observations[2].row_index, 8);
}

#[test]
fn scan_results_become_log_entries_and_queued_observations() {

    let csv = "\
Station,Example Creek
Generated At,2026-04-03
Timestamp,Stage_ft,WaterTemp_C
2026-04-03 08:00:00,2.41,7.8
";
    let result = scan(&sample_job(), csv, 0).expect("scan");
    let follow_up = scan_follow_up("job-1", &ServerConfig::empty(), result, ScanMode::Incremental);
    assert!(follow_up.logs.is_empty());
    assert_eq!(follow_up.queued.len(), 1);
    assert_eq!(follow_up.queued[0].context.job_id, "job-1");
    assert_eq!(follow_up.queued[0].context.datastream_id, "ds-1");
    assert_eq!(follow_up.queued[0].row_index, 4);

    let mut empty = scan(&sample_job(), csv, 4).expect("scan");
    empty.reset_detected = true;
    let follow_up = scan_follow_up("job-1", &ServerConfig::empty(), empty, ScanMode::FullResync);
    assert_eq!(follow_up.logs.len(), 2);
    assert_eq!(follow_up.logs[0].0, LogLevel::Warning);
    assert_eq!(
        follow_up.logs[1],
        (LogLevel::Info, "No new observations were available to queue.".to_string())
    );
    assert!(follow_up.queued.is_empty());
}

#[test]
fn restart_load_cursor_row_seeds_prevents_duplicate_scans() {

    let mut store = ConfigStore::new("/tmp/restart-seeds".to_string());
    store.set_server(
        ServerConfig {
            auth_type: AuthType::Apikey,
            url: "http://127.0.0.1:9".to_string(),
            api_key: "test-api-key".to_string(),
            username: String::new(),
            password: String::new(),
            workspace_id: "workspace-1".to_string(),
            workspace_name: "Test Workspace".to_string(),
        },
        "Test Workspace",
    );
    let sample = sample_job();
    let job = store
        .create_job(
            "job-1".to_string(),
            JobUpsertRequest {
                name: sample.name.clone(),
                enabled: true,
                file_path: "/data/source.csv".to_string(),
                schedule_minutes: 15,
                file_config: sample.file_config.clone(),
                column_mappings: sample.column_mappings.clone(),
            },
        )
        .expect("create job");

    let seed_for = |store: &ConfigStore| {
        let config = store.load();
        let paths: Vec<String> = config.jobs.iter().map(|j| j.file_path.clone()).collect();
        let plan = build_watch_plan(&config, &paths);
        let cursors: Vec<_> = plan.jobs_by_path[0].1.iter().map(|j| store.cursor_for(&j.id)).collect();
        cursor_row_seed(&cursors)
    };
    assert_eq!(seed_for(&store), None, "new jobs should not have a row-count seed before any uploads succeed");

    let pushed = UtcDateTime { secs: 1_775_203_500, nanos: 0 };
    store.record_datastream_success(&job.id, "ds-1", 5, pushed, pushed);
    assert_eq!(seed_for(&store), Some(5), "restart should seed row counts from the persisted cursor");

    let csv = "\
Station,Example Creek
Generated At,2026-04-03
Timestamp,Stage_ft,WaterTemp_C
2026-04-03 08:00:00,2.41,7.8
2026-04-03 08:05:00,2.45,7.9
2026-04-03 08:10:00,2.50,8.0
";
    let cursor = store.cursor_for(&job.id);
    let result = scan_job_contents(&job, csv.as_bytes(), 5, &cursor, ScanMode::Incremental).expect("scan after restart");
    assert_eq!(result.observations.len(), 1);
    assert_eq!(result.observations[0].row_index, 6);
}

#[test]
fn shared_file_scans_use_one_baseline_for_all_jobs() {
    let csv = "\
Station,Example Creek
Generated At,2026-04-03
Timestamp,Stage_ft,WaterTemp_C
2026-04-03 08:00:00,2.41,7.8
2026-04-03 08:05:00,2.45,7.9
";
    let first_job = sample_job();
    let mut second_job = sample_job();
    second_job.id = "job-2".to_string();
    second_job.name = "Second job".to_string();
    second_job.column_mappings = vec![mapping("WaterTemp_C", "ds-2", "WaterTemp")];

    let baseline = 4;
    let first = scan(&first_job, csv, baseline).expect("scan first job");
    assert_eq!(first.file_row_count, 5);
    let second = scan(&second_job, csv, baseline).expect("scan second job");
    assert_eq!(second.file_row_count, 5);
    assert_eq!(second.observations.len(), 1);
    assert_eq!(second.observations[0].datastream_id, "ds-2");

    let counts = vec![Some(first.file_row_count), Some(second.file_row_count)];
    assert_eq!(streaming_data_loader::pipeline::latest_row_count(baseline, &counts), 5);
    assert_eq!(streaming_data_loader::pipeline::latest_row_count(baseline, &vec![None, None]), baseline);
}
