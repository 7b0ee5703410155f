use streaming_data_loader::job_logs::{migrate_embedded_logs, JobLogEntry};
use streaming_data_loader::models::{LogLevel, UtcDateTime};
use streaming_data_loader::config_store::rewrite_generated_test_path;
use streaming_data_loader::state_files::{
    after_backup_read, after_primary_read, sidecar_path, temp_suffix, BackupRead, PrimaryOutcome, PrimaryRead,
    PREV_SUFFIX,
};

fn read_with_backup(primary: PrimaryRead<u32>, backup: BackupRead<u32>) -> Result<Option<u32>, String> {
    match after_primary_read(primary) {
        PrimaryOutcome::Done(result) => result,
        PrimaryOutcome::CheckBackup(error) => {
            after_backup_read("/cfg/workspace.json", "/cfg/workspace.json.prev", error, backup)
        }
    }
}

#[test]
fn reading_a_missing_file_returns_none() {
    assert_eq!(read_with_backup(PrimaryRead::Missing, BackupRead::Unreadable), Ok(None));
}

#[test]
fn corrupt_primary_recovers_from_prev_backup() {
    assert_eq!(
        read_with_backup(PrimaryRead::Corrupt("expected value".to_string()), BackupRead::Parsed(1)),
        Ok(Some(1))
    );
}

#[test]
fn missing_primary_with_intact_prev_recovers() {
    assert_eq!(read_with_backup(PrimaryRead::Missing, BackupRead::Parsed(1)), Ok(Some(1)));
}

#[test]
fn both_files_corrupt_surfaces_an_error() {
    assert_eq!(
        read_with_backup(PrimaryRead::Corrupt("bad".to_string()), BackupRead::Corrupt("worse".to_string())),
        Err("/cfg/workspace.json is corrupt (bad) and its .prev backup is also corrupt (worse)".to_string())
    );
}

#[test]
fn a_parsed_primary_ignores_the_backup_and_read_errors_stop() {
    assert_eq!(read_with_backup(PrimaryRead::Parsed(2), BackupRead::Parsed(1)), Ok(Some(2)));
    assert_eq!(
        read_with_backup(PrimaryRead::Failed("permission denied".to_string()), BackupRead::Parsed(1)),
        Err("permission denied".to_string())
    );
    assert_eq!(
        read_with_backup(PrimaryRead::Missing, BackupRead::Corrupt("eof".to_string())),
        Err("/cfg/workspace.json.prev is corrupt: eof".to_string())
    );
    assert_eq!(
        read_with_backup(PrimaryRead::Corrupt("eof".to_string()), BackupRead::Unreadable),
        Err("/cfg/workspace.json is corrupt: eof".to_string())
    );
}

#[test]
fn sidecar_names_append_to_the_file_name() {
    assert_eq!(sidecar_path("/cfg/a.json", PREV_SUFFIX), "/cfg/a.json.prev");
    assert_eq!(temp_suffix(4242), ".tmp-4242");
}

#[test]
fn loading_workspace_migrates_embedded_recent_logs_to_file_backed_logs() {
    let entry = JobLogEntry {
        timestamp: UtcDateTime { secs: 1_775_203_200, nanos: 5 },
        level: LogLevel::Error,
        message: "migrated message".to_string(),
    };
    let legacy = vec![("job-1".to_string(), Some(vec![entry.clone()])), ("job-2".to_string(), None)];
    let (lines, rewrite) = migrate_embedded_logs(&legacy);
    assert_eq!(lines, vec![("job-1".to_string(), entry)]);
    assert!(rewrite, "the workspace file is written again without the embedded logs");

    let (none, untouched) = migrate_embedded_logs(&vec![("job-1".to_string(), None)]);
    assert!(none.is_empty());
    assert!(!untouched);
}

#[test]
fn loading_workspace_rewrites_generated_test_csv_paths_into_current_config_dir() {
    let old = "/Users/example/Library/Application Support/com.streaming-data-loader.app/generated-test-csv/sample-batch/sample.csv";
    assert_eq!(
        rewrite_generated_test_path(old, "/tmp/cfg", '/'),
        Some("/tmp/cfg/generated-test-csv/sample-batch/sample.csv".to_string())
    );
    assert_eq!(rewrite_generated_test_path("/data/site.csv", "/tmp/cfg", '/'), None);
    assert_eq!(rewrite_generated_test_path("/data/my-generated-test-csv/a.csv", "/tmp/cfg", '/'), None);
    assert_eq!(
        rewrite_generated_test_path("C:\\old\\generated-test-csv\\b\\c.csv", "D:\\cfg", '\\'),
        Some("D:\\cfg\\generated-test-csv\\b\\c.csv".to_string())
    );
}
