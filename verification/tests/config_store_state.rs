use streaming_data_loader::config_store::ConfigStore;
use streaming_data_loader::models::{
    AuthType, ColumnMapping, FileConfig, JobUpsertRequest, ServerConfig, UtcDateTime,
};

fn server(workspace_id: &str, workspace_name: &str) -> ServerConfig {
    ServerConfig {
        auth_type: AuthType::Apikey,
        url: "https://example.com".to_string(),
        api_key: String::new(),
        username: String::new(),
        password: String::new(),
        workspace_id: workspace_id.to_string(),
        workspace_name: workspace_name.to_string(),
    }
}

fn mapping(csv_column: &str, datastream_id: &str, datastream_name: &str) -> ColumnMapping {
    ColumnMapping {
        csv_column: csv_column.to_string(),
        datastream_id: datastream_id.to_string(),
        datastream_name: datastream_name.to_string(),
    }
}

fn request(name: &str, file_path: &str, column_mappings: Vec<ColumnMapping>) -> JobUpsertRequest {
    JobUpsertRequest {
        name: name.to_string(),
        enabled: true,
        file_path: file_path.to_string(),
        schedule_minutes: 15,
        file_config: FileConfig::default_config(),
        column_mappings,
    }
}

fn now() -> UtcDateTime {
    UtcDateTime { secs: 1_775_300_000, nanos: 0 }
}

fn multi_job_store(workspace_id: &str, workspace_name: &str) -> ConfigStore {
    let mut store = ConfigStore::new("/tmp/config-store".to_string());
    store.set_server(server(workspace_id, workspace_name), workspace_name);
    store
        .create_job(
            "job-1".to_string(),
            request(
                "Multi-datastream job",
                "/tmp/multi.csv",
                vec![
                    mapping("Stage_ft", "ds-stage", "Stage"),
                    mapping("WaterTemp_C", "ds-temp", "Water Temp"),
                ],
            ),
        )
        .expect("create job");
    store
}

#[test]
fn running_state_is_persisted_and_can_be_cleared_globally() {
    let mut store = ConfigStore::new("/tmp/config-store-running".to_string());
    store.set_server(server("workspace-running", "Workspace Running"), "Workspace Running");
    let job = store
        .create_job("job-running".to_string(), request("Running source", "/tmp/running.csv", Vec::new()))
        .expect("create job");

    assert!(store.set_job_running(&job.id, true), "set job running");
    assert!(
        store.cursor_for(&job.id).is_running,
        "cursor should reflect persisted running state"
    );

    store.clear_all_running_jobs();
    assert!(
        !store.cursor_for(&job.id).is_running,
        "global running-state reset should clear persisted flags"
    );
}

#[test]
fn record_datastream_success_isolates_per_datastream_state() {
    let mut store = multi_job_store("workspace-partial", "Partial Failure");

    store.record_datastream_failure("job-1", "ds-temp", "network error", now());
    let stage_ts = UtcDateTime { secs: 1_775_204_400, nanos: 0 };
    store.record_datastream_success("job-1", "ds-stage", 8, stage_ts, now());

    let cursor = store.cursor_for("job-1");
    let stage = cursor.datastream_cursor("ds-stage").expect("stage cursor present");
    assert_eq!(stage.last_pushed_row_index, Some(8));
    assert_eq!(stage.last_error, None);

    let temp = cursor.datastream_cursor("ds-temp").expect("temp cursor present");
    assert_eq!(temp.last_pushed_row_index, None, "failed sibling's cursor must not advance");
    assert_eq!(
        temp.last_error.as_deref(),
        Some("network error"),
        "failed sibling's error must survive the other datastream's success"
    );

    assert_eq!(
        cursor.last_pushed_row_index, None,
        "aggregate row must be None while any mapping has no confirmed cursor"
    );
    assert_eq!(
        cursor.last_error.as_deref(),
        Some("network error"),
        "aggregate error should surface the still-failing datastream"
    );
}

#[test]
fn record_datastream_failure_preserves_sibling_progress() {
    let mut store = multi_job_store("workspace-fail", "Fail Isolation");

    let stage_ts = UtcDateTime { secs: 1_775_204_400, nanos: 0 };
    let temp_ts = UtcDateTime { secs: 1_775_203_500, nanos: 0 };
    store.record_datastream_success("job-1", "ds-stage", 8, stage_ts, now());
    store.record_datastream_success("job-1", "ds-temp", 5, temp_ts, now());
    store.record_datastream_failure("job-1", "ds-temp", "timeout", now());

    let cursor = store.cursor_for("job-1");
    let stage = cursor.datastream_cursor("ds-stage").expect("stage cursor");
    assert_eq!(stage.last_pushed_row_index, Some(8));
    assert_eq!(stage.last_error, None);

    let temp = cursor.datastream_cursor("ds-temp").expect("temp cursor");
    assert_eq!(
        temp.last_pushed_row_index,
        Some(5),
        "temp's prior successful cursor must persist through a later failure"
    );
    assert_eq!(temp.last_pushed_timestamp, Some(temp_ts));
    assert_eq!(temp.last_error.as_deref(), Some("timeout"));

    assert_eq!(cursor.last_pushed_row_index, Some(5));
    assert_eq!(cursor.last_pushed_timestamp, Some(temp_ts));
}

#[test]
fn create_job_without_workspace_is_refused() {
    let mut store = ConfigStore::new("/tmp/config-store-empty".to_string());
    let result = store.create_job("job-1".to_string(), request("Source", "/tmp/a.csv", Vec::new()));
    assert_eq!(result, Err("No active workspace is configured.".to_string()));
    assert!(store.list_jobs().is_empty());
}

#[test]
fn created_job_is_listed_updated_and_deleted() {
    let mut store = ConfigStore::new("/tmp/config-store-crud".to_string());
    store.set_server(server("workspace-1", "Workspace 1"), "Workspace 1");
    let job = store
        .create_job("job-1".to_string(), request("  Source  ", "/tmp/a.csv", Vec::new()))
        .expect("create job");
    assert_eq!(job.name, "Source");
    assert!(store.has_job("job-1"));
    assert_eq!(store.list_jobs().len(), 1);
    assert_eq!(store.get_job("job-1"), Some(job));

    let updated = store
        .update_job("job-1", request("Renamed", "/tmp/b.csv", Vec::new()))
        .expect("update job")
        .expect("job exists");
    assert_eq!(updated.name, "Renamed");
    assert_eq!(updated.file_path, "/tmp/b.csv");
    assert_eq!(store.update_job("missing", request("X", "/tmp/x.csv", Vec::new())), Ok(None));

    let disabled = store.set_job_enabled("job-1", false).expect("set enabled").expect("job exists");
    assert!(!disabled.enabled);

    assert!(store.delete_job("job-1"));
    assert!(!store.delete_job("job-1"));
    assert!(!store.has_job("job-1"));
    assert_eq!(store.get_job("job-1"), None);
}

#[test]
fn reset_cursors_forgets_every_datastream() {
    let mut store = multi_job_store("workspace-reset", "Reset");
    store.record_datastream_success("job-1", "ds-stage", 8, now(), now());
    store.reset_job_datastream_cursors("job-1");
    let cursor = store.cursor_for("job-1");
    assert!(cursor.datastream_cursors.is_empty());
    assert_eq!(cursor.last_pushed_row_index, None);
}

#[test]
fn job_log_file_path_prefers_the_newest_existing_file() {
    let store = ConfigStore::new("/tmp/cfg".to_string());
    let none: Vec<String> = Vec::new();
    assert_eq!(store.job_log_file_path("job-1", &none, '/'), None);

    let rotated = vec!["job-1.2.log".to_string(), "other.log".to_string()];
    assert_eq!(
        store.job_log_file_path("job-1", &rotated, '/'),
        Some("/tmp/cfg/logs/jobs/job-1.2.log".to_string())
    );

    let both = vec!["job-1.1.log".to_string(), "job-1.log".to_string()];
    assert_eq!(
        store.job_log_file_path("job-1", &both, '/'),
        Some("/tmp/cfg/logs/jobs/job-1.log".to_string())
    );
}

#[test]
fn ensure_lists_the_store_directories() {
    let store = ConfigStore::new("/tmp/cfg".to_string());
    assert_eq!(
        store.ensure('/'),
        vec![
            "/tmp/cfg".to_string(),
            "/tmp/cfg/workspaces".to_string(),
            "/tmp/cfg/logs".to_string(),
            "/tmp/cfg/logs/jobs".to_string(),
        ]
    );
}

#[test]
fn job_ids_are_dashed_hex_of_the_mixed_bits() {
    assert_eq!(
        streaming_data_loader::config_store::job_id_from(0xabc, 1, 2),
        "00000000-0000-0002-0000-000100000abc"
    );
    assert_eq!(
        streaming_data_loader::config_store::job_id_from(1, 0, 0),
        "00000000-0000-0000-0000-000000000001"
    );
}

#[test]
fn normalizing_a_normalized_job_changes_nothing() {
    let mut raw = request("  Stage logger ", " /data/site.csv ", vec![mapping(" Stage ", " ds-1 ", " Stage ")]);
    raw.file_config.timestamp.key = "  ".to_string();
    let once = raw.normalized().expect("valid settings");
    assert_eq!(once.name, "Stage logger");
    assert_eq!(once.file_config.timestamp.key, "timestamp");
    let twice = JobUpsertRequest {
        name: once.name.clone(),
        enabled: once.enabled,
        file_path: once.file_path.clone(),
        schedule_minutes: once.schedule_minutes,
        file_config: once.file_config.clone(),
        column_mappings: once.column_mappings.clone(),
    }
    .normalized()
    .expect("still valid");
    assert_eq!(twice, once);

    let server = server(" ws-1 ", "W");
    let normalized = server.normalized();
    assert_eq!(normalized.clone().normalized(), normalized);
}

#[test]
fn cursor_laws_on_concrete_values() {
    let mut store = multi_job_store("workspace-laws", "Laws");
    store
        .create_job("job-2".to_string(), request("Other", "/tmp/other.csv", vec![mapping("A", "ds-a", "A")]))
        .expect("second job");
    let other_before = store.get_job("job-2");
    let t1 = UtcDateTime { secs: 100, nanos: 0 };
    let t2 = UtcDateTime { secs: 50, nanos: 0 };
    store.record_datastream_success("job-1", "ds-stage", 9, t1, now());
    store.record_datastream_success("job-1", "ds-stage", 4, t2, now());
    let stage = store.cursor_for("job-1");
    let c = stage.datastream_cursor("ds-stage").expect("stage cursor");
    assert_eq!(c.last_pushed_row_index, Some(9), "the larger row stays");
    assert_eq!(c.last_pushed_timestamp, Some(t1), "the later time stays");

    store.reset_job_datastream_cursors("job-1");
    store.record_datastream_success("job-1", "ds-stage", 4, t2, now());
    let c = store.cursor_for("job-1");
    assert_eq!(c.datastream_cursor("ds-stage").expect("stage").last_pushed_row_index, Some(4));

    store.update_job("job-1", request("Renamed", "/tmp/multi.csv", Vec::new())).expect("update");
    assert_eq!(store.get_job("job-2"), other_before, "other jobs are untouched");

    store.set_job_running("job-1", true);
    store.delete_job_runtime("job-1");
    let fresh = store.cursor_for("job-1");
    assert!(!fresh.is_running);
    assert!(fresh.datastream_cursors.is_empty());
    assert_eq!(fresh.last_pushed_row_index, None);
    assert!(!store.set_job_running("missing", true));
}

#[test]
fn clearing_then_saving_server_gives_back_the_jobs() {
    let mut store = multi_job_store("workspace-keep", "Keep");
    let jobs_before = store.list_jobs();
    assert_eq!(jobs_before.len(), 1);

    let cleared = store.clear_server();
    assert!(cleared.jobs.is_empty());
    assert!(store.list_jobs().is_empty());

    let again = store.set_server(server("workspace-keep", "Keep"), "Keep");
    assert_eq!(again.jobs, jobs_before);
    assert_eq!(store.list_jobs(), jobs_before);

    let other = store.set_server(server("workspace-new", "New"), "New");
    assert!(other.jobs.is_empty());
}

#[test]
fn update_keeps_order_and_create_appends() {
    let mut store = multi_job_store("workspace-order", "Order");
    store
        .create_job("job-2".to_string(), request("Second", "/tmp/second.csv", Vec::new()))
        .expect("second job");
    store
        .create_job("job-3".to_string(), request("Third", "/tmp/third.csv", Vec::new()))
        .expect("third job");
    let ids: Vec<String> = store.list_jobs().into_iter().map(|j| j.id).collect();
    assert_eq!(ids, vec!["job-1".to_string(), "job-2".to_string(), "job-3".to_string()]);

    store.update_job("job-2", request("Second renamed", "/tmp/second.csv", Vec::new())).expect("update");
    let jobs = store.list_jobs();
    let ids: Vec<String> = jobs.iter().map(|j| j.id.clone()).collect();
    assert_eq!(ids, vec!["job-1".to_string(), "job-2".to_string(), "job-3".to_string()]);
    assert_eq!(jobs[1].name, "Second renamed");
}
