use streaming_data_loader::commands::{
    delete_outcome, job_or_not_found, manual_run_allowed, run_requested, server_to_store, toggle_outcome,
};
use streaming_data_loader::responses::ConnectionTestResponse;
use streaming_data_loader::daemon_api::{authorize, generate_token, token_hex, AuthorizationHeader};
use streaming_data_loader::job_logs::{
    job_log_file_name, job_log_file_names_oldest_to_newest, needs_rotation, rotated_job_log_file_name,
    JOB_LOG_ROTATE_BYTES,
};
use streaming_data_loader::logging::{
    init_daemon_logging, init_desktop_logging, log_context_from_args, LogContext, MAX_RETAINED_LOG_FILES,
};
use streaming_data_loader::models::{
    AuthType, ColumnMapping, ConnectionState, FileConfig, JobConfig, JobStatus, LogLevel, ServerConfig, UtcDateTime,
};
use streaming_data_loader::records::JobCursor;
use streaming_data_loader::runtime::{
    build_job_summary, derive_job_status, legacy_config_candidates, migration_source, preferred_user_data_dir,
    run_job_response, RunningJobs,
};

fn args(items: &[&str]) -> Vec<String> {
    items.iter().map(|a| a.to_string()).collect()
}

fn job(enabled: bool) -> JobConfig {
    JobConfig {
        id: "job-1".to_string(),
        name: "Example".to_string(),
        enabled,
        file_path: "/tmp/a.csv".to_string(),
        schedule_minutes: 15,
        file_config: FileConfig::default_config(),
        column_mappings: vec![ColumnMapping {
            csv_column: "Stage".to_string(),
            datastream_id: "ds-1".to_string(),
            datastream_name: "Stage".to_string(),
        }],
    }
}

#[test]
fn preferred_user_data_dir_uses_app_data_dir_before_home_dir() {
    let app_data = "/data/app-data/com.streaming-data-loader".to_string();
    let home = "/data/home".to_string();
    assert_eq!(
        preferred_user_data_dir(Some(app_data.clone()), Some(home.clone()), false, '/'),
        Ok(app_data.clone())
    );
    assert_eq!(
        preferred_user_data_dir(Some(app_data), Some(home), true, '/'),
        Ok("/data/app-data/com.streaming-data-loader/dev".to_string())
    );
}

#[test]
fn preferred_user_data_dir_falls_back_to_home_dir_without_documents() {
    assert_eq!(
        preferred_user_data_dir(None, Some("/data/home".to_string()), false, '/'),
        Ok("/data/home/Streaming Data Loader".to_string())
    );
    assert_eq!(
        preferred_user_data_dir(None, None, false, '/'),
        Err("Couldn't resolve an application data directory.".to_string())
    );
}

#[test]
fn job_status_prefers_running_then_paused_then_error() {
    let mut cursor = JobCursor::fresh();
    assert_eq!(derive_job_status(&job(true), &cursor, true), (JobStatus::Running, "Running now".to_string()));
    assert_eq!(derive_job_status(&job(false), &cursor, false), (JobStatus::Disabled, "Paused".to_string()));
    assert_eq!(
        derive_job_status(&job(true), &cursor, false),
        (JobStatus::Pending, "Watching for new rows".to_string())
    );
    cursor.last_pushed_timestamp = Some(UtcDateTime { secs: 10, nanos: 0 });
    assert_eq!(
        derive_job_status(&job(true), &cursor, false),
        (JobStatus::Healthy, "Watching for new rows".to_string())
    );
    cursor.last_error = Some("boom".to_string());
    assert_eq!(derive_job_status(&job(true), &cursor, false), (JobStatus::Error, "boom".to_string()));

    let summary = build_job_summary(&job(true), &cursor, false);
    assert_eq!(summary.status, JobStatus::Error);
    assert_eq!(summary.last_error.as_deref(), Some("boom"));
    assert_eq!(summary.column_mappings.len(), 1);
}

#[test]
fn run_job_response_is_always_ok() {
    assert!(run_job_response(true).ok);
    assert!(run_job_response(false).ok);
    assert_ne!(run_job_response(true).message, run_job_response(false).message);
}

#[test]
fn running_jobs_are_marked_once_and_cleared() {
    let mut running = RunningJobs::new();
    assert!(!running.is_running("a"));
    assert!(running.mark("a"));
    assert!(!running.mark("a"));
    assert!(running.mark("b"));
    running.clear("a");
    assert!(!running.is_running("a"));
    assert!(running.is_running("b"));
}

#[test]
fn log_context_comes_from_arguments() {
    assert_eq!(log_context_from_args(&args(&["sdl"])), LogContext::Desktop);
    assert_eq!(log_context_from_args(&args(&["sdl", "--service"])), LogContext::Daemon);
    assert_eq!(
        log_context_from_args(&args(&["sdl", "--linux-service-action", "install"])),
        LogContext::ServiceManager
    );
    assert_eq!(
        log_context_from_args(&args(&["sdl", "--linux-service-action", "install", "--service"])),
        LogContext::Daemon
    );
}

#[test]
fn log_plans_roll_into_the_rolling_folder() {
    let desktop = init_desktop_logging("/var/log/sdl", '/');
    assert_eq!(desktop.directory, "/var/log/sdl/rolling");
    assert_eq!(desktop.file_prefix, "desktop");
    assert_eq!(desktop.file_suffix, "log");
    assert_eq!(desktop.max_files, MAX_RETAINED_LOG_FILES);
    let daemon = init_daemon_logging("C:\\logs\\", '\\');
    assert_eq!(daemon.directory, "C:\\logs\\rolling");
    assert_eq!(daemon.file_prefix, "daemon");
    assert_eq!(LogContext::ServiceManager.as_str(), "service-manager");
}

#[test]
fn job_log_files_rotate_by_size() {
    assert_eq!(job_log_file_name("job-1"), "job-1.log");
    assert_eq!(rotated_job_log_file_name("job-1", 3), "job-1.3.log");
    let names = job_log_file_names_oldest_to_newest("job-1");
    assert_eq!(names.last().map(String::as_str), Some("job-1.log"));
    assert_eq!(names[names.len() - 2], "job-1.1.log");
    assert!(!needs_rotation(0, JOB_LOG_ROTATE_BYTES));
    assert!(needs_rotation(1, JOB_LOG_ROTATE_BYTES));
    assert!(needs_rotation(0, u64::MAX));
}

#[test]
fn tokens_are_hex_and_checked_as_bearer() {
    assert_eq!(token_hex(&[0x00, 0xab, 0x7f]), "00ab7f");
    let token = generate_token().expect("system random source");
    assert!(token.chars().all(|c| c.is_ascii_hexdigit()));
    assert_ne!(Some(token.clone()), generate_token());
    assert_eq!(authorize(&AuthorizationHeader::Value(format!("Bearer {token}")), &token), None);
    assert_eq!(
        authorize(&AuthorizationHeader::Value("Bearer nope".to_string()), &token),
        Some((401, "Invalid bearer token.".to_string()))
    );
    assert_eq!(
        authorize(&AuthorizationHeader::Missing, &token),
        Some((401, "Missing bearer token.".to_string()))
    );
}

#[test]
fn legacy_state_folders_are_tried_in_order() {
    let candidates = legacy_config_candidates(
        Some("/data".to_string()),
        Some("/docs".to_string()),
        Some("/work".to_string()),
        Some("/home/u".to_string()),
        true,
        '/',
    );
    assert_eq!(
        candidates,
        vec![
            "/data/com.streaming-data-loader.app".to_string(),
            "/data/com.streaming-data-loader".to_string(),
            "/docs/Streaming Data Loader".to_string(),
            "/docs/Streaming Data Loader Dev".to_string(),
            "/work/Streaming Data Loader Data".to_string(),
            "/home/u/Streaming Data Loader".to_string(),
            "/home/u/Streaming Data Loader Dev".to_string(),
        ]
    );
    assert!(legacy_config_candidates(None, None, None, None, false, '/').is_empty());

    let found = vec![
        ("/target".to_string(), true),
        ("/empty".to_string(), false),
        ("/old".to_string(), true),
        ("/older".to_string(), true),
    ];
    assert_eq!(migration_source(false, &found, "/target"), Some("/old".to_string()));
    assert_eq!(migration_source(true, &found, "/target"), None);
    assert_eq!(migration_source(false, &found[..2].to_vec(), "/target"), None);
}

#[test]
fn commands_refuse_missing_and_disabled_jobs() {
    assert_eq!(job_or_not_found::<u8>(None), Err("That job could not be found.".to_string()));
    assert_eq!(job_or_not_found(Some(3)), Ok(3));
    assert_eq!(manual_run_allowed(None), Err("That job could not be found.".to_string()));
    assert_eq!(
        manual_run_allowed(Some(&job(false))),
        Err("Enable this data source before requesting a manual run.".to_string())
    );
    assert_eq!(manual_run_allowed(Some(&job(true))), Ok(()));
    let (response, level, line) = toggle_outcome(false);
    assert_eq!(response.message, "Job disabled.");
    assert_eq!(level, LogLevel::Warning);
    assert_eq!(line, "Job disabled");
    assert_eq!(delete_outcome(false), Err("That job could not be found.".to_string()));
    assert_eq!(delete_outcome(true).map(|r| r.message), Ok("Job deleted.".to_string()));
    assert_eq!(run_requested().message, "Run requested.");
}

#[test]
fn connection_tests_decide_what_server_settings_are_stored() {
    let server = ServerConfig {
        auth_type: AuthType::Apikey,
        url: "https://example.com".to_string(),
        api_key: "key".to_string(),
        username: String::new(),
        password: String::new(),
        workspace_id: String::new(),
        workspace_name: "Configured".to_string(),
    };
    let mut connection = ConnectionTestResponse {
        ok: true,
        state: ConnectionState::Connected,
        message: "Connected to example.com.".to_string(),
        instance_name: Some("example.com".to_string()),
        workspace_id: Some("w-1".to_string()),
        workspace_name: None,
        workspace_count: 1,
        datastream_count: 0,
        permissions_ok: true,
    };
    let (stored, name) = server_to_store(server.clone(), &connection).expect("stored");
    assert_eq!(stored.workspace_id, "w-1");
    assert_eq!(stored.workspace_name, "Configured");
    assert_eq!(name, "");
    connection.ok = false;
    connection.message = "bad key".to_string();
    assert_eq!(server_to_store(server, &connection), Err("bad key".to_string()));
}

#[test]
fn log_rotation_moves_each_file_one_number_up() {
    let (oldest, moves) = streaming_data_loader::job_logs::rotation_plan("job-1");
    assert_eq!(oldest, "job-1.7.log");
    assert_eq!(moves.len(), 7);
    assert_eq!(moves[0], ("job-1.6.log".to_string(), "job-1.7.log".to_string()));
    assert_eq!(moves[5], ("job-1.1.log".to_string(), "job-1.2.log".to_string()));
    assert_eq!(moves[6], ("job-1.log".to_string(), "job-1.1.log".to_string()));
}
