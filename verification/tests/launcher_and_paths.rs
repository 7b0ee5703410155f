use streaming_data_loader::daemon_launcher::{connect_strategy, ConnectStrategy};
use streaming_data_loader::runtime::{autostart_app_name, has_launch_flag, AUTOSTART_ARG};
use streaming_data_loader::service_paths::{
    active_app_directory_name, active_shared_service_directory_name,
    service_config_dir_override_from_args, DEV_APP_DIRECTORY_NAME, APP_DIRECTORY_NAME,
    SERVICE_CONFIG_DIR_FLAG,
};

// Platforms with an ad-hoc daemon mode (macOS, Linux): windows_requires_service
// is false.
const AD_HOC: bool = false;
// Windows: the managed service is mandatory.
const WINDOWS: bool = true;

#[test]
fn installed_and_running_service_is_awaited_not_raced() {
    assert_eq!(connect_strategy(true, true, true, AD_HOC), ConnectStrategy::AwaitService);
    assert_eq!(connect_strategy(true, true, true, WINDOWS), ConnectStrategy::AwaitService);
}

#[test]
fn installed_but_stopped_service_is_never_raced() {
    assert_eq!(connect_strategy(true, true, false, AD_HOC), ConnectStrategy::ServiceStopped);
    assert_eq!(connect_strategy(true, true, false, WINDOWS), ConnectStrategy::ServiceStopped);
}

#[test]
fn no_installed_service_runs_ad_hoc_on_macos_and_linux() {
    assert_eq!(connect_strategy(true, false, false, AD_HOC), ConnectStrategy::SpawnAdHoc);
}

#[test]
fn no_installed_service_is_a_hard_stop_on_windows() {
    assert_eq!(connect_strategy(true, false, false, WINDOWS), ConnectStrategy::ServiceRequired);
}

#[test]
fn unsupported_platform_always_runs_ad_hoc() {
    assert_eq!(connect_strategy(false, false, false, AD_HOC), ConnectStrategy::SpawnAdHoc);
    assert_eq!(connect_strategy(false, false, false, WINDOWS), ConnectStrategy::SpawnAdHoc);
}

#[test]
fn has_launch_flag_detects_autostart_argument() {
    assert!(has_launch_flag(
        &vec!["streaming-data-loader".to_string(), AUTOSTART_ARG.to_string()],
        AUTOSTART_ARG
    ));
    assert!(!has_launch_flag(&vec!["streaming-data-loader".to_string()], AUTOSTART_ARG));
}

// The build mode is an argument of the library, so both modes are checked.
#[test]
fn autostart_app_name_matches_build_mode() {
    assert_eq!(autostart_app_name(true), "Streaming Data Loader Dev");
    assert_eq!(autostart_app_name(false), "Streaming Data Loader");
}

#[test]
fn active_app_directory_name_matches_build_mode() {
    assert_eq!(active_app_directory_name(true), DEV_APP_DIRECTORY_NAME);
    assert_eq!(active_app_directory_name(false), APP_DIRECTORY_NAME);
}

#[test]
fn active_shared_service_directory_name_uses_windows_safe_folder_name() {
    assert_eq!(active_shared_service_directory_name(true), "StreamingDataLoaderDev");
    assert_eq!(active_shared_service_directory_name(false), "StreamingDataLoader");
}

#[test]
fn service_config_dir_override_reads_following_argument() {
    let override_path = service_config_dir_override_from_args(&vec![
        "streaming-data-loader.exe".to_string(),
        "--service".to_string(),
        SERVICE_CONFIG_DIR_FLAG.to_string(),
        r"C:\Projects\streaming-data-loader\.sdl-dev-data".to_string(),
    ]);
    assert_eq!(
        override_path,
        Some(r"C:\Projects\streaming-data-loader\.sdl-dev-data".to_string())
    );
}

#[test]
fn service_config_dir_override_ignores_missing_value() {
    let override_path = service_config_dir_override_from_args(&vec![
        "streaming-data-loader.exe".to_string(),
        SERVICE_CONFIG_DIR_FLAG.to_string(),
    ]);
    assert_eq!(override_path, None);
}

#[test]
fn service_config_dir_override_reads_inline_argument_with_spaces() {
    let override_path = service_config_dir_override_from_args(&vec![
        "streaming-data-loader.exe".to_string(),
        "--service".to_string(),
        r#"--service-config-dir="C:\ProgramData\Streaming Data Loader""#.to_string(),
    ]);
    assert_eq!(override_path, Some(r"C:\ProgramData\Streaming Data Loader".to_string()));
}

#[test]
fn service_config_dir_override_reads_inline_argument_without_quotes() {
    let override_path = service_config_dir_override_from_args(&vec![
        "streaming-data-loader.exe".to_string(),
        "--service".to_string(),
        r"--service-config-dir=C:\ProgramData\Streaming".to_string(),
    ]);
    assert_eq!(override_path, Some(r"C:\ProgramData\Streaming".to_string()));
}
