use streaming_data_loader::service::windows::{handle_service_control, stopped_exit_code, ControlReply, WindowsServiceControl};
use streaming_data_loader::service::linux::{self, LinuxAction};
use streaming_data_loader::service::windows::{self, WindowsAction, WindowsServiceState};
use streaming_data_loader::service::{
    applescript_escape, macos, powershell_quote, service_status_message, shell_quote, systemd_escape,
    unsupported, xml_escape,
};

fn args(items: &[&str]) -> Vec<String> {
    items.iter().map(|a| a.to_string()).collect()
}

#[test]
fn escapes_follow_each_target_syntax() {
    assert_eq!(shell_quote("it's"), "'it'\"'\"'s'");
    assert_eq!(systemd_escape("C:\\a \"b\""), "C:\\\\a\\x20\\\"b\\\"");
    assert_eq!(applescript_escape("say \"hi\"\\"), "say \\\"hi\\\"\\\\");
    assert_eq!(xml_escape("a<b>&c"), "a&lt;b&gt;&amp;c");
    assert_eq!(powershell_quote("O'Brien"), "O''Brien");
}

#[test]
fn status_messages_depend_on_install_and_run_state() {
    assert_eq!(service_status_message(false, true), "");
    assert!(service_status_message(true, true).contains("installed and running"));
    assert!(service_status_message(true, false).contains("not currently running"));
}

#[test]
fn linux_status_reads_systemctl_properties() {
    let output = "LoadState=loaded\nActiveState=active\nUnitFileState=enabled\nFragmentPath=/etc/systemd/system/x.service\n";
    let status = linux::get_service_status(true, output, false);
    assert!(status.supported && status.installed && status.running);
    assert_eq!(status.plist_path, "/etc/systemd/system/x.service");

    let missing = linux::get_service_status(true, "LoadState=not-found\nActiveState=inactive\n", false);
    assert!(missing.supported && !missing.installed && !missing.running);
    assert_eq!(missing.status_message, "");

    let unsupported = linux::get_service_status(false, "", true);
    assert!(!unsupported.supported && !unsupported.installed);
}

#[test]
fn systemctl_properties_split_on_the_first_equals_sign() {
    let props = linux::parse_systemctl_properties("A=1\nnoise\nB=x=y\n");
    assert_eq!(props, vec![("A".to_string(), "1".to_string()), ("B".to_string(), "x=y".to_string())]);
}

#[test]
fn linux_management_requests_are_parsed_from_arguments() {
    assert!(linux::maybe_handle_service_management_cli(&args(&["sdl", "--other"])).is_none());
    let request = linux::maybe_handle_service_management_cli(&args(&[
        "sdl",
        "--linux-service-action",
        "install",
        "--linux-service-user",
        "alice",
        "--linux-service-home",
        "/home/alice",
        "--linux-service-config-dir",
        "/var/lib/sdl",
        "--linux-service-exec-path",
        "/usr/bin/sdl",
    ]))
    .expect("request");
    assert_eq!(request.action.as_deref(), Some("install"));
    assert_eq!(linux::parse_action("install"), Ok(LinuxAction::Install));
    assert_eq!(linux::parse_action("remove"), Err("Unknown Linux service action.".to_string()));
    let unit = linux::install_unit_contents(&request).expect("unit");
    assert!(unit.contains("User=alice"));
    assert!(unit.contains("/usr/bin/sdl"));
    assert_eq!(linux::management_exit_code(true), 0);
    assert_eq!(linux::management_exit_code(false), 1);
}

#[test]
fn linux_install_needs_every_value() {
    let request = linux::maybe_handle_service_management_cli(&args(&["sdl", "--linux-service-action", "install"]))
        .expect("request");
    assert_eq!(linux::install_unit_contents(&request), Err("Missing Linux service user.".to_string()));
}

#[test]
fn macos_status_reads_launchctl_output() {
    let status = macos::get_service_status(true, Some("state = running"), false, "/Applications/SDL");
    assert!(status.installed && status.running);
    assert_eq!(status.label, "com.hydroserver.sdl");
    let stopped = macos::get_service_status(true, Some("state = waiting"), false, "/Applications/SDL");
    assert!(stopped.installed && !stopped.running);
    let absent = macos::get_service_status(false, None, true, "/Applications/SDL");
    assert!(!absent.installed && !absent.running);
    assert!(macos::render_macos_plist("/Apps/S&L", "/Shared").contains("/Apps/S&amp;L"));
}

#[test]
fn unsupported_platforms_report_no_service() {
    let status = unsupported::get_service_status();
    assert!(!status.supported && !status.installed && !status.running);
    assert!(unsupported::maybe_handle_service_management_cli().is_none());
}

#[test]
fn windows_service_status_and_errors() {
    assert!(windows::windows_service_is_active(WindowsServiceState::StartPending));
    assert!(!windows::windows_service_is_active(WindowsServiceState::Paused));
    assert!(windows::windows_service_unavailable(Some(1060)));
    assert!(windows::windows_service_unavailable(Some(1072)));
    assert!(!windows::windows_service_unavailable(Some(5)));
    assert!(!windows::windows_service_unavailable(None));
    assert_eq!(windows::format_windows_service_error(Some(1060), "x"), "The background service is not installed.");
    assert_eq!(
        windows::format_windows_service_error(Some(5), "x"),
        "Administrator privileges are required to manage the background service."
    );
    assert_eq!(windows::format_windows_service_error(Some(2), "File not found."), "File not found.");
    let status = windows::installed_status(WindowsServiceState::Running, "C:\\sdl.exe");
    assert!(status.installed && status.running);
    assert_eq!(status.executable_path, "C:\\sdl.exe");
    let stopped = windows::installed_status(WindowsServiceState::Stopped, "C:\\sdl.exe");
    assert!(!stopped.running);
    assert!(stopped.status_message.contains("not currently running"));
    let absent = windows::not_installed_status();
    assert!(absent.supported && !absent.installed);
}

#[test]
fn windows_management_arguments() {
    assert_eq!(
        windows::inline_windows_path_flag_value("--service-config-dir=\"C:\\Data\"", "--service-config-dir"),
        Some("C:\\Data".to_string())
    );
    assert_eq!(windows::inline_windows_path_flag_value("--service-config-dir=\"\"", "--service-config-dir"), None);
    assert_eq!(
        windows::windows_service_config_dir_launch_argument("C:\\Data"),
        "--service-config-dir=\"C:\\Data\""
    );
    let request = windows::maybe_handle_service_management_cli(&args(&[
        "sdl.exe",
        "--windows-service-action",
        "restart",
        "--windows-service-result-file=\"C:\\tmp\\r.txt\"",
        "--service-config-dir",
        "C:\\Data",
    ]))
    .expect("request");
    assert_eq!(request.action.as_deref(), Some("restart"));
    assert_eq!(request.result_file.as_deref(), Some("C:\\tmp\\r.txt"));
    assert_eq!(request.config_dir.as_deref(), Some("C:\\Data"));
    assert!(windows::maybe_handle_service_management_cli(&args(&["sdl.exe"])).is_none());
    assert_eq!(windows::parse_action("restart"), Ok(WindowsAction::Restart));
    assert_eq!(windows::parse_action("stop"), Err("Unknown Windows service action.".to_string()));
}

#[test]
fn windows_control_requests_stop_only_on_stop_or_shutdown() {
    assert_eq!(handle_service_control(WindowsServiceControl::Stop), (ControlReply::NoError, true));
    assert_eq!(handle_service_control(WindowsServiceControl::Shutdown), (ControlReply::NoError, true));
    assert_eq!(handle_service_control(WindowsServiceControl::Interrogate), (ControlReply::NoError, false));
    assert_eq!(handle_service_control(WindowsServiceControl::Other), (ControlReply::NotImplemented, false));
    assert_eq!(stopped_exit_code(true), None);
    assert_eq!(stopped_exit_code(false), Some(1));
}
