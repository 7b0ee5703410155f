//! The Windows background service: its status from the service manager's
//! answers, the text of its errors, and the arguments of an elevated
//! management run.
use vstd::prelude::*;

use crate::job_logs::append_str;
use crate::models::{owned, trim_end_char_chars, trim_start_char_chars};
use crate::service::{msg_installed_running, msg_installed_stopped, ServiceStatusResponse};
use crate::service::linux::arg_at;
use crate::text::{chars_of, str_eq, string_from, trim_end_char, trim_start_char};

verus! {

pub const WINDOWS_SERVICE_NAME: &'static str = "StreamingDataLoader";

pub const WINDOWS_SERVICE_DISPLAY_NAME: &'static str = "Streaming Data Loader";

pub const WINDOWS_SERVICE_DESCRIPTION: &'static str = "Background CSV watcher and uploader for Streaming Data Loader.";

pub const WINDOWS_SERVICE_ACTION_FLAG: &'static str = "--windows-service-action";

pub const WINDOWS_SERVICE_RESULT_FLAG: &'static str = "--windows-service-result-file";

pub const ERROR_SERVICE_DOES_NOT_EXIST: i32 = 1060;

pub const ERROR_SERVICE_ALREADY_RUNNING: i32 = 1056;

pub const ERROR_SERVICE_NOT_ACTIVE: i32 = 1062;

pub const ERROR_SERVICE_EXISTS: i32 = 1073;

pub const ERROR_SERVICE_MARKED_FOR_DELETE: i32 = 1072;

/// The states the Windows service manager reports.
#[derive(Clone, Copy, Debug, PartialEq, Eq, Structural)]
pub enum WindowsServiceState {
    Stopped,
    StartPending,
    StopPending,
    Running,
    ContinuePending,
    PausePending,
    Paused,
}

/// Running, starting or resuming.
pub fn windows_service_is_active(state: WindowsServiceState) -> (res: bool)
    ensures
        res == (state == WindowsServiceState::Running || state == WindowsServiceState::StartPending || state
            == WindowsServiceState::ContinuePending),
{
    match state {
        WindowsServiceState::Running | WindowsServiceState::StartPending | WindowsServiceState::ContinuePending => true,
        _ => false,
    }
}

/// The service does not exist, or is being deleted: either way it counts as
/// not installed. `os_error` is the operating-system code of a service
/// manager error, if it has one.
pub fn windows_service_unavailable(os_error: Option<i32>) -> (res: bool)
    ensures
        res == (os_error == Some(ERROR_SERVICE_DOES_NOT_EXIST) || os_error == Some(ERROR_SERVICE_MARKED_FOR_DELETE)),
{
    match os_error {
        Some(code) => code == ERROR_SERVICE_DOES_NOT_EXIST || code == ERROR_SERVICE_MARKED_FOR_DELETE,
        None => false,
    }
}

/// What a service manager error says to the user: the known codes in words,
/// anything else as the error's own text (`fallback`).
pub open spec fn windows_error_text(os_error: Option<i32>, fallback: Seq<char>) -> Seq<char> {
    match os_error {
        Some(1060) => "The background service is not installed."@,
        Some(1072) => "The background service is being removed."@,
        Some(1056) => "The background service is already running."@,
        Some(1062) => "The background service is not running."@,
        Some(1073) => "The background service is already installed."@,
        Some(5) => "Administrator privileges are required to manage the background service."@,
        _ => fallback,
    }
}

pub fn format_windows_service_error(os_error: Option<i32>, fallback: &str) -> (res: String)
    ensures
        res@ == windows_error_text(os_error, fallback@),
{
    match os_error {
        Some(1060) => owned("The background service is not installed."),
        Some(1072) => owned("The background service is being removed."),
        Some(1056) => owned("The background service is already running."),
        Some(1062) => owned("The background service is not running."),
        Some(1073) => owned("The background service is already installed."),
        Some(5) => owned("Administrator privileges are required to manage the background service."),
        _ => owned(fallback),
    }
}

/// The status when the service is not there.
pub fn not_installed_status() -> (res: ServiceStatusResponse)
    ensures
        res.supported && !res.installed && !res.running,
        res.label@ == "Streaming Data Loader"@,
        res.plist_path@.len() == 0 && res.executable_path@.len() == 0 && res.status_message@.len() == 0,
{
    proof {
        reveal_strlit("Streaming Data Loader");
    }
    ServiceStatusResponse {
        supported: true,
        installed: false,
        running: false,
        label: owned(WINDOWS_SERVICE_DISPLAY_NAME),
        plist_path: String::new(),
        executable_path: String::new(),
        status_message: String::new(),
    }
}

/// The status of the installed service from its state and the executable its
/// configuration names.
pub fn installed_status(state: WindowsServiceState, executable_path: &str) -> (res: ServiceStatusResponse)
    ensures
        res.supported && res.installed,
        res.running == (state == WindowsServiceState::Running || state == WindowsServiceState::StartPending || state
            == WindowsServiceState::ContinuePending),
        res.label@ == "Streaming Data Loader"@,
        res.plist_path@.len() == 0,
        res.executable_path@ == executable_path@,
        res.status_message@ == if res.running {
            msg_installed_running()
        } else {
            msg_installed_stopped()
        },
{
    proof {
        reveal_strlit("Streaming Data Loader");
    }
    let running = windows_service_is_active(state);
    ServiceStatusResponse {
        supported: true,
        installed: true,
        running,
        label: owned(WINDOWS_SERVICE_DISPLAY_NAME),
        plist_path: String::new(),
        executable_path: owned(executable_path),
        status_message: crate::service::service_status_message(true, running),
    }
}

// ---------------------------------------------------------------------------
// Management arguments
// ---------------------------------------------------------------------------
/// The value of an inline `<flag>="<path>"` argument, without surrounding
/// double quotes; `None` for other arguments or an empty path.
pub open spec fn inline_flag_value(arg: Seq<char>, flag: Seq<char>) -> Option<Seq<char>> {
    let prefix = flag + "="@;
    if arg.len() >= prefix.len() && arg.subrange(0, prefix.len() as int) == prefix {
        let path = trim_end_char(trim_start_char(arg.subrange(prefix.len() as int, arg.len() as int), '"'), '"');
        if path.len() == 0 {
            None
        } else {
            Some(path)
        }
    } else {
        None
    }
}

pub fn inline_windows_path_flag_value(arg: &str, flag: &str) -> (res: Option<String>)
    ensures
        match (res, inline_flag_value(arg@, flag@)) {
            (Some(p), Some(v)) => p@ == v,
            (None, None) => true,
            _ => false,
        },
{
    let mut prefix_text = String::new();
    append_str(&mut prefix_text, flag);
    append_str(&mut prefix_text, "=");
    let chars = chars_of(arg);
    let prefix = chars_of(prefix_text.as_str());
    let n = prefix.len();
    if chars.len() < n {
        return None;
    }
    let mut i: usize = 0;
    while i < n
        invariant
            i <= n == prefix@.len(),
            n <= chars@.len(),
            chars@ == arg@,
            prefix@ == flag@ + "="@,
            forall|k: int| 0 <= k < i ==> chars@[k] == prefix@[k],
        decreases n - i,
    {
        if chars[i] != prefix[i] {
            assert(chars@.subrange(0, n as int)[i as int] != prefix@[i as int]);
            return None;
        }
        i = i + 1;
    }
    assert(chars@.subrange(0, n as int) =~= prefix@);
    let mut rest: Vec<char> = Vec::new();
    let mut j = n;
    while j < chars.len()
        invariant
            n <= j <= chars@.len(),
            rest@ == chars@.subrange(n as int, j as int),
        decreases chars@.len() - j,
    {
        rest.push(chars[j]);
        assert(chars@.subrange(n as int, j + 1) =~= chars@.subrange(n as int, j as int).push(chars@[j as int]));
        j = j + 1;
    }
    let a = trim_start_char_chars(rest.as_slice(), '"');
    let b = trim_end_char_chars(a.as_slice(), '"');
    if b.len() == 0 {
        return None;
    }
    Some(string_from(b.as_slice()))
}

/// The inline argument `<flag>="<path>"`.
pub fn windows_inline_path_flag_argument(flag: &str, path: &str) -> (res: String)
    ensures
        res@ == flag@ + "=\""@ + path@ + "\""@,
{
    let mut out = String::new();
    append_str(&mut out, flag);
    append_str(&mut out, "=\"");
    append_str(&mut out, path);
    append_str(&mut out, "\"");
    out
}

/// The argument that hands the service its configuration folder.
pub fn windows_service_config_dir_launch_argument(config_dir: &str) -> (res: String)
    ensures
        res@ == "--service-config-dir=\""@ + config_dir@ + "\""@,
{
    proof {
        reveal_strlit("--service-config-dir");
        reveal_strlit("=\"");
        reveal_strlit("--service-config-dir=\"");
        assert("--service-config-dir"@ + "=\""@ =~= "--service-config-dir=\""@);
    }
    windows_inline_path_flag_argument(crate::service_paths::SERVICE_CONFIG_DIR_FLAG, config_dir)
}

/// The arguments of an elevated Windows management run.
#[derive(Debug, PartialEq, Eq)]
pub struct WindowsServiceRequest {
    pub action: Option<String>,
    pub result_file: Option<String>,
    pub config_dir: Option<String>,
}

pub struct WindowsServiceRequestView {
    pub action: Option<Seq<char>>,
    pub result_file: Option<Seq<char>>,
    pub config_dir: Option<Seq<char>>,
}

impl View for WindowsServiceRequest {
    type V = WindowsServiceRequestView;

    open spec fn view(&self) -> WindowsServiceRequestView {
        WindowsServiceRequestView {
            action: crate::models::opt_view(self.action),
            result_file: crate::models::opt_view(self.result_file),
            config_dir: crate::models::opt_view(self.config_dir),
        }
    }
}

/// The request read from arguments `i ..`: the action flag and the bare
/// result and configuration flags take the next argument (none when they are
/// last); the result and configuration flags may also carry their path
/// inline; later flags override earlier ones; other arguments are skipped.
pub open spec fn parse_windows_request(args: Seq<Seq<char>>, i: int, r: WindowsServiceRequestView) -> WindowsServiceRequestView
    decreases args.len() + 1 - i,
{
    if i < 0 || i >= args.len() {
        r
    } else {
        let a = args[i];
        let v = arg_at(args, i + 1);
        if a == "--windows-service-action"@ {
            parse_windows_request(args, i + 2, WindowsServiceRequestView { action: v, ..r })
        } else if inline_flag_value(a, "--windows-service-result-file"@) is Some {
            parse_windows_request(
                args,
                i + 1,
                WindowsServiceRequestView { result_file: inline_flag_value(a, "--windows-service-result-file"@), ..r },
            )
        } else if a == "--windows-service-result-file"@ {
            parse_windows_request(args, i + 2, WindowsServiceRequestView { result_file: v, ..r })
        } else if inline_flag_value(a, "--service-config-dir"@) is Some {
            parse_windows_request(
                args,
                i + 1,
                WindowsServiceRequestView { config_dir: inline_flag_value(a, "--service-config-dir"@), ..r },
            )
        } else if a == "--service-config-dir"@ {
            parse_windows_request(args, i + 2, WindowsServiceRequestView { config_dir: v, ..r })
        } else {
            parse_windows_request(args, i + 1, r)
        }
    }
}

pub open spec fn empty_windows_request() -> WindowsServiceRequestView {
    WindowsServiceRequestView { action: None, result_file: None, config_dir: None }
}

fn next_arg(args: &Vec<String>, i: usize) -> (res: Option<String>)
    ensures
        crate::models::opt_view(res) == arg_at(args@.map_values(|a: String| a@), i as int),
{
    if i < args.len() {
        Some(args[i].clone())
    } else {
        None
    }
}

/// Reads the request of an elevated management run from the process
/// arguments (the program name first); `None` unless an action is given.
pub fn maybe_handle_service_management_cli(args: &Vec<String>) -> (res: Option<WindowsServiceRequest>)
    ensures
        ({
            let r = parse_windows_request(args@.map_values(|a: String| a@), 1, empty_windows_request());
            match res {
                Some(req) => r.action is Some && req@ == r,
                None => r.action is None,
            }
        }),
{
    let ghost av = args@.map_values(|a: String| a@);
    let mut req = WindowsServiceRequest { action: None, result_file: None, config_dir: None };
    proof {
        reveal_strlit("--windows-service-action");
        reveal_strlit("--windows-service-result-file");
        reveal_strlit("--service-config-dir");
    }
    let mut i: usize = 1;
    while i < args.len()
        invariant
            1 <= i,
            av == args@.map_values(|a: String| a@),
            parse_windows_request(av, 1, empty_windows_request()) == parse_windows_request(av, i as int, req@),
        decreases args@.len() - i,
    {
        assert(av[i as int] == args@[i as int]@);
        let ghost i_old = i as int;
        let a = args[i].as_str();
        if str_eq(a, WINDOWS_SERVICE_ACTION_FLAG) {
            req.action = next_arg(args, i + 1);
            i = if i + 1 < args.len() { i + 2 } else { args.len() };
        } else if let Some(v) = inline_windows_path_flag_value(a, WINDOWS_SERVICE_RESULT_FLAG) {
            req.result_file = Some(v);
            i = i + 1;
        } else if str_eq(a, WINDOWS_SERVICE_RESULT_FLAG) {
            req.result_file = next_arg(args, i + 1);
            i = if i + 1 < args.len() { i + 2 } else { args.len() };
        } else if let Some(v) = inline_windows_path_flag_value(a, crate::service_paths::SERVICE_CONFIG_DIR_FLAG) {
            req.config_dir = Some(v);
            i = i + 1;
        } else if str_eq(a, crate::service_paths::SERVICE_CONFIG_DIR_FLAG) {
            req.config_dir = next_arg(args, i + 1);
            i = if i + 1 < args.len() { i + 2 } else { args.len() };
        } else {
            i = i + 1;
        }
        proof {
            if i_old + 2 > args@.len() {
                assert(parse_windows_request(av, i_old + 2, req@) == req@);
                assert(parse_windows_request(av, args@.len() as int, req@) == req@);
            }
        }
    }
    if req.action.is_none() {
        return None;
    }
    Some(req)
}

/// What an elevated Windows run does.
#[derive(Clone, Copy, Debug, PartialEq, Eq, Structural)]
pub enum WindowsAction {
    Install,
    Restart,
    Uninstall,
}

pub fn parse_action(action: &str) -> (res: Result<WindowsAction, String>)
    ensures
        action@ == "install"@ ==> res == Ok::<WindowsAction, String>(WindowsAction::Install),
        action@ == "restart"@ ==> res == Ok::<WindowsAction, String>(WindowsAction::Restart),
        action@ == "uninstall"@ ==> res == Ok::<WindowsAction, String>(WindowsAction::Uninstall),
        action@ != "install"@ && action@ != "restart"@ && action@ != "uninstall"@ ==> (res matches Err(
            e,
        ) && e@ == "Unknown Windows service action."@),
{
    proof {
        reveal_strlit("install");
        reveal_strlit("restart");
        reveal_strlit("uninstall");
        assert("restart"@[0] != "install"@[0]);
        assert("uninstall"@[0] != "install"@[0]);
        assert("uninstall"@[0] != "restart"@[0]);
    }
    if str_eq(action, "install") {
        Ok(WindowsAction::Install)
    } else if str_eq(action, "restart") {
        Ok(WindowsAction::Restart)
    } else if str_eq(action, "uninstall") {
        Ok(WindowsAction::Uninstall)
    } else {
        Err(owned("Unknown Windows service action."))
    }
}

// ---------------------------------------------------------------------------
// Running under the service manager
// ---------------------------------------------------------------------------
/// The control requests the service manager sends a running service.
#[derive(Clone, Copy, Debug, PartialEq, Eq, Structural)]
pub enum WindowsServiceControl {
    Stop,
    Shutdown,
    Interrogate,
    /// Any other request (pause, continue, parameter change and so on).
    Other,
}

/// The service's answer to a control request.
#[derive(Clone, Copy, Debug, PartialEq, Eq, Structural)]
pub enum ControlReply {
    NoError,
    NotImplemented,
}

/// How the service answers a control request, and whether the request asks
/// the daemon to stop: a stop or shutdown is accepted and stops it, an
/// interrogation is accepted, anything else is not implemented.
pub fn handle_service_control(control: WindowsServiceControl) -> (res: (ControlReply, bool))
    ensures
        res == match control {
            WindowsServiceControl::Stop | WindowsServiceControl::Shutdown => (ControlReply::NoError, true),
            WindowsServiceControl::Interrogate => (ControlReply::NoError, false),
            WindowsServiceControl::Other => (ControlReply::NotImplemented, false),
        },
{
    match control {
        WindowsServiceControl::Stop | WindowsServiceControl::Shutdown => (ControlReply::NoError, true),
        WindowsServiceControl::Interrogate => (ControlReply::NoError, false),
        WindowsServiceControl::Other => (ControlReply::NotImplemented, false),
    }
}

/// The exit code the service reports when it stops: none after a clean run,
/// else the service-specific code 1.
pub fn stopped_exit_code(succeeded: bool) -> (res: Option<u32>)
    ensures
        res == (if succeeded {
            None
        } else {
            Some(1u32)
        }),
{
    if succeeded {
        None
    } else {
        Some(1)
    }
}

} // verus!
