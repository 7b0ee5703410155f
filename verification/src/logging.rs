//! Which log a process writes: the desktop app, the daemon, or an elevated
//! service-management run.
use vstd::prelude::*;

use crate::text::str_eq;

verus! {

/// How many daily log files of a context are kept.
pub const MAX_RETAINED_LOG_FILES: usize = 14;

#[derive(Clone, Copy, Debug, PartialEq, Eq, Structural)]
pub enum LogContext {
    Desktop,
    Daemon,
    ServiceManager,
}

pub open spec fn context_name(c: LogContext) -> Seq<char> {
    match c {
        LogContext::Desktop => "desktop"@,
        LogContext::Daemon => "daemon"@,
        LogContext::ServiceManager => "service-manager"@,
    }
}

impl LogContext {
    pub fn as_str(self) -> (res: &'static str)
        ensures
            res@ == context_name(self),
    {
        proof {
            reveal_strlit("desktop");
            reveal_strlit("daemon");
            reveal_strlit("service-manager");
        }
        match self {
            LogContext::Desktop => "desktop",
            LogContext::Daemon => "daemon",
            LogContext::ServiceManager => "service-manager",
        }
    }

    /// The stem of this context's daily log files.
    pub fn file_prefix(self) -> (res: &'static str)
        ensures
            res@ == context_name(self),
    {
        self.as_str()
    }
}

pub open spec fn is_management_arg(a: Seq<char>) -> bool {
    a == "--windows-service-action"@ || a == "--linux-service-action"@ || a
        == "--windows-service-result-file"@ || a == "--linux-service-result-file"@
}

/// The log of a process started with `args`: the daemon's when it runs as
/// the service, the service manager's for an elevated management run, else
/// the desktop app's.
pub fn log_context_from_args(args: &Vec<String>) -> (res: LogContext)
    ensures
        (exists|k: int| 0 <= k < args@.len() && (#[trigger] args@[k])@ == "--service"@) ==> res
            == LogContext::Daemon,
        !(exists|k: int| 0 <= k < args@.len() && (#[trigger] args@[k])@ == "--service"@) && (exists|k: int|
            0 <= k < args@.len() && is_management_arg((#[trigger] args@[k])@)) ==> res
            == LogContext::ServiceManager,
        !(exists|k: int| 0 <= k < args@.len() && (#[trigger] args@[k])@ == "--service"@) && !(exists|k: int|
            0 <= k < args@.len() && is_management_arg((#[trigger] args@[k])@)) ==> res
            == LogContext::Desktop,
{
    proof {
        reveal_strlit("--service");
    }
    for i in 0..args.len()
        invariant
            forall|k: int| 0 <= k < i ==> (#[trigger] args@[k])@ != "--service"@,
    {
        if str_eq(args[i].as_str(), "--service") {
            return LogContext::Daemon;
        }
    }
    for i in 0..args.len()
        invariant
            forall|k: int| 0 <= k < args@.len() ==> (#[trigger] args@[k])@ != "--service"@,
            forall|k: int| 0 <= k < i ==> !is_management_arg((#[trigger] args@[k])@),
    {
        let a = args[i].as_str();
        if str_eq(a, "--windows-service-action") || str_eq(a, "--linux-service-action") || str_eq(
            a,
            "--windows-service-result-file",
        ) || str_eq(a, "--linux-service-result-file") {
            proof {
                reveal_strlit("--windows-service-action");
                reveal_strlit("--linux-service-action");
                reveal_strlit("--windows-service-result-file");
                reveal_strlit("--linux-service-result-file");
            }
            return LogContext::ServiceManager;
        }
        proof {
            reveal_strlit("--windows-service-action");
            reveal_strlit("--linux-service-action");
            reveal_strlit("--windows-service-result-file");
            reveal_strlit("--linux-service-result-file");
        }
    }
    LogContext::Desktop
}

/// Where and how a process writes its log: daily files named after its
/// context in the `rolling` folder of the shared logs folder, the most recent
/// `MAX_RETAINED_LOG_FILES` kept.
pub struct LogPlan {
    pub context: LogContext,
    pub directory: String,
    pub file_prefix: String,
    pub file_suffix: String,
    pub max_files: usize,
}

pub fn log_plan(context: LogContext, logs_dir: &str, separator: char) -> (res: LogPlan)
    ensures
        res.context == context,
        res.directory@ == crate::service_paths::joined(logs_dir@, "rolling"@, separator),
        res.file_prefix@ == context_name(context),
        res.file_suffix@ == "log"@,
        res.max_files == MAX_RETAINED_LOG_FILES,
{
    proof {
        reveal_strlit("rolling");
    }
    LogPlan {
        context,
        directory: crate::service_paths::join_path(logs_dir, "rolling", separator),
        file_prefix: crate::models::owned(context.file_prefix()),
        file_suffix: crate::models::owned("log"),
        max_files: MAX_RETAINED_LOG_FILES,
    }
}

/// The log plan of the desktop app.
pub fn init_desktop_logging(logs_dir: &str, separator: char) -> (res: LogPlan)
    ensures
        res.context == LogContext::Desktop,
        res.directory@ == crate::service_paths::joined(logs_dir@, "rolling"@, separator),
        res.file_prefix@ == "desktop"@,
        res.file_suffix@ == "log"@,
        res.max_files == MAX_RETAINED_LOG_FILES,
{
    log_plan(LogContext::Desktop, logs_dir, separator)
}

/// The log plan of the daemon.
pub fn init_daemon_logging(logs_dir: &str, separator: char) -> (res: LogPlan)
    ensures
        res.context == LogContext::Daemon,
        res.directory@ == crate::service_paths::joined(logs_dir@, "rolling"@, separator),
        res.file_prefix@ == "daemon"@,
        res.file_suffix@ == "log"@,
        res.max_files == MAX_RETAINED_LOG_FILES,
{
    log_plan(LogContext::Daemon, logs_dir, separator)
}

} // verus!
