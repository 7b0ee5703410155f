//! The LaunchDaemon on macOS: its property list, the scripts that install,
//! restart and remove it, and the status it gives.
use vstd::prelude::*;

use crate::job_logs::append_str;
use crate::models::owned;
use crate::service::{
    escaped, push_escaped, service_status_message, shell_quote, status_message, EscapeKind,
    ServiceStatusResponse,
};
use crate::text::{chars_of, trim_chars, string_from};

verus! {

pub const SERVICE_LABEL: &'static str = "com.hydroserver.sdl";

pub const SERVICE_PLIST_PATH: &'static str = "/Library/LaunchDaemons/com.hydroserver.sdl.plist";

/// The property list that runs `program --service` at boot from
/// `shared_dir`, its output kept in `shared_dir/logs`.
pub open spec fn plist(program: Seq<char>, shared_dir: Seq<char>) -> Seq<char> {
    "<?xml version=\"1.0\" encoding=\"UTF-8\"?>\n<!DOCTYPE plist PUBLIC \"-//Apple//DTD PLIST 1.0//EN\" \"http://www.apple.com/DTDs/PropertyList-1.0.dtd\">\n<plist version=\"1.0\">\n<dict>\n  <key>Label</key>\n  <string>com.hydroserver.sdl</string>\n\n  <key>ProgramArguments</key>\n  <array>\n    <string>"@
        + escaped(EscapeKind::Xml, program)
        + "</string>\n    <string>--service</string>\n  </array>\n\n  <key>RunAtLoad</key>\n  <true/>\n\n  <key>KeepAlive</key>\n  <true/>\n\n  <key>ThrottleInterval</key>\n  <integer>10</integer>\n\n  <key>WorkingDirectory</key>\n  <string>"@
        + escaped(EscapeKind::Xml, shared_dir) + "</string>\n\n  <key>StandardOutPath</key>\n  <string>"@
        + escaped(EscapeKind::Xml, crate::service_paths::joined(crate::service_paths::joined(shared_dir, "logs"@, '/'), "daemon.stdout.log"@, '/'))
        + "</string>\n\n  <key>StandardErrorPath</key>\n  <string>"@
        + escaped(EscapeKind::Xml, crate::service_paths::joined(crate::service_paths::joined(shared_dir, "logs"@, '/'), "daemon.stderr.log"@, '/'))
        + "</string>\n</dict>\n</plist>\n"@
}

pub fn render_macos_plist(executable_path: &str, shared_dir: &str) -> (res: String)
    ensures
        res@ == plist(executable_path@, shared_dir@),
{
    proof {
        reveal_strlit("logs");
        reveal_strlit("daemon.stdout.log");
        reveal_strlit("daemon.stderr.log");
    }
    let logs_dir = crate::service_paths::join_path(shared_dir, "logs", '/');
    let stdout_path = crate::service_paths::join_path(logs_dir.as_str(), "daemon.stdout.log", '/');
    let stderr_path = crate::service_paths::join_path(logs_dir.as_str(), "daemon.stderr.log", '/');
    let mut out = String::new();
    append_str(
        &mut out,
        "<?xml version=\"1.0\" encoding=\"UTF-8\"?>\n<!DOCTYPE plist PUBLIC \"-//Apple//DTD PLIST 1.0//EN\" \"http://www.apple.com/DTDs/PropertyList-1.0.dtd\">\n<plist version=\"1.0\">\n<dict>\n  <key>Label</key>\n  <string>com.hydroserver.sdl</string>\n\n  <key>ProgramArguments</key>\n  <array>\n    <string>",
    );
    push_escaped(EscapeKind::Xml, executable_path, &mut out);
    append_str(
        &mut out,
        "</string>\n    <string>--service</string>\n  </array>\n\n  <key>RunAtLoad</key>\n  <true/>\n\n  <key>KeepAlive</key>\n  <true/>\n\n  <key>ThrottleInterval</key>\n  <integer>10</integer>\n\n  <key>WorkingDirectory</key>\n  <string>",
    );
    push_escaped(EscapeKind::Xml, shared_dir, &mut out);
    append_str(&mut out, "</string>\n\n  <key>StandardOutPath</key>\n  <string>");
    push_escaped(EscapeKind::Xml, stdout_path.as_str(), &mut out);
    append_str(&mut out, "</string>\n\n  <key>StandardErrorPath</key>\n  <string>");
    push_escaped(EscapeKind::Xml, stderr_path.as_str(), &mut out);
    append_str(&mut out, "</string>\n</dict>\n</plist>\n");
    assert(out@ =~= plist(executable_path@, shared_dir@));
    out
}

/// Whether `pattern` occurs in `s`.
pub open spec fn contains(s: Seq<char>, pattern: Seq<char>) -> bool {
    exists|i: int| 0 <= i && i + pattern.len() <= s.len() && #[trigger] s.subrange(i, i + pattern.len()) == pattern
}

pub fn str_contains(s: &str, pattern: &str) -> (res: bool)
    ensures
        res == contains(s@, pattern@),
{
    let cs = chars_of(s);
    let ps = chars_of(pattern);
    let n = cs.len();
    let m = ps.len();
    if m > n {
        assert forall|i: int| 0 <= i && i + m <= n implies #[trigger] s@.subrange(i, i + m) != pattern@ by {}
        return false;
    }
    if m == 0 {
        assert(s@.subrange(0int, 0int + pattern@.len()) =~= pattern@);
        assert(contains(s@, pattern@));
        return true;
    }
    let mut i: usize = 0;
    while i <= n - m
        invariant
            m >= 1,
            cs@ == s@,
            ps@ == pattern@,
            n == cs@.len(),
            m == ps@.len(),
            m <= n,
            i <= n - m + 1,
            forall|k: int| 0 <= k < i && k + m <= n ==> #[trigger] s@.subrange(k, k + m) != pattern@,
        decreases n - m + 1 - i,
    {
        let mut j: usize = 0;
        let mut matched = true;
        while j < m
            invariant
                i + m <= n,
                j <= m,
                cs@ == s@,
                ps@ == pattern@,
                n == cs@.len(),
                m == ps@.len(),
                matched ==> forall|k: int| 0 <= k < j ==> cs@[i + k] == ps@[k],
                !matched ==> s@.subrange(i as int, i + m) != pattern@,
            decreases m - j,
        {
            if matched && cs[i + j] != ps[j] {
                matched = false;
                assert(s@.subrange(i as int, i + m)[j as int] != pattern@[j as int]);
            }
            j = j + 1;
        }
        if matched {
            assert(s@.subrange(i as int, i + m) =~= pattern@);
            return true;
        }
        i = i + 1;
    }
    false
}

/// The service status on macOS: installed when its property list exists,
/// running when installed and either `launchctl print` reports it running
/// or the daemon process is found.
pub fn get_service_status(
    plist_exists: bool,
    launchctl_output: Option<&str>,
    process_running: bool,
    executable_path: &str,
) -> (res: ServiceStatusResponse)
    ensures
        ({
            let launchctl_running = match launchctl_output {
                Some(o) => contains(o@, "state = running"@) || contains(o@, "pid ="@),
                None => false,
            };
            let running = plist_exists && (launchctl_running || process_running);
            &&& res.supported
            &&& res.installed == plist_exists
            &&& res.running == running
            &&& res.label@ == "com.hydroserver.sdl"@
            &&& res.plist_path@ == "/Library/LaunchDaemons/com.hydroserver.sdl.plist"@
            &&& res.executable_path@ == executable_path@
            &&& res.status_message@ == status_message(plist_exists, running)
        }),
{
    proof {
        reveal_strlit("state = running");
        reveal_strlit("pid =");
    }
    let launchctl_running = match launchctl_output {
        Some(o) => str_contains(o, "state = running") || str_contains(o, "pid ="),
        None => false,
    };
    let running = plist_exists && (launchctl_running || process_running);
    ServiceStatusResponse {
        supported: true,
        installed: plist_exists,
        running,
        label: owned(SERVICE_LABEL),
        plist_path: owned(SERVICE_PLIST_PATH),
        executable_path: owned(executable_path),
        status_message: service_status_message(plist_exists, running),
    }
}

/// macOS has no management run of its own: installing goes through an
/// elevated script.
pub fn maybe_handle_service_management_cli() -> (res: Option<i32>)
    ensures
        res is None,
{
    None
}

/// The script that restarts the installed LaunchDaemon.
pub fn restart_script() -> (res: String)
    ensures
        res@ == "set -e\n/bin/launchctl bootout system "@ + shell_quoted(SERVICE_PLIST_PATH@)
            + " >/dev/null 2>&1 || true\n/bin/launchctl bootstrap system "@ + shell_quoted(SERVICE_PLIST_PATH@)
            + "\n/bin/launchctl kickstart -k system/com.hydroserver.sdl\n"@,
{
    let quoted = shell_quote(SERVICE_PLIST_PATH);
    let mut out = String::new();
    append_str(&mut out, "set -e\n/bin/launchctl bootout system ");
    append_str(&mut out, quoted.as_str());
    append_str(&mut out, " >/dev/null 2>&1 || true\n/bin/launchctl bootstrap system ");
    append_str(&mut out, quoted.as_str());
    append_str(&mut out, "\n/bin/launchctl kickstart -k system/com.hydroserver.sdl\n");
    assert(out@ =~= "set -e\n/bin/launchctl bootout system "@ + shell_quoted(SERVICE_PLIST_PATH@)
        + " >/dev/null 2>&1 || true\n/bin/launchctl bootstrap system "@ + shell_quoted(SERVICE_PLIST_PATH@)
        + "\n/bin/launchctl kickstart -k system/com.hydroserver.sdl\n"@);
    out
}

/// The script that removes the LaunchDaemon.
pub fn uninstall_script() -> (res: String)
    ensures
        res@ == "set -e\n/bin/launchctl bootout system "@ + shell_quoted(SERVICE_PLIST_PATH@)
            + " >/dev/null 2>&1 || true\nrm -f "@ + shell_quoted(SERVICE_PLIST_PATH@) + "\n"@,
{
    let quoted = shell_quote(SERVICE_PLIST_PATH);
    let mut out = String::new();
    append_str(&mut out, "set -e\n/bin/launchctl bootout system ");
    append_str(&mut out, quoted.as_str());
    append_str(&mut out, " >/dev/null 2>&1 || true\nrm -f ");
    append_str(&mut out, quoted.as_str());
    append_str(&mut out, "\n");
    assert(out@ =~= "set -e\n/bin/launchctl bootout system "@ + shell_quoted(SERVICE_PLIST_PATH@)
        + " >/dev/null 2>&1 || true\nrm -f "@ + shell_quoted(SERVICE_PLIST_PATH@) + "\n"@);
    out
}

/// A value in single quotes for a POSIX shell.
pub open spec fn shell_quoted(v: Seq<char>) -> Seq<char> {
    seq!['\''] + escaped(EscapeKind::Shell, v) + seq!['\'']
}

/// The script that installs the LaunchDaemon from `plist_contents`, staged at
/// `temp_plist`, with its data in `shared_dir`.
pub fn install_script(shared_dir: &str, logs_dir: &str, temp_plist: &str, plist_contents: &str) -> (res: String)
    ensures
        res@ == "set -e\nmkdir -p "@ + shell_quoted(shared_dir@) + " "@ + shell_quoted(logs_dir@)
            + "\ncat > "@ + shell_quoted(temp_plist@) + " <<'PLIST'\n"@ + plist_contents@
            + "\nPLIST\ncp "@ + shell_quoted(temp_plist@) + " "@ + shell_quoted(SERVICE_PLIST_PATH@)
            + "\nchmod 644 "@ + shell_quoted(SERVICE_PLIST_PATH@) + "\nchown root:wheel "@
            + shell_quoted(SERVICE_PLIST_PATH@) + "\n/bin/launchctl bootout system "@
            + shell_quoted(SERVICE_PLIST_PATH@) + " >/dev/null 2>&1 || true\n/bin/launchctl bootstrap system "@
            + shell_quoted(SERVICE_PLIST_PATH@)
            + "\n/bin/launchctl kickstart -k system/com.hydroserver.sdl >/dev/null 2>&1 || true\nrm -f "@
            + shell_quoted(temp_plist@) + "\n"@,
{
    let shared = shell_quote(shared_dir);
    let logs = shell_quote(logs_dir);
    let temp = shell_quote(temp_plist);
    let system = shell_quote(SERVICE_PLIST_PATH);
    let mut out = String::new();
    append_str(&mut out, "set -e\nmkdir -p ");
    append_str(&mut out, shared.as_str());
    append_str(&mut out, " ");
    append_str(&mut out, logs.as_str());
    append_str(&mut out, "\ncat > ");
    append_str(&mut out, temp.as_str());
    append_str(&mut out, " <<'PLIST'\n");
    append_str(&mut out, plist_contents);
    append_str(&mut out, "\nPLIST\ncp ");
    append_str(&mut out, temp.as_str());
    append_str(&mut out, " ");
    append_str(&mut out, system.as_str());
    append_str(&mut out, "\nchmod 644 ");
    append_str(&mut out, system.as_str());
    append_str(&mut out, "\nchown root:wheel ");
    append_str(&mut out, system.as_str());
    append_str(&mut out, "\n/bin/launchctl bootout system ");
    append_str(&mut out, system.as_str());
    append_str(&mut out, " >/dev/null 2>&1 || true\n/bin/launchctl bootstrap system ");
    append_str(&mut out, system.as_str());
    append_str(&mut out, "\n/bin/launchctl kickstart -k system/com.hydroserver.sdl >/dev/null 2>&1 || true\nrm -f ");
    append_str(&mut out, temp.as_str());
    append_str(&mut out, "\n");
    assert(out@ =~= "set -e\nmkdir -p "@ + shell_quoted(shared_dir@) + " "@ + shell_quoted(logs_dir@)
            + "\ncat > "@ + shell_quoted(temp_plist@) + " <<'PLIST'\n"@ + plist_contents@
            + "\nPLIST\ncp "@ + shell_quoted(temp_plist@) + " "@ + shell_quoted(SERVICE_PLIST_PATH@)
            + "\nchmod 644 "@ + shell_quoted(SERVICE_PLIST_PATH@) + "\nchown root:wheel "@
            + shell_quoted(SERVICE_PLIST_PATH@) + "\n/bin/launchctl bootout system "@
            + shell_quoted(SERVICE_PLIST_PATH@) + " >/dev/null 2>&1 || true\n/bin/launchctl bootstrap system "@
            + shell_quoted(SERVICE_PLIST_PATH@)
            + "\n/bin/launchctl kickstart -k system/com.hydroserver.sdl >/dev/null 2>&1 || true\nrm -f "@
            + shell_quoted(temp_plist@) + "\n"@);
    out
}

/// The command that runs a script with administrator rights through
/// AppleScript.
pub fn elevated_script_command(script_path: &str) -> (res: String)
    ensures
        res@ == "do shell script \""@ + escaped(EscapeKind::AppleScript, "/bin/sh "@ + script_path@)
            + "\" with administrator privileges"@,
{
    let mut command = String::new();
    append_str(&mut command, "/bin/sh ");
    append_str(&mut command, script_path);
    let mut out = String::new();
    append_str(&mut out, "do shell script \"");
    push_escaped(EscapeKind::AppleScript, command.as_str(), &mut out);
    append_str(&mut out, "\" with administrator privileges");
    assert(out@ =~= "do shell script \""@ + escaped(EscapeKind::AppleScript, "/bin/sh "@ + script_path@)
            + "\" with administrator privileges"@);
    out
}

} // verus!
