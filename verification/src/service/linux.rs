//! The systemd service on Linux: its unit file, how `systemctl show` output
//! is read, what status it gives, and the command line of an elevated
//! management action.
use vstd::prelude::*;

use crate::job_logs::append_str;
use crate::models::owned;
use crate::service::{
    escaped, push_escaped, service_status_message, status_message, unsupported_service_status,
    EscapeKind, ServiceStatusResponse,
};
use crate::text::{chars_of, find_char, lines_of, split_lines, str_eq, string_from};

verus! {

pub const SERVICE_NAME: &'static str = "streaming-data-loader.service";

pub const SERVICE_DISPLAY_NAME: &'static str = "Streaming Data Loader";

pub const SERVICE_PATH: &'static str = "/etc/systemd/system/streaming-data-loader.service";

pub const SERVICE_ACTION_FLAG: &'static str = "--linux-service-action";

pub const SERVICE_RESULT_FLAG: &'static str = "--linux-service-result-file";

pub const SERVICE_USER_FLAG: &'static str = "--linux-service-user";

pub const SERVICE_HOME_FLAG: &'static str = "--linux-service-home";

pub const SERVICE_CONFIG_FLAG: &'static str = "--linux-service-config-dir";

pub const SERVICE_EXEC_FLAG: &'static str = "--linux-service-exec-path";

// ---------------------------------------------------------------------------
// The unit file
// ---------------------------------------------------------------------------
/// The unit file that runs the daemon as `user` with its data in
/// `config_dir`, every value escaped for systemd.
pub open spec fn unit_file(user: Seq<char>, home: Seq<char>, config_dir: Seq<char>, exec_path: Seq<char>) -> Seq<char> {
    "[Unit]\nDescription=Streaming Data Loader\nAfter=network-online.target\nWants=network-online.target\n\n[Service]\nType=simple\nUser="@
        + escaped(EscapeKind::Systemd, user) + "\nWorkingDirectory="@ + escaped(EscapeKind::Systemd, config_dir)
        + "\nEnvironment=\"HOME="@ + escaped(EscapeKind::Systemd, home)
        + "\"\nEnvironment=\"SDL_CONFIG_DIR="@ + escaped(EscapeKind::Systemd, config_dir)
        + "\"\nExecStart=\""@ + escaped(EscapeKind::Systemd, exec_path)
        + "\" --service\nRestart=always\nRestartSec=2\n\n[Install]\nWantedBy=multi-user.target\n"@
}

pub fn render_linux_unit(user: &str, home: &str, config_dir: &str, exec_path: &str) -> (res: String)
    ensures
        res@ == unit_file(user@, home@, config_dir@, exec_path@),
{
    let mut out = String::new();
    append_str(
        &mut out,
        "[Unit]\nDescription=Streaming Data Loader\nAfter=network-online.target\nWants=network-online.target\n\n[Service]\nType=simple\nUser=",
    );
    push_escaped(EscapeKind::Systemd, user, &mut out);
    append_str(&mut out, "\nWorkingDirectory=");
    push_escaped(EscapeKind::Systemd, config_dir, &mut out);
    append_str(&mut out, "\nEnvironment=\"HOME=");
    push_escaped(EscapeKind::Systemd, home, &mut out);
    append_str(&mut out, "\"\nEnvironment=\"SDL_CONFIG_DIR=");
    push_escaped(EscapeKind::Systemd, config_dir, &mut out);
    append_str(&mut out, "\"\nExecStart=\"");
    push_escaped(EscapeKind::Systemd, exec_path, &mut out);
    append_str(&mut out, "\" --service\nRestart=always\nRestartSec=2\n\n[Install]\nWantedBy=multi-user.target\n");
    assert(out@ =~= unit_file(user@, home@, config_dir@, exec_path@));
    out
}

// ---------------------------------------------------------------------------
// systemctl output
// ---------------------------------------------------------------------------
/// The `key=value` pairs of the lines that hold a `=`, split at the first.
pub open spec fn properties_of(lines: Seq<Seq<char>>) -> Seq<(Seq<char>, Seq<char>)>
    decreases lines.len(),
{
    if lines.len() == 0 {
        Seq::empty()
    } else {
        let rest = properties_of(lines.drop_first());
        let l = lines[0];
        let i = find_char(l, '=');
        if i < l.len() {
            seq![(l.subrange(0, i), l.subrange(i + 1, l.len() as int))] + rest
        } else {
            rest
        }
    }
}

/// The value of the last pair with `key`, as a map built from the pairs
/// keeps it.
pub open spec fn property(props: Seq<(Seq<char>, Seq<char>)>, key: Seq<char>) -> Option<Seq<char>>
    decreases props.len(),
{
    if props.len() == 0 {
        None
    } else if props.last().0 == key {
        Some(props.last().1)
    } else {
        property(props.drop_last(), key)
    }
}

pub open spec fn pairs_view(ps: Seq<(String, String)>) -> Seq<(Seq<char>, Seq<char>)> {
    ps.map_values(|p: (String, String)| (p.0@, p.1@))
}

fn index_of(cs: &Vec<char>, from: usize, c: char) -> (res: usize)
    requires
        from <= cs@.len(),
    ensures
        from <= res <= cs@.len(),
        res - from == find_char(cs@.subrange(from as int, cs@.len() as int), c),
{
    let n = cs.len();
    let mut e = from;
    while e < n && cs[e] != c
        invariant
            from <= e <= n == cs@.len(),
            find_char(cs@.subrange(from as int, n as int), c) == (e - from) + find_char(
                cs@.subrange(e as int, n as int),
                c,
            ),
        decreases n - e,
    {
        assert(cs@.subrange(e as int, n as int).drop_first() =~= cs@.subrange(e + 1, n as int));
        e = e + 1;
    }
    e
}

fn slice_string(cs: &Vec<char>, from: usize, to: usize) -> (res: String)
    requires
        from <= to <= cs@.len(),
    ensures
        res@ == cs@.subrange(from as int, to as int),
{
    let mut out: Vec<char> = Vec::new();
    let mut i = from;
    while i < to
        invariant
            from <= i <= to <= cs@.len(),
            out@ == cs@.subrange(from as int, i as int),
        decreases to - i,
    {
        out.push(cs[i]);
        assert(cs@.subrange(from as int, i + 1) =~= cs@.subrange(from as int, i as int).push(cs@[i as int]));
        i = i + 1;
    }
    string_from(out.as_slice())
}

/// The `key=value` pairs of the output of `systemctl show`.
pub fn parse_systemctl_properties(output: &str) -> (res: Vec<(String, String)>)
    ensures
        pairs_view(res@) == properties_of(split_lines(output@)),
{
    let line_strings = lines_of(output);
    let mut lines: Vec<Vec<char>> = Vec::new();
    for i in 0..line_strings.len()
        invariant
            lines@.len() == i,
            forall|k: int| 0 <= k < i ==> (#[trigger] lines@[k])@ == line_strings@[k]@,
    {
        lines.push(chars_of(line_strings[i].as_str()));
    }
    assert(lines@.map_values(|l: Vec<char>| l@) =~= line_strings@.map_values(|l: String| l@));
    let ghost lv = lines@.map_values(|l: Vec<char>| l@);
    assert(lv + Seq::<Seq<char>>::empty() =~= lv);
    let mut props: Vec<(String, String)> = Vec::new();
    let mut k = lines.len();
    assert(lv.subrange(k as int, lv.len() as int) =~= Seq::<Seq<char>>::empty());
    while k > 0
        invariant
            k <= lines@.len(),
            lv == lines@.map_values(|l: Vec<char>| l@),
            pairs_view(props@) == properties_of(lv.subrange(k as int, lv.len() as int)),
        decreases k,
    {
        k = k - 1;
        let line = &lines[k];
        assert(lv.subrange(k as int, lv.len() as int).drop_first() =~= lv.subrange(k + 1, lv.len() as int));
        assert(lv.subrange(k as int, lv.len() as int)[0] == line@);
        let i = index_of(line, 0, '=');
        assert(line@.subrange(0, line@.len() as int) =~= line@);
        if i < line.len() {
            let key = slice_string(line, 0, i);
            let value = slice_string(line, i + 1, line.len());
            let ghost before = pairs_view(props@);
            props.insert(0, (key, value));
            assert(pairs_view(props@) =~= seq![(key@, value@)] + before);
        }
    }
    assert(lv.subrange(0, lv.len() as int) =~= lv);
    props
}

fn property_value(props: &Vec<(String, String)>, key: &str) -> (res: Option<String>)
    ensures
        match (res, property(pairs_view(props@), key@)) {
            (Some(v), Some(w)) => v@ == w,
            (None, None) => true,
            _ => false,
        },
{
    let ghost pv = pairs_view(props@);
    let mut i = props.len();
    assert(pv.take(i as int) =~= pv);
    while i > 0
        invariant
            i <= props@.len(),
            pv == pairs_view(props@),
            property(pv, key@) == property(pv.take(i as int), key@),
        decreases i,
    {
        let ghost t = pv.take(i as int);
        assert(t.drop_last() =~= pv.take(i - 1));
        assert(t.last() == (props@[i - 1].0@, props@[i - 1].1@));
        if str_eq(props[i - 1].0.as_str(), key) {
            return Some(props[i - 1].1.clone());
        }
        i = i - 1;
    }
    None
}

// ---------------------------------------------------------------------------
// Status
// ---------------------------------------------------------------------------
pub open spec fn msg_systemd_required() -> Seq<char> {
    "Background service management requires a Linux systemd host with systemctl available."@
}

/// The unit-file states of an installed unit.
pub open spec fn installed_unit_file_state(s: Seq<char>) -> bool {
    s == "enabled"@ || s == "enabled-runtime"@ || s == "disabled"@ || s == "static"@ || s
        == "indirect"@ || s == "linked"@ || s == "linked-runtime"@ || s == "alias"@ || s
        == "masked"@
}

/// The active states of a running unit.
pub open spec fn running_active_state(s: Seq<char>) -> bool {
    s == "active"@ || s == "activating"@ || s == "reloading"@
}

pub open spec fn or_default(o: Option<Seq<char>>, d: Seq<char>) -> Seq<char> {
    match o {
        Some(v) => v,
        None => d,
    }
}

fn value_or(o: Option<String>, d: &str) -> (res: String)
    ensures
        res@ == or_default(crate::models::opt_view(o), d@),
{
    match o {
        Some(v) => v,
        None => owned(d),
    }
}

fn str_in(s: &str, options: &[&str]) -> (res: bool)
    ensures
        res == exists|k: int| 0 <= k < options@.len() && s@ == (#[trigger] options@[k])@,
{
    for i in 0..options.len()
        invariant
            forall|k: int| 0 <= k < i ==> s@ != (#[trigger] options@[k])@,
    {
        if str_eq(s, options[i]) {
            return true;
        }
    }
    false
}

/// The service status on Linux from whether systemd is available, the
/// output of `systemctl show` for the unit, and whether the unit file exists.
pub fn get_service_status(systemd_supported: bool, show_output: &str, unit_file_exists: bool) -> (res: ServiceStatusResponse)
    ensures
        !systemd_supported ==> !res.supported && !res.installed && !res.running && res.status_message@
            == msg_systemd_required(),
        systemd_supported ==> ({
            let props = properties_of(split_lines(show_output@));
            let load_state = or_default(property(props, "LoadState"@), "not-found"@);
            let active_state = or_default(property(props, "ActiveState"@), "inactive"@);
            let unit_state = or_default(property(props, "UnitFileState"@), "bad"@);
            let installed = unit_file_exists || load_state != "not-found"@ || installed_unit_file_state(unit_state);
            let running = running_active_state(active_state);
            &&& res.supported
            &&& res.installed == installed
            &&& res.running == running
            &&& res.label@ == "Streaming Data Loader"@
            &&& res.plist_path@ == or_default(property(props, "FragmentPath"@), "/etc/systemd/system/streaming-data-loader.service"@)
            &&& res.executable_path@.len() == 0
            &&& res.status_message@ == status_message(installed, running)
        }),
{
    if !systemd_supported {
        return unsupported_service_status(
            "Background service management requires a Linux systemd host with systemctl available.",
        );
    }
    proof {
        reveal_strlit("LoadState");
        reveal_strlit("ActiveState");
        reveal_strlit("UnitFileState");
        reveal_strlit("FragmentPath");
        reveal_strlit("not-found");
        reveal_strlit("inactive");
        reveal_strlit("bad");
    }
    let props = parse_systemctl_properties(show_output);
    let load_state = value_or(property_value(&props, "LoadState"), "not-found");
    let active_state = value_or(property_value(&props, "ActiveState"), "inactive");
    let unit_file_state = value_or(property_value(&props, "UnitFileState"), "bad");
    let fragment_path = value_or(property_value(&props, "FragmentPath"), SERVICE_PATH);
    let installed_states = [
        "enabled",
        "enabled-runtime",
        "disabled",
        "static",
        "indirect",
        "linked",
        "linked-runtime",
        "alias",
        "masked",
    ];
    let running_states = ["active", "activating", "reloading"];
    let state_installed = str_in(unit_file_state.as_str(), &installed_states);
    let installed = unit_file_exists || !str_eq(load_state.as_str(), "not-found") || state_installed;
    let running = str_in(active_state.as_str(), &running_states);
    proof {
        assert(state_installed == installed_unit_file_state(unit_file_state@)) by {
            if installed_unit_file_state(unit_file_state@) {
                if unit_file_state@ == "enabled"@ { assert(unit_file_state@ == installed_states@[0]@); }
                if unit_file_state@ == "enabled-runtime"@ { assert(unit_file_state@ == installed_states@[1]@); }
                if unit_file_state@ == "disabled"@ { assert(unit_file_state@ == installed_states@[2]@); }
                if unit_file_state@ == "static"@ { assert(unit_file_state@ == installed_states@[3]@); }
                if unit_file_state@ == "indirect"@ { assert(unit_file_state@ == installed_states@[4]@); }
                if unit_file_state@ == "linked"@ { assert(unit_file_state@ == installed_states@[5]@); }
                if unit_file_state@ == "linked-runtime"@ { assert(unit_file_state@ == installed_states@[6]@); }
                if unit_file_state@ == "alias"@ { assert(unit_file_state@ == installed_states@[7]@); }
                if unit_file_state@ == "masked"@ { assert(unit_file_state@ == installed_states@[8]@); }
            }
        }
        assert(running == running_active_state(active_state@)) by {
            if running_active_state(active_state@) {
                if active_state@ == "active"@ { assert(active_state@ == running_states@[0]@); }
                if active_state@ == "activating"@ { assert(active_state@ == running_states@[1]@); }
                if active_state@ == "reloading"@ { assert(active_state@ == running_states@[2]@); }
            }
        }
    }
    ServiceStatusResponse {
        supported: true,
        installed,
        running,
        label: owned(SERVICE_DISPLAY_NAME),
        plist_path: fragment_path,
        executable_path: String::new(),
        status_message: service_status_message(installed, running),
    }
}

// ---------------------------------------------------------------------------
// Management actions
// ---------------------------------------------------------------------------
/// The arguments of an elevated management run.
#[derive(Debug, PartialEq, Eq)]
pub struct LinuxServiceRequest {
    pub action: Option<String>,
    pub result_file: Option<String>,
    pub user: Option<String>,
    pub home: Option<String>,
    pub config_dir: Option<String>,
    pub exec_path: Option<String>,
}

pub struct LinuxServiceRequestView {
    pub action: Option<Seq<char>>,
    pub result_file: Option<Seq<char>>,
    pub user: Option<Seq<char>>,
    pub home: Option<Seq<char>>,
    pub config_dir: Option<Seq<char>>,
    pub exec_path: Option<Seq<char>>,
}

impl View for LinuxServiceRequest {
    type V = LinuxServiceRequestView;

    open spec fn view(&self) -> LinuxServiceRequestView {
        LinuxServiceRequestView {
            action: crate::models::opt_view(self.action),
            result_file: crate::models::opt_view(self.result_file),
            user: crate::models::opt_view(self.user),
            home: crate::models::opt_view(self.home),
            config_dir: crate::models::opt_view(self.config_dir),
            exec_path: crate::models::opt_view(self.exec_path),
        }
    }
}

pub open spec fn arg_at(args: Seq<Seq<char>>, i: int) -> Option<Seq<char>> {
    if 0 <= i < args.len() {
        Some(args[i])
    } else {
        None
    }
}

/// The request read from arguments `i ..`: each flag takes the argument
/// after it as its value (none when it is last), a later flag overriding an
/// earlier one; other arguments are skipped.
pub open spec fn parse_request(args: Seq<Seq<char>>, i: int, r: LinuxServiceRequestView) -> LinuxServiceRequestView
    decreases args.len() + 1 - i,
{
    if i < 0 || i >= args.len() {
        r
    } else {
        let a = args[i];
        let v = arg_at(args, i + 1);
        if a == "--linux-service-action"@ {
            parse_request(args, i + 2, LinuxServiceRequestView { action: v, ..r })
        } else if a == "--linux-service-result-file"@ {
            parse_request(args, i + 2, LinuxServiceRequestView { result_file: v, ..r })
        } else if a == "--linux-service-user"@ {
            parse_request(args, i + 2, LinuxServiceRequestView { user: v, ..r })
        } else if a == "--linux-service-home"@ {
            parse_request(args, i + 2, LinuxServiceRequestView { home: v, ..r })
        } else if a == "--linux-service-config-dir"@ {
            parse_request(args, i + 2, LinuxServiceRequestView { config_dir: v, ..r })
        } else if a == "--linux-service-exec-path"@ {
            parse_request(args, i + 2, LinuxServiceRequestView { exec_path: v, ..r })
        } else {
            parse_request(args, i + 1, r)
        }
    }
}

pub open spec fn empty_request() -> LinuxServiceRequestView {
    LinuxServiceRequestView {
        action: None,
        result_file: None,
        user: None,
        home: None,
        config_dir: None,
        exec_path: None,
    }
}

fn next_arg(args: &Vec<String>, i: usize) -> (res: Option<String>)
    ensures
        crate::models::opt_view(res) == arg_at(args@.map_values(|a: String| a@), i as int),
{
    if i < args.len() {
        Some(args[i].clone())
    } else {
        None
    }
}

/// Reads the request of an elevated management run from the process
/// arguments (the program name first); `None` unless an action is given.
pub fn maybe_handle_service_management_cli(args: &Vec<String>) -> (res: Option<LinuxServiceRequest>)
    ensures
        ({
            let r = parse_request(args@.map_values(|a: String| a@), 1, empty_request());
            match res {
                Some(req) => r.action is Some && req@ == r,
                None => r.action is None,
            }
        }),
{
    let ghost av = args@.map_values(|a: String| a@);
    let mut req = LinuxServiceRequest {
        action: None,
        result_file: None,
        user: None,
        home: None,
        config_dir: None,
        exec_path: None,
    };
    proof {
        reveal_strlit("--linux-service-action");
        reveal_strlit("--linux-service-result-file");
        reveal_strlit("--linux-service-user");
        reveal_strlit("--linux-service-home");
        reveal_strlit("--linux-service-config-dir");
        reveal_strlit("--linux-service-exec-path");
    }
    let mut i: usize = 1;
    while i < args.len()
        invariant
            1 <= i,
            av == args@.map_values(|a: String| a@),
            parse_request(av, 1, empty_request()) == parse_request(av, i as int, req@),
        decreases args@.len() - i,
    {
        assert(av[i as int] == args@[i as int]@);
        let ghost i_old = i as int;
        let a = args[i].as_str();
        if str_eq(a, SERVICE_ACTION_FLAG) {
            req.action = next_arg(args, i + 1);
            i = if i + 1 < args.len() { i + 2 } else { args.len() };
        } else if str_eq(a, SERVICE_RESULT_FLAG) {
            req.result_file = next_arg(args, i + 1);
            i = if i + 1 < args.len() { i + 2 } else { args.len() };
        } else if str_eq(a, SERVICE_USER_FLAG) {
            req.user = next_arg(args, i + 1);
            i = if i + 1 < args.len() { i + 2 } else { args.len() };
        } else if str_eq(a, SERVICE_HOME_FLAG) {
            req.home = next_arg(args, i + 1);
            i = if i + 1 < args.len() { i + 2 } else { args.len() };
        } else if str_eq(a, SERVICE_CONFIG_FLAG) {
            req.config_dir = next_arg(args, i + 1);
            i = if i + 1 < args.len() { i + 2 } else { args.len() };
        } else if str_eq(a, SERVICE_EXEC_FLAG) {
            req.exec_path = next_arg(args, i + 1);
            i = if i + 1 < args.len() { i + 2 } else { args.len() };
        } else {
            i = i + 1;
        }
        proof {
            if i_old + 2 > args@.len() {
                assert(parse_request(av, i_old + 2, req@) == req@);
                assert(parse_request(av, args@.len() as int, req@) == req@);
            }
        }
    }
    if req.action.is_none() {
        return None;
    }
    Some(req)
}

/// What an elevated run does.
#[derive(Clone, Copy, Debug, PartialEq, Eq, Structural)]
pub enum LinuxAction {
    Install,
    Restart,
    Uninstall,
}

pub fn parse_action(action: &str) -> (res: Result<LinuxAction, String>)
    ensures
        action@ == "install"@ ==> res == Ok::<LinuxAction, String>(LinuxAction::Install),
        action@ == "restart"@ ==> res == Ok::<LinuxAction, String>(LinuxAction::Restart),
        action@ == "uninstall"@ ==> res == Ok::<LinuxAction, String>(LinuxAction::Uninstall),
        action@ != "install"@ && action@ != "restart"@ && action@ != "uninstall"@ ==> (res matches Err(
            e,
        ) && e@ == "Unknown Linux service action."@),
{
    proof {
        reveal_strlit("install");
        reveal_strlit("restart");
        reveal_strlit("uninstall");
        assert("restart"@[0] != "install"@[0]);
        assert("uninstall"@[0] != "install"@[0]);
        assert("uninstall"@[0] != "restart"@[0]);
    }
    if str_eq(action, "install") {
        Ok(LinuxAction::Install)
    } else if str_eq(action, "restart") {
        Ok(LinuxAction::Restart)
    } else if str_eq(action, "uninstall") {
        Ok(LinuxAction::Uninstall)
    } else {
        Err(owned("Unknown Linux service action."))
    }
}

/// The unit file an install writes, from the request; an error names the
/// first missing value.
pub fn install_unit_contents(req: &LinuxServiceRequest) -> (res: Result<String, String>)
    ensures
        match (req@.user, req@.home, req@.config_dir, req@.exec_path) {
            (None, _, _, _) => res matches Err(e) && e@ == "Missing Linux service user."@,
            (Some(_), None, _, _) => res matches Err(e) && e@ == "Missing Linux service home directory."@,
            (Some(_), Some(_), None, _) => res matches Err(e) && e@
                == "Missing Linux service config directory."@,
            (Some(_), Some(_), Some(_), None) => res matches Err(e) && e@
                == "Missing Linux service executable path."@,
            (Some(u), Some(h), Some(c), Some(x)) => res matches Ok(s) && s@ == unit_file(u, h, c, x),
        },
{
    let user = match &req.user {
        Some(u) => u,
        None => return Err(owned("Missing Linux service user.")),
    };
    let home = match &req.home {
        Some(h) => h,
        None => return Err(owned("Missing Linux service home directory.")),
    };
    let config_dir = match &req.config_dir {
        Some(c) => c,
        None => return Err(owned("Missing Linux service config directory.")),
    };
    let exec_path = match &req.exec_path {
        Some(x) => x,
        None => return Err(owned("Missing Linux service executable path.")),
    };
    Ok(render_linux_unit(user.as_str(), home.as_str(), config_dir.as_str(), exec_path.as_str()))
}

/// The exit code of a management run.
pub fn management_exit_code(succeeded: bool) -> (res: i32)
    ensures
        res == (if succeeded { 0i32 } else { 1i32 }),
{
    if succeeded {
        0
    } else {
        1
    }
}

} // verus!
