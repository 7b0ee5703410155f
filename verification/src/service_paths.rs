//! Names and paths shared by the app, the daemon and the service manager.
use vstd::prelude::*;

use crate::job_logs::append_str;
use crate::models::{owned, trim_end_char_chars, trim_start_char_chars};
use crate::text::{chars_of, str_eq, string_from, trim_end_char, trim_start_char};

verus! {

pub const APP_DIRECTORY_NAME: &'static str = "Streaming Data Loader";

pub const DEV_APP_DIRECTORY_NAME: &'static str = "Streaming Data Loader Dev";

pub const SHARED_SERVICE_DIRECTORY_NAME: &'static str = "StreamingDataLoader";

pub const DEV_SHARED_SERVICE_DIRECTORY_NAME: &'static str = "StreamingDataLoaderDev";

pub const SERVICE_CONFIG_DIR_FLAG: &'static str = "--service-config-dir";

pub const DAEMON_ENDPOINT_FILENAME: &'static str = "daemon.endpoint.json";

/// The application folder name of this build: development builds
/// (`debug_build`) keep their data apart.
pub fn active_app_directory_name(debug_build: bool) -> (res: &'static str)
    ensures
        res@ == if debug_build {
            "Streaming Data Loader Dev"@
        } else {
            "Streaming Data Loader"@
        },
{
    proof {
        reveal_strlit("Streaming Data Loader Dev");
        reveal_strlit("Streaming Data Loader");
    }
    if debug_build {
        DEV_APP_DIRECTORY_NAME
    } else {
        APP_DIRECTORY_NAME
    }
}

/// The shared service folder name of this build, without spaces so that it
/// is safe in Windows service command lines.
pub fn active_shared_service_directory_name(debug_build: bool) -> (res: &'static str)
    ensures
        res@ == if debug_build {
            "StreamingDataLoaderDev"@
        } else {
            "StreamingDataLoader"@
        },
{
    proof {
        reveal_strlit("StreamingDataLoaderDev");
        reveal_strlit("StreamingDataLoader");
    }
    if debug_build {
        DEV_SHARED_SERVICE_DIRECTORY_NAME
    } else {
        SHARED_SERVICE_DIRECTORY_NAME
    }
}

/// `dir` joined with the relative name `name` using `separator`.
pub open spec fn joined(dir: Seq<char>, name: Seq<char>, separator: char) -> Seq<char> {
    if dir.len() == 0 {
        name
    } else if dir.last() == separator {
        dir + name
    } else {
        dir + seq![separator] + name
    }
}

pub fn join_path(dir: &str, name: &str, separator: char) -> (res: String)
    ensures
        res@ == joined(dir@, name@, separator),
{
    let d = chars_of(dir);
    let mut out = String::new();
    append_str(&mut out, dir);
    if d.len() > 0 && d[d.len() - 1] != separator {
        crate::text::push_char(&mut out, separator);
    }
    append_str(&mut out, name);
    assert(out@ =~= joined(dir@, name@, separator));
    out
}

/// Where the daemon publishes how to reach it.
pub fn daemon_endpoint_path(config_dir: &str, separator: char) -> (res: String)
    ensures
        res@ == joined(config_dir@, "daemon.endpoint.json"@, separator),
{
    proof {
        reveal_strlit("daemon.endpoint.json");
    }
    join_path(config_dir, DAEMON_ENDPOINT_FILENAME, separator)
}

/// The path in an inline `--service-config-dir=<path>` argument, without
/// surrounding double quotes; `None` for other arguments or an empty path.
pub open spec fn inline_override(arg: Seq<char>) -> Option<Seq<char>> {
    let prefix = "--service-config-dir="@;
    if arg.len() >= prefix.len() && arg.subrange(0, prefix.len() as int) == prefix {
        let path = trim_end_char(trim_start_char(arg.subrange(prefix.len() as int, arg.len() as int), '"'), '"');
        if path.len() == 0 {
            None
        } else {
            Some(path)
        }
    } else {
        None
    }
}

/// The configuration directory named on the command line from argument `i`
/// on: the argument after a bare `--service-config-dir`, or the path of an
/// inline one, whichever comes first.
pub open spec fn override_from(args: Seq<Seq<char>>, i: int) -> Option<Seq<char>>
    decreases args.len() - i,
{
    if i < 0 || i >= args.len() {
        None
    } else if args[i] == "--service-config-dir"@ {
        if i + 1 < args.len() {
            Some(args[i + 1])
        } else {
            None
        }
    } else if inline_override(args[i]) is Some {
        inline_override(args[i])
    } else {
        override_from(args, i + 1)
    }
}

fn inline_service_config_dir_override(arg: &str) -> (res: Option<String>)
    ensures
        match (res, inline_override(arg@)) {
            (Some(p), Some(v)) => p@ == v,
            (None, None) => true,
            _ => false,
        },
{
    proof {
        reveal_strlit("--service-config-dir=");
    }
    let chars = chars_of(arg);
    let prefix = chars_of("--service-config-dir=");
    let n = prefix.len();
    if chars.len() < n {
        return None;
    }
    let mut i: usize = 0;
    while i < n
        invariant
            i <= n == prefix@.len(),
            n <= chars@.len(),
            chars@ == arg@,
            prefix@ == "--service-config-dir="@,
            forall|k: int| 0 <= k < i ==> chars@[k] == prefix@[k],
        decreases n - i,
    {
        if chars[i] != prefix[i] {
            assert(chars@.subrange(0, n as int)[i as int] != prefix@[i as int]);
            return None;
        }
        i = i + 1;
    }
    assert(chars@.subrange(0, n as int) =~= prefix@);
    let mut rest: Vec<char> = Vec::new();
    let mut j = n;
    while j < chars.len()
        invariant
            n <= j <= chars@.len(),
            rest@ == chars@.subrange(n as int, j as int),
        decreases chars@.len() - j,
    {
        rest.push(chars[j]);
        assert(chars@.subrange(n as int, j + 1) =~= chars@.subrange(n as int, j as int).push(chars@[j as int]));
        j = j + 1;
    }
    let a = trim_start_char_chars(rest.as_slice(), '"');
    let b = trim_end_char_chars(a.as_slice(), '"');
    if b.len() == 0 {
        return None;
    }
    Some(string_from(b.as_slice()))
}

/// The configuration directory given on the command line, if any (see
/// `override_from`).
pub fn service_config_dir_override_from_args(args: &Vec<String>) -> (res: Option<String>)
    ensures
        match (res, override_from(args@.map_values(|a: String| a@), 0)) {
            (Some(p), Some(v)) => p@ == v,
            (None, None) => true,
            _ => false,
        },
{
    let ghost av = args@.map_values(|a: String| a@);
    let mut i: usize = 0;
    while i < args.len()
        invariant
            i <= args@.len(),
            av == args@.map_values(|a: String| a@),
            override_from(av, 0) == override_from(av, i as int),
        decreases args@.len() - i,
    {
        assert(av[i as int] == args@[i as int]@);
        if str_eq(args[i].as_str(), SERVICE_CONFIG_DIR_FLAG) {
            proof {
                reveal_strlit("--service-config-dir");
            }
            if i + 1 < args.len() {
                assert(av[i + 1] == args@[i + 1]@);
                return Some(args[i + 1].clone());
            }
            return None;
        }
        proof {
            reveal_strlit("--service-config-dir");
        }
        if let Some(path) = inline_service_config_dir_override(args[i].as_str()) {
            return Some(path);
        }
        i = i + 1;
    }
    None
}

// ---------------------------------------------------------------------------
// Configuration directories
// ---------------------------------------------------------------------------
/// The operating systems whose folders differ.
#[derive(Clone, Copy, Debug, PartialEq, Eq, Structural)]
pub enum TargetPlatform {
    MacOs,
    Windows,
    Linux,
    Other,
}

/// The system-wide configuration folder of the service on each platform.
pub open spec fn platform_dir(platform: TargetPlatform) -> Seq<char> {
    match platform {
        TargetPlatform::MacOs => "/Library/Application Support/HydroServerSDL"@,
        TargetPlatform::Windows => "C:\\ProgramData\\HydroServerSDL"@,
        TargetPlatform::Linux => "/var/lib/hydroserver-sdl"@,
        TargetPlatform::Other => "/tmp/hydroserver-sdl"@,
    }
}

pub fn platform_service_config_dir(platform: TargetPlatform) -> (res: String)
    ensures
        res@ == platform_dir(platform),
{
    match platform {
        TargetPlatform::MacOs => owned("/Library/Application Support/HydroServerSDL"),
        TargetPlatform::Windows => owned("C:\\ProgramData\\HydroServerSDL"),
        TargetPlatform::Linux => owned("/var/lib/hydroserver-sdl"),
        TargetPlatform::Other => owned("/tmp/hydroserver-sdl"),
    }
}

/// The service's configuration folder: `SDL_CONFIG_DIR` (`config_dir_env`)
/// when it is set, which must then not be empty, else the platform's folder.
pub fn service_config_dir(config_dir_env: Option<String>, platform: TargetPlatform) -> (res: Result<String, String>)
    ensures
        match config_dir_env {
            Some(d) => if d@.len() == 0 {
                res matches Err(e) && e@ == "SDL_CONFIG_DIR is set but empty."@
            } else {
                res matches Ok(p) && p@ == d@
            },
            None => res matches Ok(p) && p@ == platform_dir(platform),
        },
{
    match config_dir_env {
        Some(d) => if d.as_str().is_empty() {
            Err(owned("SDL_CONFIG_DIR is set but empty."))
        } else {
            Ok(d)
        },
        None => Ok(platform_service_config_dir(platform)),
    }
}

/// The default shared folder of the app's state: under `/Users/Shared` on
/// macOS, under `PROGRAMDATA` (else `C:\ProgramData`) on Windows, and under
/// the home folder (`HOME`, else `USERPROFILE`) elsewhere.
pub open spec fn default_shared_dir(
    platform: TargetPlatform,
    program_data: Option<Seq<char>>,
    home: Option<Seq<char>>,
    user_profile: Option<Seq<char>>,
    debug_build: bool,
    separator: char,
) -> Result<Seq<char>, Seq<char>> {
    let name = if debug_build {
        "Streaming Data Loader Dev"@
    } else {
        "Streaming Data Loader"@
    };
    match platform {
        TargetPlatform::MacOs => Ok(joined("/Users/Shared"@, name, separator)),
        TargetPlatform::Windows => Ok(
            joined(
                match program_data {
                    Some(p) => p,
                    None => "C:\\ProgramData"@,
                },
                name,
                separator,
            ),
        ),
        _ => match (home, user_profile) {
            (Some(h), _) => Ok(joined(h, name, separator)),
            (None, Some(u)) => Ok(joined(u, name, separator)),
            (None, None) => Err("Couldn't resolve an application data directory."@),
        },
    }
}

pub fn default_shared_service_config_dir(
    platform: TargetPlatform,
    program_data: Option<String>,
    home: Option<String>,
    user_profile: Option<String>,
    debug_build: bool,
    separator: char,
) -> (res: Result<String, String>)
    ensures
        match (
            res,
            default_shared_dir(
                platform,
                crate::models::opt_view(program_data),
                crate::models::opt_view(home),
                crate::models::opt_view(user_profile),
                debug_build,
                separator,
            ),
        ) {
            (Ok(p), Ok(v)) => p@ == v,
            (Err(e), Err(m)) => e@ == m,
            _ => false,
        },
{
    let name = active_app_directory_name(debug_build);
    match platform {
        TargetPlatform::MacOs => {
            proof {
                reveal_strlit("/Users/Shared");
            }
            Ok(join_path("/Users/Shared", name, separator))
        },
        TargetPlatform::Windows => {
            let base = match program_data {
                Some(p) => p,
                None => owned("C:\\ProgramData"),
            };
            Ok(join_path(base.as_str(), name, separator))
        },
        _ => match (home, user_profile) {
            (Some(h), _) => Ok(join_path(h.as_str(), name, separator)),
            (None, Some(u)) => Ok(join_path(u.as_str(), name, separator)),
            (None, None) => Err(owned("Couldn't resolve an application data directory.")),
        },
    }
}

/// The shared configuration folder: the `--service-config-dir` argument,
/// else `SDL_CONFIG_DIR`, else the default folder (`default_dir`).
pub fn resolve_shared_service_config_dir(
    args_override: Option<String>,
    config_dir_env: Option<String>,
    default_dir: Result<String, String>,
) -> (res: Result<String, String>)
    ensures
        match args_override {
            Some(a) => res matches Ok(p) && p@ == a@,
            None => match config_dir_env {
                Some(e) => res matches Ok(p) && p@ == e@,
                None => res == default_dir,
            },
        },
{
    match args_override {
        Some(a) => Ok(a),
        None => match config_dir_env {
            Some(e) => Ok(e),
            None => default_dir,
        },
    }
}

} // verus!
