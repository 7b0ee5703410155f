//! The desktop app's view of its state: where its data lives, what the
//! status of each job is, and which jobs it is running right now.
use vstd::prelude::*;

use crate::models::{
    clone_mappings, clone_opt_string, opt_view, owned, ColumnMapping, ConnectionState, FileConfig,
    JobConfig, JobStatus, ServerConfig, UtcDateTime,
};
use crate::records::{JobCursor, JobCursorView};
use crate::responses::{ActionResponse, ConnectionStatus, HealthResponse};
use crate::service_paths::{active_app_directory_name, join_path, joined};
use crate::text::str_eq;

verus! {

/// The command-line argument with which the system starts the app at login.
pub const AUTOSTART_ARG: &'static str = "--autostart";

pub const BUNDLE_IDENTIFIER: &'static str = "com.streaming-data-loader";

pub const LEGACY_BUNDLE_IDENTIFIER: &'static str = "com.streaming-data-loader.app";

/// The app's version and where it keeps its data.
#[derive(Clone, Debug, PartialEq, Eq)]
pub struct AppSettings {
    pub version: String,
    pub config_dir: String,
}

/// Whether `flag` is one of the arguments.
pub fn has_launch_flag(args: &Vec<String>, flag: &str) -> (res: bool)
    ensures
        res == exists|k: int| 0 <= k < args@.len() && (#[trigger] args@[k])@ == flag@,
{
    for i in 0..args.len()
        invariant
            forall|k: int| 0 <= k < i ==> (#[trigger] args@[k])@ != flag@,
    {
        if str_eq(args[i].as_str(), flag) {
            return true;
        }
    }
    false
}

/// The name under which the app registers to start at login.
pub fn autostart_app_name(debug_build: bool) -> (res: &'static str)
    ensures
        res@ == if debug_build {
            "Streaming Data Loader Dev"@
        } else {
            "Streaming Data Loader"@
        },
{
    active_app_directory_name(debug_build)
}

/// Where the app keeps its data: the platform's app data folder (a `dev`
/// folder inside it for development builds), or else a folder named after
/// the app in the home folder.
pub open spec fn preferred_dir(
    app_data_dir: Option<Seq<char>>,
    home_dir: Option<Seq<char>>,
    debug_build: bool,
    separator: char,
) -> Result<Seq<char>, Seq<char>> {
    match app_data_dir {
        Some(d) => Ok(if debug_build {
            joined(d, "dev"@, separator)
        } else {
            d
        }),
        None => match home_dir {
            Some(h) => Ok(
                joined(
                    h,
                    if debug_build {
                        "Streaming Data Loader Dev"@
                    } else {
                        "Streaming Data Loader"@
                    },
                    separator,
                ),
            ),
            None => Err("Couldn't resolve an application data directory."@),
        },
    }
}

pub fn preferred_user_data_dir(
    app_data_dir: Option<String>,
    home_dir: Option<String>,
    debug_build: bool,
    separator: char,
) -> (res: Result<String, String>)
    ensures
        match (res, preferred_dir(opt_view(app_data_dir), opt_view(home_dir), debug_build, separator)) {
            (Ok(p), Ok(v)) => p@ == v,
            (Err(e), Err(m)) => e@ == m,
            _ => false,
        },
{
    if let Some(d) = app_data_dir {
        if debug_build {
            proof {
                reveal_strlit("dev");
            }
            return Ok(join_path(d.as_str(), "dev", separator));
        }
        return Ok(d);
    }
    if let Some(h) = home_dir {
        return Ok(join_path(h.as_str(), active_app_directory_name(debug_build), separator));
    }
    Err(owned("Couldn't resolve an application data directory."))
}

/// The connection state shown before any request: configured or not.
pub fn connection_status(server: &ServerConfig) -> (res: ConnectionStatus)
    ensures
        server@.is_configured() ==> res.state == ConnectionState::Configured && res.message@
            == "HydroServer configured"@,
        !server@.is_configured() ==> res.state == ConnectionState::NotConfigured && res.message@
            == "HydroServer not configured"@,
{
    if !server.is_configured() {
        return ConnectionStatus {
            state: ConnectionState::NotConfigured,
            message: owned("HydroServer not configured"),
        };
    }
    ConnectionStatus { state: ConnectionState::Configured, message: owned("HydroServer configured") }
}

/// The health report of the service.
pub fn health_response(version: &str, config_dir: &str, server: &ServerConfig) -> (res: HealthResponse)
    ensures
        res.status@ == "ok"@,
        res.version@ == version@,
        res.config_dir@ == config_dir@,
        res.server_configured == server@.is_configured(),
        res.connection.state == (if server@.is_configured() {
            ConnectionState::Configured
        } else {
            ConnectionState::NotConfigured
        }),
        res.connection.message@ == (if server@.is_configured() {
            "HydroServer configured"@
        } else {
            "HydroServer not configured"@
        }),
{
    HealthResponse {
        status: owned("ok"),
        version: owned(version),
        config_dir: owned(config_dir),
        server_configured: server.is_configured(),
        connection: connection_status(server),
    }
}

/// The status of a job and its message: running beats paused, paused beats
/// a recorded error, and a job that never uploaded is pending.
pub open spec fn job_status(enabled: bool, cursor: JobCursorView, is_running: bool) -> (JobStatus, Seq<char>) {
    if is_running {
        (JobStatus::Running, "Running now"@)
    } else if !enabled {
        (JobStatus::Disabled, "Paused"@)
    } else if cursor.last_error is Some {
        (JobStatus::Error, cursor.last_error->0)
    } else if cursor.last_pushed_timestamp is None {
        (JobStatus::Pending, "Watching for new rows"@)
    } else {
        (JobStatus::Healthy, "Watching for new rows"@)
    }
}

/// A paused job that is not running shows as paused whatever its cursor
/// holds, a past error included; a running job shows as running whatever
/// else holds; an enabled, idle job with a recorded error shows that error.
pub proof fn lemma_job_status_precedence(enabled: bool, cursor: JobCursorView, is_running: bool)
    ensures
        is_running ==> job_status(enabled, cursor, is_running) == (JobStatus::Running, "Running now"@),
        !is_running && !enabled ==> job_status(enabled, cursor, is_running) == (JobStatus::Disabled, "Paused"@),
        !is_running && enabled && cursor.last_error is Some ==> job_status(enabled, cursor, is_running) == (
            JobStatus::Error,
            cursor.last_error->0,
        ),
        !is_running && enabled && cursor.last_error is None ==> job_status(enabled, cursor, is_running).1
            == "Watching for new rows"@ && job_status(enabled, cursor, is_running).0 == (if cursor.last_pushed_timestamp is None {
            JobStatus::Pending
        } else {
            JobStatus::Healthy
        }),
{
}

/// Whether and how a job failed before does not change how a paused job is
/// shown: two paused, idle jobs show the same status and message.
pub proof fn lemma_paused_status_ignores_cursor(a: JobCursorView, b: JobCursorView)
    ensures
        job_status(false, a, false) == job_status(false, b, false),
{
}

pub fn derive_job_status(job: &JobConfig, cursor: &JobCursor, is_running: bool) -> (res: (JobStatus, String))
    ensures
        res.0 == job_status(job.enabled, cursor@, is_running).0,
        res.1@ == job_status(job.enabled, cursor@, is_running).1,
{
    if is_running {
        return (JobStatus::Running, owned("Running now"));
    }
    if !job.enabled {
        return (JobStatus::Disabled, owned("Paused"));
    }
    if let Some(last_error) = &cursor.last_error {
        return (JobStatus::Error, last_error.clone());
    }
    if cursor.last_pushed_timestamp.is_none() {
        return (JobStatus::Pending, owned("Watching for new rows"));
    }
    (JobStatus::Healthy, owned("Watching for new rows"))
}

/// A job with its status, as listed to the user.
#[derive(Debug, PartialEq, Eq)]
pub struct JobStatusSummary {
    pub id: String,
    pub name: String,
    pub enabled: bool,
    pub file_path: String,
    pub schedule_minutes: u32,
    pub file_config: FileConfig,
    pub column_mappings: Vec<ColumnMapping>,
    pub status: JobStatus,
    pub status_message: String,
    pub last_pushed_timestamp: Option<UtcDateTime>,
    pub last_run_at: Option<UtcDateTime>,
    pub last_error: Option<String>,
}

/// The summary of `job` with the status its cursor and running state give.
pub fn build_job_summary(job: &JobConfig, cursor: &JobCursor, is_running: bool) -> (res: JobStatusSummary)
    ensures
        res.id@ == job.id@ && res.name@ == job.name@ && res.enabled == job.enabled,
        res.file_path@ == job.file_path@ && res.schedule_minutes == job.schedule_minutes,
        res.file_config@ == job.file_config@,
        crate::models::mappings_view(res.column_mappings@) == crate::models::mappings_view(job.column_mappings@),
        res.status == job_status(job.enabled, cursor@, is_running).0,
        res.status_message@ == job_status(job.enabled, cursor@, is_running).1,
        res.last_pushed_timestamp == cursor.last_pushed_timestamp,
        res.last_run_at == cursor.last_run_at,
        opt_view(res.last_error) == opt_view(cursor.last_error),
{
    let (status, status_message) = derive_job_status(job, cursor, is_running);
    JobStatusSummary {
        id: job.id.clone(),
        name: job.name.clone(),
        enabled: job.enabled,
        file_path: job.file_path.clone(),
        schedule_minutes: job.schedule_minutes,
        file_config: job.file_config.clone(),
        column_mappings: clone_mappings(&job.column_mappings),
        status,
        status_message,
        last_pushed_timestamp: cursor.last_pushed_timestamp,
        last_run_at: cursor.last_run_at,
        last_error: clone_opt_string(&cursor.last_error),
    }
}

/// A job with its status and its latest log lines.
#[derive(Debug, PartialEq, Eq)]
pub struct JobDetail {
    pub summary: JobStatusSummary,
    pub recent_logs: Vec<crate::job_logs::JobLogEntry>,
}

/// The detail of `job`: its summary (see [`build_job_summary`]) and the log
/// lines `recent_logs`, read from its log, as they are.
pub fn build_job_detail(
    job: &JobConfig,
    cursor: &JobCursor,
    is_running: bool,
    recent_logs: Vec<crate::job_logs::JobLogEntry>,
) -> (res: JobDetail)
    ensures
        res.summary.id@ == job.id@ && res.summary.name@ == job.name@ && res.summary.enabled == job.enabled,
        res.summary.file_path@ == job.file_path@ && res.summary.schedule_minutes == job.schedule_minutes,
        res.summary.file_config@ == job.file_config@,
        crate::models::mappings_view(res.summary.column_mappings@) == crate::models::mappings_view(
            job.column_mappings@,
        ),
        res.summary.status == job_status(job.enabled, cursor@, is_running).0,
        res.summary.status_message@ == job_status(job.enabled, cursor@, is_running).1,
        res.summary.last_pushed_timestamp == cursor.last_pushed_timestamp,
        res.summary.last_run_at == cursor.last_run_at,
        opt_view(res.summary.last_error) == opt_view(cursor.last_error),
        res.recent_logs@ == recent_logs@,
{
    JobDetail { summary: build_job_summary(job, cursor, is_running), recent_logs }
}

/// The answer to a request to run a job now.
pub fn run_job_response(started: bool) -> (res: ActionResponse)
    ensures
        res.ok,
        res.message@ == if started {
            "Job started."@
        } else {
            "Job is already running."@
        },
{
    if started {
        ActionResponse { ok: true, message: owned("Job started.") }
    } else {
        ActionResponse { ok: true, message: owned("Job is already running.") }
    }
}

/// Whether one of the first `n` ids is `id`.
pub open spec fn has_id(ids: Seq<String>, n: int, id: Seq<char>) -> bool {
    exists|k: int| 0 <= k < n && k < ids.len() && (#[trigger] ids[k])@ == id
}

/// The jobs the app is running right now.
pub struct RunningJobs {
    ids: Vec<String>,
}

impl View for RunningJobs {
    type V = Set<Seq<char>>;

    closed spec fn view(&self) -> Set<Seq<char>> {
        Set::new(|id: Seq<char>| has_id(self.ids@, self.ids@.len() as int, id))
    }
}

impl RunningJobs {
    pub fn new() -> (res: RunningJobs)
        ensures
            res@ == Set::<Seq<char>>::empty(),
    {
        let res = RunningJobs { ids: Vec::new() };
        assert(res@ =~= Set::<Seq<char>>::empty());
        res
    }

    fn position(&self, job_id: &str) -> (res: usize)
        ensures
            res <= self.ids@.len(),
            res < self.ids@.len() ==> self.ids@[res as int]@ == job_id@,
            res == self.ids@.len() ==> !self@.contains(job_id@),
    {
        for i in 0..self.ids.len()
            invariant
                forall|k: int| 0 <= k < i ==> (#[trigger] self.ids@[k])@ != job_id@,
        {
            if str_eq(self.ids[i].as_str(), job_id) {
                return i;
            }
        }
        self.ids.len()
    }

    pub fn is_running(&self, job_id: &str) -> (res: bool)
        ensures
            res == self@.contains(job_id@),
    {
        self.position(job_id) < self.ids.len()
    }

    /// Marks a job as running; `false` when it already was.
    pub fn mark(&mut self, job_id: &str) -> (res: bool)
        ensures
            res == !old(self)@.contains(job_id@),
            final(self)@ == old(self)@.insert(job_id@),
    {
        if self.position(job_id) < self.ids.len() {
            assert(old(self)@.insert(job_id@) =~= old(self)@);
            return false;
        }
        let ghost before = self@;
        let ghost old_ids = self.ids@;
        self.ids.push(owned(job_id));
        assert forall|id: Seq<char>| #[trigger] self@.contains(id) <==> before.insert(job_id@).contains(id) by {
            if has_id(old_ids, old_ids.len() as int, id) {
                let k = choose|k: int| 0 <= k < old_ids.len() && k < old_ids.len() && (#[trigger] old_ids[k])@ == id;
                assert(self.ids@[k] == old_ids[k]);
            }
            if id == job_id@ {
                assert(self.ids@[old_ids.len() as int]@ == id);
            }
            if has_id(self.ids@, self.ids@.len() as int, id) && id != job_id@ {
                let k = choose|k: int| 0 <= k < self.ids@.len() && k < self.ids@.len() && (#[trigger] self.ids@[k])@ == id;
                assert(k < old_ids.len());
                assert(old_ids[k] == self.ids@[k]);
            }
        }
        assert(self@ =~= before.insert(job_id@));
        true
    }

    /// Marks a job as no longer running.
    pub fn clear(&mut self, job_id: &str)
        ensures
            final(self)@ == old(self)@.remove(job_id@),
    {
        let ghost before = self@;
        let ghost old_ids = self.ids@;
        let mut kept: Vec<String> = Vec::new();
        for i in 0..self.ids.len()
            invariant
                old_ids == self.ids@,
                forall|k: int| 0 <= k < kept@.len() ==> (#[trigger] kept@[k])@ != job_id@,
                forall|id: Seq<char>| id != job_id@ ==> (#[trigger] has_id(kept@, kept@.len() as int, id) <==> has_id(old_ids, i as int, id)),
        {
            let ghost kb = kept@;
            if !str_eq(self.ids[i].as_str(), job_id) {
                kept.push(self.ids[i].clone());
            }
            assert forall|id: Seq<char>| id != job_id@ implies (#[trigger] has_id(kept@, kept@.len() as int, id) <==> has_id(old_ids, i + 1, id)) by {
                if has_id(old_ids, i + 1, id) {
                    let k = choose|k: int| 0 <= k < i + 1 && k < old_ids.len() && (#[trigger] old_ids[k])@ == id;
                    if k == i {
                        assert(kept@[kb.len() as int]@ == id);
                    } else {
                        assert(has_id(old_ids, i as int, id));
                        assert(has_id(kb, kb.len() as int, id));
                        let k2 = choose|k2: int| 0 <= k2 < kb.len() && k2 < kb.len() && (#[trigger] kb[k2])@ == id;
                        assert(kept@[k2] == kb[k2]);
                    }
                }
                if has_id(kept@, kept@.len() as int, id) {
                    let k = choose|k: int| 0 <= k < kept@.len() && k < kept@.len() && (#[trigger] kept@[k])@ == id;
                    if k < kb.len() {
                        assert(kb[k] == kept@[k]);
                        assert(has_id(kb, kb.len() as int, id));
                    } else {
                        assert(old_ids[i as int]@ == id);
                    }
                }
            }
        }
        self.ids = kept;
        assert forall|id: Seq<char>| #[trigger] self@.contains(id) <==> before.remove(job_id@).contains(id) by {
            if id == job_id@ {
                if has_id(self.ids@, self.ids@.len() as int, id) {
                    let k = choose|k: int| 0 <= k < self.ids@.len() && k < self.ids@.len() && (#[trigger] self.ids@[k])@ == id;
                }
            }
        }
        assert(self@ =~= before.remove(job_id@));
    }
}

/// The app's folder names under `d` (the development name only in
/// development builds).
pub open spec fn app_name_dirs(d: Seq<char>, debug_build: bool, separator: char) -> Seq<Seq<char>> {
    if debug_build {
        seq![joined(d, "Streaming Data Loader"@, separator), joined(d, "Streaming Data Loader Dev"@, separator)]
    } else {
        seq![joined(d, "Streaming Data Loader"@, separator)]
    }
}

pub open spec fn legacy_data_dirs(data_dir: Option<Seq<char>>, separator: char) -> Seq<Seq<char>> {
    match data_dir {
        Some(d) => seq![
            joined(d, "com.streaming-data-loader.app"@, separator),
            joined(d, "com.streaming-data-loader"@, separator),
        ],
        None => Seq::empty(),
    }
}

pub open spec fn opt_app_name_dirs(d: Option<Seq<char>>, debug_build: bool, separator: char) -> Seq<Seq<char>> {
    match d {
        Some(d) => app_name_dirs(d, debug_build, separator),
        None => Seq::empty(),
    }
}

pub open spec fn working_dirs(current_dir: Option<Seq<char>>, separator: char) -> Seq<Seq<char>> {
    match current_dir {
        Some(d) => seq![joined(d, "Streaming Data Loader Data"@, separator)],
        None => Seq::empty(),
    }
}

/// Where the app's state may still lie from former installs, in the order they are
/// tried: under the data folder by both bundle identifiers, under the
/// documents folder by the app's folder names, in the working folder, and
/// under the home folder by the app's folder names.
pub open spec fn legacy_candidates(
    data_dir: Option<Seq<char>>,
    document_dir: Option<Seq<char>>,
    current_dir: Option<Seq<char>>,
    home_dir: Option<Seq<char>>,
    debug_build: bool,
    separator: char,
) -> Seq<Seq<char>> {
    legacy_data_dirs(data_dir, separator) + opt_app_name_dirs(document_dir, debug_build, separator) + working_dirs(
        current_dir,
        separator,
    ) + opt_app_name_dirs(home_dir, debug_build, separator)
}

fn push_app_names(out: &mut Vec<String>, dir: &str, debug_build: bool, separator: char)
    ensures
        final(out)@.map_values(|p: String| p@) == old(out)@.map_values(|p: String| p@) + app_name_dirs(
            dir@,
            debug_build,
            separator,
        ),
{
    proof {
        reveal_strlit("Streaming Data Loader");
        reveal_strlit("Streaming Data Loader Dev");
    }
    let ghost before = out@.map_values(|p: String| p@);
    out.push(join_path(dir, crate::service_paths::APP_DIRECTORY_NAME, separator));
    if debug_build {
        out.push(join_path(dir, crate::service_paths::DEV_APP_DIRECTORY_NAME, separator));
    }
    assert(out@.map_values(|p: String| p@) =~= before + app_name_dirs(dir@, debug_build, separator));
}

pub fn legacy_config_candidates(
    data_dir: Option<String>,
    document_dir: Option<String>,
    current_dir: Option<String>,
    home_dir: Option<String>,
    debug_build: bool,
    separator: char,
) -> (res: Vec<String>)
    ensures
        res@.map_values(|p: String| p@) == legacy_candidates(
            opt_view(data_dir),
            opt_view(document_dir),
            opt_view(current_dir),
            opt_view(home_dir),
            debug_build,
            separator,
        ),
{
    proof {
        reveal_strlit("com.streaming-data-loader.app");
        reveal_strlit("com.streaming-data-loader");
        reveal_strlit("Streaming Data Loader Data");
    }
    let mut out: Vec<String> = Vec::new();
    let ghost s0 = out@.map_values(|p: String| p@);
    assert(s0 =~= Seq::<Seq<char>>::empty());
    if let Some(d) = &data_dir {
        out.push(join_path(d.as_str(), LEGACY_BUNDLE_IDENTIFIER, separator));
        out.push(join_path(d.as_str(), BUNDLE_IDENTIFIER, separator));
    }
    let ghost s1 = out@.map_values(|p: String| p@);
    assert(s1 =~= legacy_data_dirs(opt_view(data_dir), separator));
    if let Some(d) = &document_dir {
        push_app_names(&mut out, d.as_str(), debug_build, separator);
    }
    let ghost s2 = out@.map_values(|p: String| p@);
    assert(s2 =~= s1 + opt_app_name_dirs(opt_view(document_dir), debug_build, separator));
    if let Some(d) = &current_dir {
        out.push(join_path(d.as_str(), "Streaming Data Loader Data", separator));
    }
    let ghost s3 = out@.map_values(|p: String| p@);
    assert(s3 =~= s2 + working_dirs(opt_view(current_dir), separator));
    if let Some(d) = &home_dir {
        push_app_names(&mut out, d.as_str(), debug_build, separator);
    }
    assert(out@.map_values(|p: String| p@) =~= s3 + opt_app_name_dirs(opt_view(home_dir), debug_build, separator));
    assert(out@.map_values(|p: String| p@) =~= legacy_candidates(
        opt_view(data_dir),
        opt_view(document_dir),
        opt_view(current_dir),
        opt_view(home_dir),
        debug_build,
        separator,
    ));
    out
}

/// The folder to migrate the app's state from into `target`: none when
/// `target` already holds state, else the first candidate other than
/// `target` that holds state (`.1`).
pub fn migration_source(target_has_state: bool, candidates: &Vec<(String, bool)>, target: &str) -> (res: Option<String>)
    ensures
        ({
            let cv = candidates@.map_values(|c: (String, bool)| (c.0@, c.1));
            match res {
                None => target_has_state || forall|k: int| 0 <= k < cv.len() ==> !(cv[k].0 != target@ && #[trigger] cv[k].1),
                Some(p) => !target_has_state && exists|k: int|
                    0 <= k < cv.len() && #[trigger] cv[k].1 && cv[k].0 != target@ && p@ == cv[k].0 && forall|j: int|
                        0 <= j < k ==> !(cv[j].0 != target@ && cv[j].1),
            }
        }),
{
    let ghost cv = candidates@.map_values(|c: (String, bool)| (c.0@, c.1));
    if target_has_state {
        return None;
    }
    for i in 0..candidates.len()
        invariant
            !target_has_state,
            cv == candidates@.map_values(|c: (String, bool)| (c.0@, c.1)),
            forall|j: int| 0 <= j < i ==> !(cv[j].0 != target@ && #[trigger] cv[j].1),
    {
        if candidates[i].1 && !str_eq(candidates[i].0.as_str(), target) {
            assert(cv[i as int] == (candidates@[i as int].0@, candidates@[i as int].1));
            let found = candidates[i].0.clone();
            assert(cv[i as int].1 && cv[i as int].0 != target@ && found@ == cv[i as int].0);
            return Some(found);
        }
        assert(cv[i as int] == (candidates@[i as int].0@, candidates@[i as int].1));
    }
    None
}

} // verus!
