//! The configuration store: the server settings and, for each workspace, the
//! jobs it holds with their upload cursors. The store keeps the state in
//! memory; reading and writing its files is left to the caller.
use vstd::prelude::*;

use crate::models::{
    AuthType, JobConfig, JobConfigView, JobSettingsView, JobUpsertRequest, ServerConfig, ServerConfigView,
    UtcDateTime, dt_max, dt_max_exec, opt_view,
};
use crate::records::{
    aggregate_row, row_of, cursor_keys, cursors_view, empty_cursor, find_cursor, find_key, fresh_job_cursor,
    lemma_find_key, lemma_find_key_unique, lookup_cursor, recompute_job_aggregates,
    upsert_cursor, with_aggregates, DatastreamCursor, DatastreamCursorView, JobCursor,
    JobCursorView, PersistedDatasource, PersistedDatasourceView,
};
use crate::models::owned;
use crate::text::{is_blank, lemma_trim_idempotent, str_eq, trim, trim_str};

verus! {

// ---------------------------------------------------------------------------
// Workspaces
// ---------------------------------------------------------------------------
/// The jobs of one HydroServer workspace.
#[derive(Debug, PartialEq, Eq)]
pub struct WorkspaceStateFile {
    pub version: u32,
    pub workspace_id: String,
    pub workspace_name: String,
    pub hydroserver_url: String,
    pub datasources: Vec<PersistedDatasource>,
}

pub struct WorkspaceView {
    pub version: u32,
    pub workspace_id: Seq<char>,
    pub workspace_name: Seq<char>,
    pub hydroserver_url: Seq<char>,
    pub datasources: Seq<PersistedDatasourceView>,
}

pub open spec fn datasources_view(ds: Seq<PersistedDatasource>) -> Seq<PersistedDatasourceView> {
    ds.map_values(|d: PersistedDatasource| d@)
}

impl View for WorkspaceStateFile {
    type V = WorkspaceView;

    open spec fn view(&self) -> WorkspaceView {
        WorkspaceView {
            version: self.version,
            workspace_id: self.workspace_id@,
            workspace_name: self.workspace_name@,
            hydroserver_url: self.hydroserver_url@,
            datasources: datasources_view(self.datasources@),
        }
    }
}

pub open spec fn workspaces_view(ws: Seq<WorkspaceStateFile>) -> Seq<WorkspaceView> {
    ws.map_values(|w: WorkspaceStateFile| w@)
}

/// The ids of a list of workspaces.
pub open spec fn workspace_keys(ws: Seq<WorkspaceView>) -> Seq<Seq<char>> {
    ws.map_values(|w: WorkspaceView| w.workspace_id)
}

/// The job ids of a list of datasources.
pub open spec fn datasource_keys(ds: Seq<PersistedDatasourceView>) -> Seq<Seq<char>> {
    ds.map_values(|d: PersistedDatasourceView| d.job.id)
}

/// `ws` after making sure that a workspace with id `trim(id)` exists: an
/// existing one takes the trimmed name and URL where they are not blank, a new
/// one is appended with no jobs. A blank id changes nothing.
pub open spec fn ensure_workspace(
    ws: Seq<WorkspaceView>,
    id: Seq<char>,
    name: Seq<char>,
    url: Seq<char>,
) -> Seq<WorkspaceView> {
    let key = trim(id);
    let i = find_key(workspace_keys(ws), key);
    if key.len() == 0 {
        ws
    } else if i < ws.len() {
        ws.update(
            i,
            WorkspaceView {
                workspace_name: if trim(name).len() > 0 {
                    trim(name)
                } else {
                    ws[i].workspace_name
                },
                hydroserver_url: if trim(url).len() > 0 {
                    trim(url)
                } else {
                    ws[i].hydroserver_url
                },
                ..ws[i]
            },
        )
    } else {
        ws.push(
            WorkspaceView {
                version: 1,
                workspace_id: key,
                workspace_name: trim(name),
                hydroserver_url: trim(url),
                datasources: Seq::empty(),
            },
        )
    }
}

// ---------------------------------------------------------------------------
// Application configuration
// ---------------------------------------------------------------------------
#[derive(Debug, PartialEq, Eq)]
pub struct AppConfig {
    pub version: u32,
    pub server: ServerConfig,
    pub jobs: Vec<JobConfig>,
    pub launch_at_login_initialized: bool,
}

pub struct AppConfigView {
    pub version: u32,
    pub server: ServerConfigView,
    pub jobs: Seq<JobConfigView>,
    pub launch_at_login_initialized: bool,
}

pub open spec fn jobs_view(js: Seq<JobConfig>) -> Seq<JobConfigView> {
    js.map_values(|j: JobConfig| j@)
}

impl View for AppConfig {
    type V = AppConfigView;

    open spec fn view(&self) -> AppConfigView {
        AppConfigView {
            version: self.version,
            server: self.server@,
            jobs: jobs_view(self.jobs@),
            launch_at_login_initialized: self.launch_at_login_initialized,
        }
    }
}

/// The server settings of a fresh installation.
pub open spec fn default_server() -> ServerConfigView {
    ServerConfigView {
        auth_type: AuthType::Apikey,
        url: Seq::empty(),
        api_key: Seq::empty(),
        username: Seq::empty(),
        password: Seq::empty(),
        workspace_id: Seq::empty(),
        workspace_name: Seq::empty(),
    }
}

// ---------------------------------------------------------------------------
// The store
// ---------------------------------------------------------------------------
pub struct ConfigStore {
    config_dir: String,
    version: u32,
    server: ServerConfig,
    launch_at_login_initialized: bool,
    workspaces: Vec<WorkspaceStateFile>,
}

pub struct ConfigStoreView {
    pub config_dir: Seq<char>,
    pub version: u32,
    pub server: ServerConfigView,
    pub launch_at_login_initialized: bool,
    pub workspaces: Seq<WorkspaceView>,
}

impl View for ConfigStore {
    type V = ConfigStoreView;

    closed spec fn view(&self) -> ConfigStoreView {
        ConfigStoreView {
            config_dir: self.config_dir@,
            version: self.version,
            server: self.server@,
            launch_at_login_initialized: self.launch_at_login_initialized,
            workspaces: workspaces_view(self.workspaces@),
        }
    }
}

pub open spec fn msg_no_active_workspace() -> Seq<char> {
    "No active workspace is configured."@
}

impl ConfigStoreView {
    /// The id of the workspace the server settings select.
    pub open spec fn active_key(self) -> Seq<char> {
        trim(self.server.workspace_id)
    }

    /// The index of the active workspace, or `workspaces.len()` when there is
    /// none.
    pub open spec fn active_index(self) -> int {
        if self.active_key().len() == 0 {
            self.workspaces.len() as int
        } else {
            find_key(workspace_keys(self.workspaces), self.active_key())
        }
    }

    pub open spec fn has_active(self) -> bool {
        self.active_index() < self.workspaces.len()
    }

    /// The jobs of the active workspace.
    pub open spec fn active_datasources(self) -> Seq<PersistedDatasourceView> {
        if self.has_active() {
            self.workspaces[self.active_index()].datasources
        } else {
            Seq::empty()
        }
    }

    pub open spec fn active_jobs(self) -> Seq<JobConfigView> {
        self.active_datasources().map_values(|d: PersistedDatasourceView| d.job)
    }

    /// The index of the first active job with id `job_id`.
    pub open spec fn job_index(self, job_id: Seq<char>) -> int {
        find_key(datasource_keys(self.active_datasources()), job_id)
    }

    pub open spec fn find_job(self, job_id: Seq<char>) -> Option<PersistedDatasourceView> {
        let d = self.job_index(job_id);
        if d < self.active_datasources().len() {
            Some(self.active_datasources()[d])
        } else {
            None
        }
    }

    /// The configuration that `load` gives.
    pub open spec fn config(self) -> AppConfigView {
        AppConfigView {
            version: self.version,
            server: self.server,
            jobs: self.active_jobs(),
            launch_at_login_initialized: self.launch_at_login_initialized,
        }
    }

    /// The store with the active workspace's jobs replaced by `ds`.
    pub open spec fn with_active_datasources(self, ds: Seq<PersistedDatasourceView>) -> Self {
        ConfigStoreView {
            workspaces: self.workspaces.update(
                self.active_index(),
                WorkspaceView { datasources: ds, ..self.workspaces[self.active_index()] },
            ),
            ..self
        }
    }

    /// The store with job `d` of the active workspace replaced by `v`.
    pub open spec fn with_job(self, d: int, v: PersistedDatasourceView) -> Self {
        self.with_active_datasources(self.active_datasources().update(d, v))
    }

    /// The store after the active workspace is made sure to exist.
    pub open spec fn ensured(self) -> Self {
        ConfigStoreView {
            workspaces: ensure_workspace(
                self.workspaces,
                self.server.workspace_id,
                Seq::empty(),
                self.server.url,
            ),
            ..self
        }
    }

    /// The store with `f` applied to the job `job_id` of the active workspace,
    /// or unchanged when there is no such job.
    pub open spec fn update_job_with(
        self,
        job_id: Seq<char>,
        v: PersistedDatasourceView,
    ) -> Self {
        let d = self.job_index(job_id);
        if self.has_active() && d < self.active_datasources().len() {
            self.with_job(d, v)
        } else {
            self
        }
    }
}

/// The cursor of a datastream after a successful upload up to `row` and `ts`.
pub open spec fn after_success(
    c: Option<DatastreamCursorView>,
    row: u64,
    ts: UtcDateTime,
) -> DatastreamCursorView {
    let c = match c {
        Some(c) => c,
        None => empty_cursor(),
    };
    DatastreamCursorView {
        last_pushed_row_index: Some(
            match c.last_pushed_row_index {
                Some(r) => if r >= row {
                    r
                } else {
                    row
                },
                None => row,
            },
        ),
        last_pushed_timestamp: Some(
            match c.last_pushed_timestamp {
                Some(t) => dt_max(t, ts),
                None => ts,
            },
        ),
        last_error: None,
    }
}

/// The cursor of a datastream after a failed upload with `message`.
pub open spec fn after_failure(c: Option<DatastreamCursorView>, message: Seq<char>) -> DatastreamCursorView {
    let c = match c {
        Some(c) => c,
        None => empty_cursor(),
    };
    DatastreamCursorView { last_error: Some(message), ..c }
}

/// A job after a successful upload of datastream `ds_id`.
pub open spec fn job_after_success(
    d: PersistedDatasourceView,
    ds_id: Seq<char>,
    row: u64,
    ts: UtcDateTime,
    run_at: UtcDateTime,
) -> PersistedDatasourceView {
    let cs = d.cursor.datastream_cursors;
    with_aggregates(
        PersistedDatasourceView {
            cursor: JobCursorView {
                datastream_cursors: upsert_cursor(
                    cs,
                    ds_id,
                    after_success(lookup_cursor(cs, ds_id), row, ts),
                ),
                last_run_at: Some(run_at),
                ..d.cursor
            },
            ..d
        },
    )
}

/// A job after a failed upload of datastream `ds_id`.
pub open spec fn job_after_failure(
    d: PersistedDatasourceView,
    ds_id: Seq<char>,
    message: Seq<char>,
    run_at: UtcDateTime,
) -> PersistedDatasourceView {
    let cs = d.cursor.datastream_cursors;
    with_aggregates(
        PersistedDatasourceView {
            cursor: JobCursorView {
                datastream_cursors: upsert_cursor(cs, ds_id, after_failure(lookup_cursor(cs, ds_id), message)),
                last_run_at: Some(run_at),
                ..d.cursor
            },
            ..d
        },
    )
}

/// The index of the first workspace with id `key`, or `ws.len()`.
fn find_workspace(ws: &Vec<WorkspaceStateFile>, key: &str) -> (res: usize)
    ensures
        res == find_key(workspace_keys(workspaces_view(ws@)), key@),
        res <= ws@.len(),
{
    let ghost keys = workspace_keys(workspaces_view(ws@));
    let mut i: usize = 0;
    while i < ws.len()
        invariant
            i <= ws@.len(),
            keys == workspace_keys(workspaces_view(ws@)),
            keys.len() == ws@.len(),
            forall|j: int| 0 <= j < i ==> keys[j] != key@,
        decreases ws@.len() - i,
    {
        assert(keys[i as int] == ws@[i as int].workspace_id@);
        if str_eq(ws[i].workspace_id.as_str(), key) {
            proof {
                lemma_find_key_unique(keys, key@, i as int);
            }
            return i;
        }
        i = i + 1;
    }
    proof {
        lemma_find_key_unique(keys, key@, i as int);
    }
    i
}

/// The index of the first datasource with id `id`, or `ds.len()`.
fn find_datasource(ds: &Vec<PersistedDatasource>, id: &str) -> (res: usize)
    ensures
        res == find_key(datasource_keys(datasources_view(ds@)), id@),
        res <= ds@.len(),
{
    let ghost keys = datasource_keys(datasources_view(ds@));
    let mut i: usize = 0;
    while i < ds.len()
        invariant
            i <= ds@.len(),
            keys == datasource_keys(datasources_view(ds@)),
            keys.len() == ds@.len(),
            forall|j: int| 0 <= j < i ==> keys[j] != id@,
        decreases ds@.len() - i,
    {
        assert(keys[i as int] == ds@[i as int].id@);
        if str_eq(ds[i].id.as_str(), id) {
            proof {
                lemma_find_key_unique(keys, id@, i as int);
            }
            return i;
        }
        i = i + 1;
    }
    proof {
        lemma_find_key_unique(keys, id@, i as int);
    }
    i
}

impl ConfigStore {
    /// The index of the active workspace, or `workspaces.len()`.
    fn active_index(&self) -> (res: usize)
        ensures
            res == self@.active_index(),
            res <= self.workspaces@.len(),
    {
        let key = trim_str(self.server.workspace_id.as_str());
        if key.as_str().is_empty() {
            self.workspaces.len()
        } else {
            find_workspace(&self.workspaces, key.as_str())
        }
    }

    /// The active workspace's index and the index of its job `job_id`, when
    /// both exist.
    fn locate(&self, job_id: &str) -> (res: Option<(usize, usize)>)
        ensures
            match res {
                Some((w, d)) => {
                    &&& self@.has_active()
                    &&& w == self@.active_index()
                    &&& d == self@.job_index(job_id@)
                    &&& d < self@.active_datasources().len()
                },
                None => !self@.has_active() || self@.job_index(job_id@) >= self@.active_datasources().len(),
            },
    {
        let w = self.active_index();
        if w >= self.workspaces.len() {
            return None;
        }
        let d = find_datasource(&self.workspaces[w].datasources, job_id);
        if d < self.workspaces[w].datasources.len() {
            Some((w, d))
        } else {
            None
        }
    }

    /// Replaces job `d` of the active workspace (at index `w`) by `ds`.
    fn set_datasource(&mut self, w: usize, d: usize, ds: PersistedDatasource)
        requires
            old(self)@.has_active(),
            w == old(self)@.active_index(),
            d < old(self)@.active_datasources().len(),
        ensures
            final(self)@ == old(self)@.with_job(d as int, ds@),
    {
        let ghost old_ws = self.workspaces@;
        let ghost v = ds@;
        let mut workspace = self.workspaces.remove(w);
        let ghost old_ds = workspace.datasources@;
        let _previous = workspace.datasources.remove(d);
        workspace.datasources.insert(d, ds);
        proof {
            assert(datasources_view(workspace.datasources@) =~= datasources_view(old_ds).update(
                d as int,
                v,
            ));
        }
        self.workspaces.insert(w, workspace);
        proof {
            assert(workspaces_view(self.workspaces@) =~= workspaces_view(old_ws).update(
                w as int,
                workspace@,
            ));
        }
    }

    /// Replaces the jobs of the active workspace (at index `w`) by `ds`.
    fn set_datasources(&mut self, w: usize, ds: Vec<PersistedDatasource>)
        requires
            old(self)@.has_active(),
            w == old(self)@.active_index(),
        ensures
            final(self)@ == old(self)@.with_active_datasources(datasources_view(ds@)),
    {
        let ghost old_ws = self.workspaces@;
        let mut workspace = self.workspaces.remove(w);
        workspace.datasources = ds;
        self.workspaces.insert(w, workspace);
        proof {
            assert(workspaces_view(self.workspaces@) =~= workspaces_view(old_ws).update(
                w as int,
                workspace@,
            ));
        }
    }

    /// Makes sure a workspace with id `trim(id)` exists (`ensure_workspace`).
    fn ensure_workspace_file(&mut self, id: &str, name: &str, url: &str)
        ensures
            final(self)@ == (ConfigStoreView {
                workspaces: ensure_workspace(old(self)@.workspaces, id@, name@, url@),
                ..old(self)@
            }),
    {
        let key = trim_str(id);
        if key.as_str().is_empty() {
            return;
        }
        let ghost old_ws = self.workspaces@;
        let i = find_workspace(&self.workspaces, key.as_str());
        if i < self.workspaces.len() {
            let mut workspace = self.workspaces.remove(i);
            if !is_blank(name) {
                workspace.workspace_name = trim_str(name);
            }
            if !is_blank(url) {
                workspace.hydroserver_url = trim_str(url);
            }
            self.workspaces.insert(i, workspace);
            proof {
                assert(workspaces_view(self.workspaces@) =~= ensure_workspace(
                    workspaces_view(old_ws),
                    id@,
                    name@,
                    url@,
                ));
            }
        } else {
            let workspace = WorkspaceStateFile {
                version: 1,
                workspace_id: key,
                workspace_name: trim_str(name),
                hydroserver_url: trim_str(url),
                datasources: Vec::new(),
            };
            assert(datasources_view(workspace.datasources@) =~= Seq::empty());
            self.workspaces.push(workspace);
            proof {
                assert(workspaces_view(self.workspaces@) =~= ensure_workspace(
                    workspaces_view(old_ws),
                    id@,
                    name@,
                    url@,
                ));
            }
        }
    }
}

/// Making sure the active workspace exists leaves a workspace to work in
/// exactly when the server settings name one, and keeps the jobs of a
/// workspace that already existed.
pub proof fn lemma_ensured_active(v: ConfigStoreView)
    ensures
        v.ensured().active_key() == v.active_key(),
        v.ensured().has_active() == (v.active_key().len() > 0),
        v.active_key().len() > 0 ==> v.ensured().active_datasources() == v.active_datasources(),
        v.active_key().len() > 0 ==> v.ensured().active_index() == (if v.has_active() {
            v.active_index()
        } else {
            v.workspaces.len() as int
        }),
{
    let key = v.active_key();
    let keys = workspace_keys(v.workspaces);
    let e = v.ensured();
    if key.len() > 0 {
        lemma_find_key(keys, key);
        lemma_trim_idempotent(v.server.workspace_id);
        let i = find_key(keys, key);
        let keys2 = workspace_keys(e.workspaces);
        if i < v.workspaces.len() {
            assert(keys2 =~= keys);
        } else {
            assert(keys2 =~= keys.push(key));
            lemma_find_key_unique(keys2, key, keys.len() as int);
            assert(e.workspaces[keys.len() as int].datasources =~= Seq::empty());
        }
    }
}

proof fn lemma_default_server(v: ServerConfigView)
    requires
        v.auth_type == AuthType::Apikey,
        v.url.len() == 0,
        v.api_key.len() == 0,
        v.username.len() == 0,
        v.password.len() == 0,
        v.workspace_id.len() == 0,
        v.workspace_name.len() == 0,
    ensures
        v == default_server(),
{
    assert(v.url =~= Seq::empty());
    assert(v.api_key =~= Seq::empty());
    assert(v.username =~= Seq::empty());
    assert(v.password =~= Seq::empty());
    assert(v.workspace_id =~= Seq::empty());
    assert(v.workspace_name =~= Seq::empty());
}

/// `ds` without the jobs with id `id`, the others kept in order.
pub open spec fn without_job(ds: Seq<PersistedDatasourceView>, id: Seq<char>) -> Seq<PersistedDatasourceView>
    decreases ds.len(),
{
    if ds.len() == 0 {
        ds
    } else if ds.last().job.id == id {
        without_job(ds.drop_last(), id)
    } else {
        without_job(ds.drop_last(), id).push(ds.last())
    }
}

/// Every job of `ds` marked as not running.
pub open spec fn all_stopped(ds: Seq<PersistedDatasourceView>) -> Seq<PersistedDatasourceView> {
    ds.map_values(
        |d: PersistedDatasourceView|
            PersistedDatasourceView { cursor: JobCursorView { is_running: false, ..d.cursor }, ..d },
    )
}

/// The cursor of a datastream after a successful upload.
fn success_cursor(c: DatastreamCursor, row: u64, ts: UtcDateTime) -> (res: DatastreamCursor)
    ensures
        res@ == after_success(Some(c@), row, ts),
{
    DatastreamCursor {
        last_pushed_row_index: Some(
            match c.last_pushed_row_index {
                Some(r) => if r >= row {
                    r
                } else {
                    row
                },
                None => row,
            },
        ),
        last_pushed_timestamp: Some(
            match c.last_pushed_timestamp {
                Some(t) => dt_max_exec(t, ts),
                None => ts,
            },
        ),
        last_error: None,
    }
}

/// Applies a successful upload of datastream `id` to a list of cursors.
fn record_success_in(cs: &mut Vec<(String, DatastreamCursor)>, id: &str, row: u64, ts: UtcDateTime)
    ensures
        cursors_view(final(cs)@) == upsert_cursor(
            cursors_view(old(cs)@),
            id@,
            after_success(lookup_cursor(cursors_view(old(cs)@), id@), row, ts),
        ),
{
    let ghost old_cs = cs@;
    let k = find_cursor(cs, id);
    assert(cursor_keys(cursors_view(old_cs)).len() == old_cs.len());
    if k < cs.len() {
        proof {
            lemma_find_key(cursor_keys(cursors_view(old_cs)), id@);
            assert(cursor_keys(cursors_view(old_cs))[k as int] == old_cs[k as int].0@);
        }
        let (key, c) = cs.remove(k);
        cs.insert(k, (key, success_cursor(c, row, ts)));
        assert(cursors_view(cs@) =~= upsert_cursor(
            cursors_view(old_cs),
            id@,
            after_success(lookup_cursor(cursors_view(old_cs), id@), row, ts),
        ));
    } else {
        cs.push((owned(id), success_cursor(DatastreamCursor::empty(), row, ts)));
        assert(cursors_view(cs@) =~= upsert_cursor(
            cursors_view(old_cs),
            id@,
            after_success(lookup_cursor(cursors_view(old_cs), id@), row, ts),
        ));
    }
}

/// Applies a failed upload of datastream `id` to a list of cursors.
fn record_failure_in(cs: &mut Vec<(String, DatastreamCursor)>, id: &str, message: &str)
    ensures
        cursors_view(final(cs)@) == upsert_cursor(
            cursors_view(old(cs)@),
            id@,
            after_failure(lookup_cursor(cursors_view(old(cs)@), id@), message@),
        ),
{
    let ghost old_cs = cs@;
    let k = find_cursor(cs, id);
    assert(cursor_keys(cursors_view(old_cs)).len() == old_cs.len());
    if k < cs.len() {
        proof {
            lemma_find_key(cursor_keys(cursors_view(old_cs)), id@);
            assert(cursor_keys(cursors_view(old_cs))[k as int] == old_cs[k as int].0@);
        }
        let (key, mut c) = cs.remove(k);
        c.last_error = Some(owned(message));
        cs.insert(k, (key, c));
        assert(cursors_view(cs@) =~= upsert_cursor(
            cursors_view(old_cs),
            id@,
            after_failure(lookup_cursor(cursors_view(old_cs), id@), message@),
        ));
    } else {
        let mut c = DatastreamCursor::empty();
        c.last_error = Some(owned(message));
        cs.push((owned(id), c));
        assert(cursors_view(cs@) =~= upsert_cursor(
            cursors_view(old_cs),
            id@,
            after_failure(lookup_cursor(cursors_view(old_cs), id@), message@),
        ));
    }
}

/// The store after a successful upload of datastream `datastream_id` of job
/// `job_id` (see [`job_after_success`]); unchanged when there is no such job.
pub open spec fn store_after_success(
    s: ConfigStoreView,
    job_id: Seq<char>,
    datastream_id: Seq<char>,
    max_row_index: u64,
    max_timestamp: UtcDateTime,
    last_run_at: UtcDateTime,
) -> ConfigStoreView {
    match s.find_job(job_id) {
        Some(v) => s.with_job(
            s.job_index(job_id),
            job_after_success(v, datastream_id, max_row_index, max_timestamp, last_run_at),
        ),
        None => s,
    }
}

/// The store after a failed upload of datastream `datastream_id` of job
/// `job_id` (see [`job_after_failure`]); unchanged when there is no such job.
pub open spec fn store_after_failure(
    s: ConfigStoreView,
    job_id: Seq<char>,
    datastream_id: Seq<char>,
    error_message: Seq<char>,
    last_run_at: UtcDateTime,
) -> ConfigStoreView {
    match s.find_job(job_id) {
        Some(v) => s.with_job(s.job_index(job_id), job_after_failure(v, datastream_id, error_message, last_run_at)),
        None => s,
    }
}

impl ConfigStore {
    /// An empty store for the configuration directory `config_dir`.
    pub fn new(config_dir: String) -> (res: ConfigStore)
        ensures
            res@ == (ConfigStoreView {
                config_dir: config_dir@,
                version: 1,
                server: default_server(),
                launch_at_login_initialized: false,
                workspaces: Seq::empty(),
            }),
    {
        let workspaces: Vec<WorkspaceStateFile> = Vec::new();
        let res = ConfigStore {
            config_dir,
            version: 1,
            server: ServerConfig::empty(),
            launch_at_login_initialized: false,
            workspaces,
        };
        assert(res@.workspaces =~= Seq::empty());
        proof {
            lemma_default_server(res@.server);
        }
        res
    }

    /// The jobs of the active workspace.
    fn active_jobs(&self) -> (res: Vec<JobConfig>)
        ensures
            jobs_view(res@) == self@.active_jobs(),
    {
        let mut out: Vec<JobConfig> = Vec::new();
        let w = self.active_index();
        if w < self.workspaces.len() {
            let ds = &self.workspaces[w].datasources;
            assert(datasources_view(ds@) == self@.active_datasources());
            for i in 0..ds.len()
                invariant
                    out@.len() == i,
                    i <= ds@.len(),
                    datasources_view(ds@) == self@.active_datasources(),
                    forall|k: int| 0 <= k < i ==> (#[trigger] out@[k])@ == ds@[k]@.job,
            {
                out.push(ds[i].to_job_config());
            }
            assert(jobs_view(out@) =~= self@.active_jobs());
        } else {
            assert(jobs_view(out@) =~= self@.active_jobs());
        }
        out
    }

    /// The configuration with the jobs of the active workspace.
    pub fn load(&self) -> (res: AppConfig)
        ensures
            res@ == self@.config(),
    {
        AppConfig {
            version: self.version,
            server: self.server.clone(),
            jobs: self.active_jobs(),
            launch_at_login_initialized: self.launch_at_login_initialized,
        }
    }

    /// Stores the normalized `server` settings and makes sure the workspace
    /// they select exists, named `workspace_name` where that is not blank.
    pub fn set_server(&mut self, server: ServerConfig, workspace_name: &str) -> (res: AppConfig)
        ensures
            final(self)@ == (ConfigStoreView {
                server: server@.normalized(),
                workspaces: ensure_workspace(
                    old(self)@.workspaces,
                    server@.normalized().workspace_id,
                    workspace_name@,
                    server@.normalized().url,
                ),
                ..old(self)@
            }),
            res@ == final(self)@.config(),
    {
        self.server = server.normalized();
        let id = self.server.workspace_id.clone();
        let url = self.server.url.clone();
        self.ensure_workspace_file(id.as_str(), workspace_name, url.as_str());
        self.load()
    }

    /// Forgets the server settings; the workspaces stay.
    pub fn clear_server(&mut self) -> (res: AppConfig)
        ensures
            final(self)@ == (ConfigStoreView { server: default_server(), ..old(self)@ }),
            res@ == final(self)@.config(),
            res@.jobs.len() == 0,
    {
        self.server = ServerConfig::empty();
        proof {
            lemma_default_server(self@.server);
        }
        self.load()
    }

    /// The jobs of the active workspace.
    pub fn list_jobs(&self) -> (res: Vec<JobConfig>)
        ensures
            jobs_view(res@) == self@.active_jobs(),
    {
        self.active_jobs()
    }

    /// The stored job `job_id`, with its cursor.
    pub fn get_persisted_datasource(&self, job_id: &str) -> (res: Option<PersistedDatasource>)
        ensures
            match (res, self@.find_job(job_id@)) {
                (Some(d), Some(v)) => d@ == v,
                (None, None) => true,
                _ => false,
            },
    {
        match self.locate(job_id) {
            Some((w, d)) => Some(self.workspaces[w].datasources[d].clone()),
            None => None,
        }
    }

    /// The configuration of job `job_id`.
    pub fn get_job(&self, job_id: &str) -> (res: Option<JobConfig>)
        ensures
            match (res, self@.find_job(job_id@)) {
                (Some(j), Some(v)) => j@ == v.job,
                (None, None) => true,
                _ => false,
            },
    {
        match self.locate(job_id) {
            Some((w, d)) => Some(self.workspaces[w].datasources[d].to_job_config()),
            None => None,
        }
    }

    /// Whether the active workspace holds job `job_id`.
    pub fn has_job(&self, job_id: &str) -> (res: bool)
        ensures
            res == self@.find_job(job_id@) is Some,
    {
        self.locate(job_id).is_some()
    }

    /// The cursor of job `job_id`, or a fresh one when there is no such job.
    pub fn cursor_for(&self, job_id: &str) -> (res: JobCursor)
        ensures
            res@ == match self@.find_job(job_id@) {
                Some(v) => v.cursor,
                None => fresh_job_cursor(),
            },
    {
        match self.locate(job_id) {
            Some((w, d)) => self.workspaces[w].datasources[d].to_cursor(),
            None => JobCursor::fresh(),
        }
    }

    /// Adds a job with id `job_id` and the normalized settings of `request`
    /// to the active workspace, creating that workspace if needed.
    pub fn create_job(&mut self, job_id: String, request: JobUpsertRequest) -> (res: Result<JobConfig, String>)
        ensures
            old(self)@.active_key().len() == 0 ==> final(self)@ == old(self)@ && match res {
                Err(e) => e@ == msg_no_active_workspace(),
                Ok(_) => false,
            },
            old(self)@.active_key().len() > 0 ==> match (res, request@.normalized()) {
                (Ok(j), Ok(v)) => {
                    &&& j@ == JobConfigView { id: job_id@, settings: v }
                    &&& final(self)@ == old(self)@.ensured().with_active_datasources(
                        old(self)@.ensured().active_datasources().push(
                            PersistedDatasourceView { job: j@, cursor: fresh_job_cursor() },
                        ),
                    )
                },
                (Err(e), Err(m)) => e@ == m && final(self)@ == old(self)@.ensured(),
                _ => false,
            },
    {
        proof {
            lemma_ensured_active(self@);
        }
        let id = self.server.workspace_id.clone();
        let url = self.server.url.clone();
        self.ensure_workspace_file(id.as_str(), "", url.as_str());
        proof {
            reveal_strlit("");
            assert(""@ =~= Seq::<char>::empty());
        }
        let w = self.active_index();
        if w >= self.workspaces.len() {
            return Err(owned("No active workspace is configured."));
        }
        let job = match JobConfig::from_request(job_id, request) {
            Ok(j) => j,
            Err(e) => return Err(e),
        };
        let ghost before = self@;
        let ghost old_ws = self.workspaces@;
        let mut workspace = self.workspaces.remove(w);
        let ghost old_ds = workspace.datasources@;
        workspace.datasources.push(PersistedDatasource::from_job(job.clone(), None));
        proof {
            assert(datasources_view(workspace.datasources@) =~= datasources_view(old_ds).push(
                PersistedDatasourceView { job: job@, cursor: fresh_job_cursor() },
            ));
        }
        self.workspaces.insert(w, workspace);
        proof {
            assert(workspaces_view(self.workspaces@) =~= workspaces_view(old_ws).update(
                w as int,
                workspace@,
            ));
        }
        Ok(job)
    }

    /// Replaces the settings of job `job_id` by the normalized `request`,
    /// keeping its cursor; `Ok(None)` when there is no such job.
    pub fn update_job(&mut self, job_id: &str, request: JobUpsertRequest) -> (res: Result<Option<JobConfig>, String>)
        ensures
            old(self)@.active_key().len() == 0 ==> final(self)@ == old(self)@ && match res {
                Err(e) => e@ == msg_no_active_workspace(),
                Ok(_) => false,
            },
            old(self)@.active_key().len() > 0 ==> ({
                let e = old(self)@.ensured();
                match e.find_job(job_id@) {
                    None => res == Ok::<Option<JobConfig>, String>(None) && final(self)@ == e,
                    Some(v) => match (res, request@.normalized()) {
                        (Ok(Some(j)), Ok(s)) => {
                            &&& j@ == JobConfigView { id: job_id@, settings: s }
                            &&& final(self)@ == e.with_job(
                                e.job_index(job_id@),
                                PersistedDatasourceView { job: j@, cursor: v.cursor },
                            )
                        },
                        (Err(err), Err(m)) => err@ == m && final(self)@ == e,
                        _ => false,
                    },
                }
            }),
    {
        proof {
            lemma_ensured_active(self@);
        }
        let id = self.server.workspace_id.clone();
        let url = self.server.url.clone();
        self.ensure_workspace_file(id.as_str(), "", url.as_str());
        proof {
            reveal_strlit("");
            assert(""@ =~= Seq::<char>::empty());
        }
        if self.active_index() >= self.workspaces.len() {
            return Err(owned("No active workspace is configured."));
        }
        let (w, d) = match self.locate(job_id) {
            Some(found) => found,
            None => return Ok(None),
        };
        let cursor = self.workspaces[w].datasources[d].to_cursor();
        let job = match JobConfig::from_request(owned(job_id), request) {
            Ok(j) => j,
            Err(e) => return Err(e),
        };
        self.set_datasource(w, d, PersistedDatasource::from_job(job.clone(), Some(cursor)));
        Ok(Some(job))
    }

    /// Turns job `job_id` on or off; `Ok(None)` when there is no such job.
    pub fn set_job_enabled(&mut self, job_id: &str, enabled: bool) -> (res: Result<Option<JobConfig>, String>)
        ensures
            old(self)@.active_key().len() == 0 ==> final(self)@ == old(self)@ && match res {
                Err(e) => e@ == msg_no_active_workspace(),
                Ok(_) => false,
            },
            old(self)@.active_key().len() > 0 ==> ({
                let e = old(self)@.ensured();
                match e.find_job(job_id@) {
                    None => res == Ok::<Option<JobConfig>, String>(None) && final(self)@ == e,
                    Some(v) => {
                        let nv = PersistedDatasourceView {
                            job: JobConfigView {
                                settings: JobSettingsView { enabled, ..v.job.settings },
                                ..v.job
                            },
                            ..v
                        };
                        &&& final(self)@ == e.with_job(e.job_index(job_id@), nv)
                        &&& match res {
                            Ok(Some(j)) => j@ == nv.job,
                            _ => false,
                        }
                    },
                }
            }),
    {
        proof {
            lemma_ensured_active(self@);
        }
        let id = self.server.workspace_id.clone();
        let url = self.server.url.clone();
        self.ensure_workspace_file(id.as_str(), "", url.as_str());
        proof {
            reveal_strlit("");
            assert(""@ =~= Seq::<char>::empty());
        }
        if self.active_index() >= self.workspaces.len() {
            return Err(owned("No active workspace is configured."));
        }
        let (w, d) = match self.locate(job_id) {
            Some(found) => found,
            None => return Ok(None),
        };
        let mut datasource = self.workspaces[w].datasources[d].clone();
        datasource.enabled = enabled;
        let job = datasource.to_job_config();
        self.set_datasource(w, d, datasource);
        Ok(Some(job))
    }

    /// Removes every job with id `job_id` from the active workspace; whether
    /// one was there.
    pub fn delete_job(&mut self, job_id: &str) -> (res: bool)
        ensures
            res == old(self)@.find_job(job_id@) is Some,
            res ==> final(self)@ == old(self)@.with_active_datasources(
                without_job(old(self)@.active_datasources(), job_id@),
            ),
            !res ==> final(self)@ == old(self)@,
    {
        let w = self.active_index();
        if w >= self.workspaces.len() {
            return false;
        }
        let ghost all = self@.active_datasources();
        let ghost keys = datasource_keys(all);
        let n = self.workspaces[w].datasources.len();
        let mut kept: Vec<PersistedDatasource> = Vec::new();
        let mut removed = false;
        for i in 0..n
            invariant
                w == self@.active_index(),
                self@.has_active(),
                all == self@.active_datasources(),
                keys == datasource_keys(all),
                n == all.len(),
                n == self.workspaces@[w as int].datasources@.len(),
                datasources_view(kept@) == without_job(all.take(i as int), job_id@),
                removed == exists|k: int| 0 <= k < i && keys[k] == job_id@,
        {
            assert(all.take(i + 1).drop_last() =~= all.take(i as int));
            assert(all[i as int] == self.workspaces@[w as int].datasources@[i as int]@);
            assert(keys[i as int] == all[i as int].job.id);
            if str_eq(self.workspaces[w].datasources[i].id.as_str(), job_id) {
                removed = true;
            } else {
                let ghost before = kept@;
                kept.push(self.workspaces[w].datasources[i].clone());
                assert(datasources_view(kept@) =~= datasources_view(before).push(all[i as int]));
            }
        }
        assert(all.take(n as int) =~= all);
        proof {
            lemma_find_key(keys, job_id@);
        }
        if !removed {
            return false;
        }
        self.set_datasources(w, kept);
        true
    }

    /// Records a successful upload of datastream `datastream_id` of job
    /// `job_id` up to `max_row_index` and `max_timestamp`: that cursor only
    /// moves forward and loses its error, and the job aggregates are
    /// recomputed. Nothing changes when there is no such job.
    pub fn record_datastream_success(
        &mut self,
        job_id: &str,
        datastream_id: &str,
        max_row_index: u64,
        max_timestamp: UtcDateTime,
        last_run_at: UtcDateTime,
    )
        ensures
            final(self)@ == store_after_success(
                old(self)@,
                job_id@,
                datastream_id@,
                max_row_index,
                max_timestamp,
                last_run_at,
            ),
    {
        if let Some((w, d)) = self.locate(job_id) {
            let mut datasource = self.workspaces[w].datasources[d].clone();
            record_success_in(&mut datasource.datastream_cursors, datastream_id, max_row_index, max_timestamp);
            datasource.last_run_at = Some(last_run_at);
            recompute_job_aggregates(&mut datasource);
            self.set_datasource(w, d, datasource);
        }
    }

    /// Records a failed upload of datastream `datastream_id` of job `job_id`:
    /// that cursor keeps its position and takes the error, and the job
    /// aggregates are recomputed. Nothing changes when there is no such job.
    pub fn record_datastream_failure(
        &mut self,
        job_id: &str,
        datastream_id: &str,
        error_message: &str,
        last_run_at: UtcDateTime,
    )
        ensures
            final(self)@ == store_after_failure(old(self)@, job_id@, datastream_id@, error_message@, last_run_at),
    {
        if let Some((w, d)) = self.locate(job_id) {
            let mut datasource = self.workspaces[w].datasources[d].clone();
            record_failure_in(&mut datasource.datastream_cursors, datastream_id, error_message);
            datasource.last_run_at = Some(last_run_at);
            recompute_job_aggregates(&mut datasource);
            self.set_datasource(w, d, datasource);
        }
    }

    /// Forgets every datastream cursor of job `job_id` (after its file was
    /// rotated or truncated) and recomputes its aggregates.
    pub fn reset_job_datastream_cursors(&mut self, job_id: &str)
        ensures
            final(self)@ == match old(self)@.find_job(job_id@) {
                Some(v) => old(self)@.with_job(
                    old(self)@.job_index(job_id@),
                    with_aggregates(
                        PersistedDatasourceView {
                            cursor: JobCursorView { datastream_cursors: Seq::empty(), ..v.cursor },
                            ..v
                        },
                    ),
                ),
                None => old(self)@,
            },
    {
        if let Some((w, d)) = self.locate(job_id) {
            let mut datasource = self.workspaces[w].datasources[d].clone();
            datasource.datastream_cursors = Vec::new();
            assert(cursors_view(datasource.datastream_cursors@) =~= Seq::empty());
            recompute_job_aggregates(&mut datasource);
            self.set_datasource(w, d, datasource);
        }
    }

    /// Clears the job-level error of job `job_id` and records when it ran.
    pub fn clear_last_error(&mut self, job_id: &str, last_run_at: UtcDateTime)
        ensures
            final(self)@ == match old(self)@.find_job(job_id@) {
                Some(v) => old(self)@.with_job(
                    old(self)@.job_index(job_id@),
                    PersistedDatasourceView {
                        cursor: JobCursorView {
                            last_error: None,
                            last_run_at: Some(last_run_at),
                            ..v.cursor
                        },
                        ..v
                    },
                ),
                None => old(self)@,
            },
    {
        if let Some((w, d)) = self.locate(job_id) {
            let mut datasource = self.workspaces[w].datasources[d].clone();
            datasource.last_error = None;
            datasource.last_run_at = Some(last_run_at);
            self.set_datasource(w, d, datasource);
        }
    }

    /// Records that a run of job `job_id` failed with `error` at `last_run_at`,
    /// keeping its progress.
    pub fn record_job_error(&mut self, job_id: &str, error: &str, last_run_at: UtcDateTime)
        ensures
            final(self)@ == match old(self)@.find_job(job_id@) {
                Some(v) => old(self)@.with_job(
                    old(self)@.job_index(job_id@),
                    PersistedDatasourceView {
                        cursor: JobCursorView {
                            last_error: Some(error@),
                            last_run_at: Some(last_run_at),
                            ..v.cursor
                        },
                        ..v
                    },
                ),
                None => old(self)@,
            },
    {
        if let Some((w, d)) = self.locate(job_id) {
            let mut datasource = self.workspaces[w].datasources[d].clone();
            datasource.last_error = Some(owned(error));
            datasource.last_run_at = Some(last_run_at);
            self.set_datasource(w, d, datasource);
        }
    }

    /// Marks job `job_id` as running or not; whether there is such a job.
    pub fn set_job_running(&mut self, job_id: &str, is_running: bool) -> (res: bool)
        ensures
            res == old(self)@.find_job(job_id@) is Some,
            final(self)@ == match old(self)@.find_job(job_id@) {
                Some(v) => old(self)@.with_job(
                    old(self)@.job_index(job_id@),
                    PersistedDatasourceView {
                        cursor: JobCursorView { is_running, ..v.cursor },
                        ..v
                    },
                ),
                None => old(self)@,
            },
    {
        if let Some((w, d)) = self.locate(job_id) {
            let mut datasource = self.workspaces[w].datasources[d].clone();
            datasource.is_running = is_running;
            self.set_datasource(w, d, datasource);
            true
        } else {
            false
        }
    }

    /// Marks every job of the active workspace as not running.
    pub fn clear_all_running_jobs(&mut self)
        ensures
            old(self)@.has_active() ==> final(self)@ == old(self)@.with_active_datasources(
                all_stopped(old(self)@.active_datasources()),
            ),
            !old(self)@.has_active() ==> final(self)@ == old(self)@,
    {
        let w = self.active_index();
        if w >= self.workspaces.len() {
            return;
        }
        let ghost all = self@.active_datasources();
        let n = self.workspaces[w].datasources.len();
        let mut out: Vec<PersistedDatasource> = Vec::new();
        for i in 0..n
            invariant
                w == self@.active_index(),
                self@.has_active(),
                all == self@.active_datasources(),
                n == all.len(),
                n == self.workspaces@[w as int].datasources@.len(),
                out@.len() == i,
                forall|k: int| 0 <= k < i ==> (#[trigger] out@[k])@ == all_stopped(all)[k],
        {
            assert(all[i as int] == self.workspaces@[w as int].datasources@[i as int]@);
            let mut datasource = self.workspaces[w].datasources[i].clone();
            datasource.is_running = false;
            out.push(datasource);
        }
        assert(datasources_view(out@) =~= all_stopped(all));
        self.set_datasources(w, out);
    }

    /// Resets the cursor of job `job_id` to that of a job that never ran.
    pub fn delete_job_runtime(&mut self, job_id: &str)
        ensures
            final(self)@ == match old(self)@.find_job(job_id@) {
                Some(v) => old(self)@.with_job(
                    old(self)@.job_index(job_id@),
                    PersistedDatasourceView { cursor: fresh_job_cursor(), ..v },
                ),
                None => old(self)@,
            },
    {
        if let Some((w, d)) = self.locate(job_id) {
            let mut datasource = self.workspaces[w].datasources[d].clone();
            datasource.last_pushed_timestamp = None;
            datasource.last_pushed_row_index = None;
            datasource.last_run_at = None;
            datasource.last_error = None;
            datasource.is_running = false;
            datasource.datastream_cursors = Vec::new();
            assert(cursors_view(datasource.datastream_cursors@) =~= Seq::empty());
            self.set_datasource(w, d, datasource);
        }
    }
}

/// A stored datasource with its job settings normalized, its cursor kept.
pub fn normalize_persisted_datasource(datasource: PersistedDatasource) -> (res: Result<PersistedDatasource, String>)
    ensures
        match (res, datasource@.job.normalized()) {
            (Ok(d), Ok(j)) => d@ == PersistedDatasourceView { job: j, cursor: datasource@.cursor },
            (Err(e), Err(m)) => e@ == m,
            _ => false,
        },
{
    let cursor = datasource.to_cursor();
    let job = JobConfig {
        id: datasource.id,
        name: datasource.name,
        enabled: datasource.enabled,
        file_path: datasource.file_path,
        schedule_minutes: datasource.schedule_minutes,
        file_config: datasource.file_config,
        column_mappings: datasource.column_mappings,
    };
    match job.normalized() {
        Ok(j) => Ok(PersistedDatasource::from_job(j, Some(cursor))),
        Err(e) => Err(e),
    }
}

/// A workspace as read from its file: trimmed id, name and URL, and every
/// datasource normalized.
pub open spec fn normalized_workspace(w: WorkspaceView) -> Result<WorkspaceView, Seq<char>> {
    match normalized_datasources(w.datasources) {
        Ok(ds) => Ok(
            WorkspaceView {
                version: w.version,
                workspace_id: trim(w.workspace_id),
                workspace_name: trim(w.workspace_name),
                hydroserver_url: trim(w.hydroserver_url),
                datasources: ds,
            },
        ),
        Err(e) => Err(e),
    }
}

/// Every datasource normalized, or the error of the first that fails.
pub open spec fn normalized_datasources(ds: Seq<PersistedDatasourceView>) -> Result<
    Seq<PersistedDatasourceView>,
    Seq<char>,
>
    decreases ds.len(),
{
    if ds.len() == 0 {
        Ok(Seq::empty())
    } else {
        match normalized_datasources(ds.drop_last()) {
            Err(e) => Err(e),
            Ok(prefix) => match ds.last().job.normalized() {
                Ok(j) => Ok(prefix.push(PersistedDatasourceView { job: j, cursor: ds.last().cursor })),
                Err(e) => Err(e),
            },
        }
    }
}

/// Normalizes a workspace read from its file.
pub fn normalize_workspace(workspace: WorkspaceStateFile) -> (res: Result<WorkspaceStateFile, String>)
    ensures
        match (res, normalized_workspace(workspace@)) {
            (Ok(w), Ok(v)) => w@ == v,
            (Err(e), Err(m)) => e@ == m,
            _ => false,
        },
{
    let ghost all = datasources_view(workspace.datasources@);
    let mut source = workspace.datasources;
    let n = source.len();
    let mut out: Vec<PersistedDatasource> = Vec::new();
    let mut i: usize = 0;
    assert(all.take(0) =~= Seq::<PersistedDatasourceView>::empty());
    assert(datasources_view(out@) =~= Seq::<PersistedDatasourceView>::empty());
    while i < n
        invariant
            0 <= i <= n,
            all == workspace@.datasources,
            all.len() == n,
            source@.len() == n - i,
            forall|k: int| 0 <= k < n - i ==> #[trigger] source@[k]@ == all[i + k],
            normalized_datasources(all.take(i as int)) == Ok::<Seq<PersistedDatasourceView>, Seq<char>>(
                datasources_view(out@),
            ),
        decreases n - i,
    {
        assert(all.take(i + 1).drop_last() =~= all.take(i as int));
        assert(all.take(i + 1).last() == all[i as int]);
        let ghost before = out@;
        let ghost rest = source@;
        let d = source.remove(0);
        assert(d@ == all[i as int]);
        match normalize_persisted_datasource(d) {
            Ok(nd) => {
                out.push(nd);
                assert(datasources_view(out@) =~= datasources_view(before).push(nd@));
            },
            Err(e) => {
                proof {
                    assert(normalized_datasources(all.take(i + 1)) == Err::<Seq<PersistedDatasourceView>, Seq<char>>(e@));
                    lemma_normalized_prefix_error(all, i as int + 1);
                }
                return Err(e);
            },
        }
        assert forall|k: int| 0 <= k < n - (i + 1) implies #[trigger] source@[k]@ == all[i + 1 + k] by {
            assert(source@[k] == rest[k + 1]);
        }
        i = i + 1;
    }
    assert(all.take(n as int) =~= all);
    Ok(
        WorkspaceStateFile {
            version: workspace.version,
            workspace_id: trim_str(workspace.workspace_id.as_str()),
            workspace_name: trim_str(workspace.workspace_name.as_str()),
            hydroserver_url: trim_str(workspace.hydroserver_url.as_str()),
            datasources: out,
        },
    )
}

/// Once a prefix fails to normalize, the whole list fails with that error.
proof fn lemma_normalized_prefix_error(all: Seq<PersistedDatasourceView>, i: int)
    requires
        0 < i <= all.len(),
        normalized_datasources(all.take(i)) is Err,
    ensures
        normalized_datasources(all) == normalized_datasources(all.take(i)),
    decreases all.len() - i,
{
    if i == all.len() {
        assert(all.take(i) =~= all);
    } else {
        assert(all.take(i + 1).drop_last() =~= all.take(i));
        lemma_normalized_prefix_error(all, i + 1);
    }
}

impl ConfigStore {
    /// A store holding what was read from the configuration directory: the
    /// configuration (its server settings normalized) and the workspaces.
    pub fn from_parts(config_dir: String, config: AppConfig, workspaces: Vec<WorkspaceStateFile>) -> (res: ConfigStore)
        ensures
            res@ == (ConfigStoreView {
                config_dir: config_dir@,
                version: config.version,
                server: config.server@.normalized(),
                launch_at_login_initialized: config.launch_at_login_initialized,
                workspaces: workspaces_view(workspaces@),
            }),
    {
        ConfigStore {
            config_dir,
            version: config.version,
            server: config.server.normalized(),
            launch_at_login_initialized: config.launch_at_login_initialized,
            workspaces,
        }
    }

    /// What the configuration file holds: the settings without jobs.
    pub fn app_config(&self) -> (res: AppConfig)
        ensures
            res@ == (AppConfigView { jobs: Seq::empty(), ..self@.config() }),
    {
        let jobs: Vec<JobConfig> = Vec::new();
        assert(jobs_view(jobs@) =~= Seq::empty());
        AppConfig {
            version: self.version,
            server: self.server.clone(),
            jobs,
            launch_at_login_initialized: self.launch_at_login_initialized,
        }
    }

    /// The stored workspaces.
    pub fn workspaces(&self) -> (res: &Vec<WorkspaceStateFile>)
        ensures
            workspaces_view(res@) == self@.workspaces,
    {
        &self.workspaces
    }

    /// The configuration directory.
    pub fn config_dir(&self) -> (res: &str)
        ensures
            res@ == self@.config_dir,
    {
        self.config_dir.as_str()
    }

    /// Records whether launching at login has been set up once.
    pub fn set_launch_at_login_initialized(&mut self, initialized: bool)
        ensures
            final(self)@ == (ConfigStoreView { launch_at_login_initialized: initialized, ..old(self)@ }),
    {
        self.launch_at_login_initialized = initialized;
    }
}

// ---------------------------------------------------------------------------
// Job ids
// ---------------------------------------------------------------------------
/// The bits a new job id is made of: the clock's nanoseconds mixed with a
/// per-process counter and the process id.
pub open spec fn id_bits(nanos: u128, counter: u64, process_id: u32) -> u128 {
    nanos ^ ((counter as u128) << 32u128) ^ ((process_id as u128) << 64u128)
}

/// Hexadecimal digit `k` (from the most significant) of `v`.
pub open spec fn id_nibble(v: u128, k: int) -> u8 {
    ((v >> ((124 - 4 * k) as u128)) & 15u128) as u8
}

/// The first `k` hexadecimal digits of `v`, with a dash before digits 8, 12,
/// 16 and 20.
pub open spec fn dashed_hex(v: u128, k: int) -> Seq<char>
    decreases k,
{
    if k <= 0 {
        Seq::empty()
    } else {
        let d = crate::daemon_api::hex_digit(id_nibble(v, k - 1));
        if k - 1 == 8 || k - 1 == 12 || k - 1 == 16 || k - 1 == 20 {
            dashed_hex(v, k - 1) + seq!['-', d]
        } else {
            dashed_hex(v, k - 1).push(d)
        }
    }
}

/// A new job id: the 32 hexadecimal digits of [`id_bits`] in the shape
/// `8-4-4-4-12`.
pub fn job_id_from(nanos: u128, counter: u64, process_id: u32) -> (res: String)
    ensures
        res@ == dashed_hex(id_bits(nanos, counter, process_id), 32),
{
    let mixed: u128 = nanos ^ ((counter as u128) << 32u128) ^ ((process_id as u128) << 64u128);
    let mut out = String::new();
    let mut k: u32 = 0;
    while k < 32
        invariant
            k <= 32,
            mixed == id_bits(nanos, counter, process_id),
            out@ == dashed_hex(mixed, k as int),
        decreases 32 - k,
    {
        let shift: u128 = (124 - 4 * k) as u128;
        let masked: u128 = (mixed >> shift) & 15u128;
        assert(masked <= 15u128) by (bit_vector)
            requires
                masked == (mixed >> shift) & 15u128,
        ;
        let nibble: u8 = masked as u8;
        if k == 8 || k == 12 || k == 16 || k == 20 {
            crate::text::push_char(&mut out, '-');
        }
        crate::text::push_char(&mut out, crate::daemon_api::hex_char(nibble));
        k = k + 1;
        assert(out@ =~= dashed_hex(mixed, k as int));
    }
    out
}

/// Log file number `k` of a job, oldest first: the rotated files from the
/// highest number down, then the current file.
pub open spec fn log_file_name(job_id: Seq<char>, k: int) -> Seq<char> {
    if k == crate::job_logs::JOB_LOG_ROTATE_FILES {
        job_id + ".log"@
    } else {
        job_id + "."@ + crate::text::decimal_string((crate::job_logs::JOB_LOG_ROTATE_FILES - k) as nat)
            + ".log"@
    }
}

/// The folder of the job logs.
pub open spec fn jobs_dir(config_dir: Seq<char>, separator: char) -> Seq<char> {
    crate::service_paths::joined(crate::service_paths::joined(config_dir, "logs"@, separator), "jobs"@, separator)
}

pub open spec fn name_listed(existing: Seq<String>, name: Seq<char>) -> bool {
    exists|j: int| 0 <= j < existing.len() && (#[trigger] existing[j])@ == name
}

impl ConfigStore {
    /// The directories the store keeps its files in, to be created before
    /// use: the configuration directory, its `workspaces`, `logs` and
    /// `logs/jobs` folders.
    pub fn ensure(&self, separator: char) -> (res: Vec<String>)
        ensures
            res@.len() == 4,
            res@[0]@ == self@.config_dir,
            res@[1]@ == crate::service_paths::joined(self@.config_dir, "workspaces"@, separator),
            res@[2]@ == crate::service_paths::joined(self@.config_dir, "logs"@, separator),
            res@[3]@ == crate::service_paths::joined(
                crate::service_paths::joined(self@.config_dir, "logs"@, separator),
                "jobs"@,
                separator,
            ),
    {
        proof {
            reveal_strlit("workspaces");
            reveal_strlit("logs");
            reveal_strlit("jobs");
        }
        let logs = crate::service_paths::join_path(self.config_dir.as_str(), "logs", separator);
        let jobs = crate::service_paths::join_path(logs.as_str(), "jobs", separator);
        let mut dirs: Vec<String> = Vec::new();
        dirs.push(self.config_dir.clone());
        dirs.push(crate::service_paths::join_path(self.config_dir.as_str(), "workspaces", separator));
        dirs.push(logs);
        dirs.push(jobs);
        dirs
    }

    /// The newest log file of job `job_id` among the names that exist in the
    /// job log folder: the current file, else the most recently rotated one.
    pub fn job_log_file_path(&self, job_id: &str, existing: &Vec<String>, separator: char) -> (res: Option<String>)
        ensures
            res is Some ==> exists|k: int| 0 <= k <= crate::job_logs::JOB_LOG_ROTATE_FILES && #[trigger] name_listed(existing@, log_file_name(job_id@, k))
                && res->0@ == crate::service_paths::joined(jobs_dir(self@.config_dir, separator), log_file_name(job_id@, k), separator)
                && forall|i: int| k < i <= crate::job_logs::JOB_LOG_ROTATE_FILES ==> !name_listed(
                    existing@,
                    #[trigger] log_file_name(job_id@, i),
                ),
            res is None ==> forall|k: int| 0 <= k <= crate::job_logs::JOB_LOG_ROTATE_FILES ==> !name_listed(
                existing@,
                #[trigger] log_file_name(job_id@, k),
            ),
    {
        proof {
            reveal_strlit("logs");
            reveal_strlit("jobs");
        }
        let names = crate::job_logs::job_log_file_names_oldest_to_newest(job_id);
        let logs = crate::service_paths::join_path(self.config_dir.as_str(), "logs", separator);
        let jobs = crate::service_paths::join_path(logs.as_str(), "jobs", separator);
        let mut k = names.len();
        while k > 0
            invariant
                k <= names@.len(),
                names@.len() == crate::job_logs::JOB_LOG_ROTATE_FILES + 1,
                forall|i: int| 0 <= i < crate::job_logs::JOB_LOG_ROTATE_FILES ==> (#[trigger] names@[i])@ == job_id@ + "."@
                    + crate::text::decimal_string((crate::job_logs::JOB_LOG_ROTATE_FILES - i) as nat) + ".log"@,
                names@[crate::job_logs::JOB_LOG_ROTATE_FILES as int]@ == job_id@ + ".log"@,
                forall|i: int| k <= i <= crate::job_logs::JOB_LOG_ROTATE_FILES ==> !name_listed(
                    existing@,
                    #[trigger] log_file_name(job_id@, i),
                ),
                jobs@ == jobs_dir(self@.config_dir, separator),
            decreases k,
        {
            k = k - 1;
            assert(names@[k as int]@ == log_file_name(job_id@, k as int));
            let mut j: usize = 0;
            while j < existing.len()
                invariant
                    j <= existing@.len(),
                    k < names@.len(),
                    names@.len() == crate::job_logs::JOB_LOG_ROTATE_FILES + 1,
                    names@[k as int]@ == log_file_name(job_id@, k as int),
                    jobs@ == jobs_dir(self@.config_dir, separator),
                    forall|i: int| k < i <= crate::job_logs::JOB_LOG_ROTATE_FILES ==> !name_listed(
                        existing@,
                        #[trigger] log_file_name(job_id@, i),
                    ),
                    forall|i: int| 0 <= i < j ==> (#[trigger] existing@[i])@ != names@[k as int]@,
                decreases existing@.len() - j,
            {
                if crate::text::str_eq(existing[j].as_str(), names[k].as_str()) {
                    assert(existing@[j as int]@ == log_file_name(job_id@, k as int));
                    assert(name_listed(existing@, log_file_name(job_id@, k as int)));
                    let found = crate::service_paths::join_path(jobs.as_str(), existing[j].as_str(), separator);
                    assert(found@ == crate::service_paths::joined(
                        jobs_dir(self@.config_dir, separator),
                        log_file_name(job_id@, k as int),
                        separator,
                    ));
                    return Some(found);
                }
                j = j + 1;
            }
        }
        None
    }
}

// ---------------------------------------------------------------------------
// Laws
// ---------------------------------------------------------------------------
/// Writing the cursor of one datastream gives that cursor back for it and
/// leaves the cursor of every other datastream as it was.
pub proof fn lemma_lookup_upsert(
    cs: Seq<(Seq<char>, DatastreamCursorView)>,
    id: Seq<char>,
    c: DatastreamCursorView,
    other: Seq<char>,
)
    ensures
        lookup_cursor(upsert_cursor(cs, id, c), id) == Some(c),
        other != id ==> lookup_cursor(upsert_cursor(cs, id, c), other) == lookup_cursor(cs, other),
{
    let keys = cursor_keys(cs);
    let cs2 = upsert_cursor(cs, id, c);
    let keys2 = cursor_keys(cs2);
    let i = find_key(keys, id);
    lemma_find_key(keys, id);
    lemma_find_key(keys, other);
    let j = find_key(keys, other);
    if i < cs.len() {
        assert(keys2 =~= keys.update(i, id));
        lemma_find_key_unique(keys2, id, i);
        if other != id {
            lemma_find_key_unique(keys2, other, j);
        }
    } else {
        assert(keys2 =~= keys.push(id));
        lemma_find_key_unique(keys2, id, keys.len() as int);
        if other != id {
            if j < keys.len() {
                lemma_find_key_unique(keys2, other, j);
            } else {
                lemma_find_key_unique(keys2, other, keys2.len() as int);
            }
        }
    }
}

/// A successful upload moves the datastream's row cursor to at least the
/// uploaded row and never back, clears its error, and touches no other
/// datastream's cursor.
pub proof fn lemma_success_advances_only_its_datastream(
    d: PersistedDatasourceView,
    datastream_id: Seq<char>,
    row: u64,
    ts: UtcDateTime,
    run_at: UtcDateTime,
    other: Seq<char>,
)
    ensures
        ({
            let after = job_after_success(d, datastream_id, row, ts, run_at).cursor.datastream_cursors;
            let before = d.cursor.datastream_cursors;
            &&& row_of(after, datastream_id) is Some
            &&& row_of(after, datastream_id)->0 >= row
            &&& row_of(before, datastream_id) is Some ==> row_of(after, datastream_id)->0 >= row_of(
                before,
                datastream_id,
            )->0
            &&& lookup_cursor(after, datastream_id) is Some
            &&& lookup_cursor(after, datastream_id)->0.last_error is None
            &&& other != datastream_id ==> lookup_cursor(after, other) == lookup_cursor(before, other)
        }),
{
    let cs = d.cursor.datastream_cursors;
    lemma_lookup_upsert(
        cs,
        datastream_id,
        after_success(lookup_cursor(cs, datastream_id), row, ts),
        other,
    );
}

/// A failed upload records its error on the datastream and moves no cursor:
/// its row index and timestamp stay, and every other datastream is untouched.
pub proof fn lemma_failure_keeps_progress(
    d: PersistedDatasourceView,
    datastream_id: Seq<char>,
    message: Seq<char>,
    run_at: UtcDateTime,
    other: Seq<char>,
)
    ensures
        ({
            let after = job_after_failure(d, datastream_id, message, run_at).cursor.datastream_cursors;
            let before = d.cursor.datastream_cursors;
            &&& lookup_cursor(after, datastream_id) is Some
            &&& lookup_cursor(after, datastream_id)->0.last_error == Some(message)
            &&& row_of(after, datastream_id) == row_of(before, datastream_id)
            &&& crate::records::ts_of(after, datastream_id) == crate::records::ts_of(before, datastream_id)
            &&& other != datastream_id ==> lookup_cursor(after, other) == lookup_cursor(before, other)
        }),
{
    let cs = d.cursor.datastream_cursors;
    lemma_lookup_upsert(cs, datastream_id, after_failure(lookup_cursor(cs, datastream_id), message), other);
}

/// The job-level row index is the smallest row index of the datastreams the
/// job maps, and is `None` while the job maps none or any of them has no row
/// index yet.
pub proof fn lemma_aggregate_row_is_min(ids: Seq<Seq<char>>, cs: Seq<(Seq<char>, DatastreamCursorView)>)
    ensures
        aggregate_row(ids, cs) is None <==> (ids.len() == 0 || exists|k: int|
            0 <= k < ids.len() && row_of(cs, #[trigger] ids[k]) is None),
        aggregate_row(ids, cs) is Some ==> (forall|k: int|
            0 <= k < ids.len() ==> row_of(cs, #[trigger] ids[k]) is Some && aggregate_row(ids, cs)->0
                <= row_of(cs, ids[k])->0),
        aggregate_row(ids, cs) is Some ==> (exists|k: int|
            0 <= k < ids.len() && row_of(cs, #[trigger] ids[k]) == aggregate_row(ids, cs)),
    decreases ids.len(),
{
    if ids.len() > 1 {
        let p = ids.drop_last();
        lemma_aggregate_row_is_min(p, cs);
        assert forall|k: int| 0 <= k < p.len() implies p[k] == ids[k] by {}
        assert(ids.last() == ids[ids.len() - 1]);
        if aggregate_row(p, cs) is None {
            let k = choose|k: int| 0 <= k < p.len() && row_of(cs, #[trigger] p[k]) is None;
            assert(row_of(cs, ids[k]) is None);
        }
        if row_of(cs, ids.last()) is None {
            assert(row_of(cs, ids[ids.len() - 1]) is None);
        }
        if aggregate_row(ids, cs) is None {
        } else {
            assert forall|k: int| 0 <= k < ids.len() implies row_of(cs, #[trigger] ids[k]) is Some by {
                if k < ids.len() - 1 {
                    assert(p[k] == ids[k]);
                }
            }
        }
        if let Some(r) = aggregate_row(ids, cs) {
            let a = aggregate_row(p, cs)->0;
            let b = row_of(cs, ids.last())->0;
            if a <= b {
                let k = choose|k: int| 0 <= k < p.len() && row_of(cs, #[trigger] p[k]) == Some(a);
                assert(row_of(cs, ids[k]) == Some(r));
            } else {
                assert(row_of(cs, ids[ids.len() - 1]) == Some(r));
            }
            assert forall|k: int| 0 <= k < ids.len() implies row_of(cs, #[trigger] ids[k]) is Some && r <= row_of(cs, ids[k])->0 by {
                if k < ids.len() - 1 {
                    assert(p[k] == ids[k]);
                }
            }
        }
    } else if ids.len() == 1 {
        assert(ids.last() == ids[0]);
    }
}

/// Replacing the jobs of the active workspace keeps it the active workspace.
pub proof fn lemma_with_active(v: ConfigStoreView, ds: Seq<PersistedDatasourceView>)
    requires
        v.has_active(),
    ensures
        v.with_active_datasources(ds).has_active(),
        v.with_active_datasources(ds).active_index() == v.active_index(),
        v.with_active_datasources(ds).active_datasources() == ds,
{
    let after = v.with_active_datasources(ds);
    let i = v.active_index();
    lemma_find_key(workspace_keys(v.workspaces), v.active_key());
    assert(0 <= i < v.workspaces.len());
    assert forall|k: int| 0 <= k < v.workspaces.len() implies #[trigger] workspace_keys(after.workspaces)[k] == workspace_keys(v.workspaces)[k] by {
        if k == i {
            assert(after.workspaces[k].workspace_id == v.workspaces[i].workspace_id);
        }
    }
    assert(workspace_keys(after.workspaces) =~= workspace_keys(v.workspaces));
}

/// Marking a job as running (or not) is what its cursor then shows.
pub proof fn lemma_running_flag_read_back(v: ConfigStoreView, job_id: Seq<char>, running: bool)
    requires
        v.find_job(job_id) is Some,
    ensures
        ({
            let d = v.find_job(job_id)->0;
            let after = v.with_job(
                v.job_index(job_id),
                PersistedDatasourceView { cursor: JobCursorView { is_running: running, ..d.cursor }, ..d },
            );
            &&& after.find_job(job_id) is Some
            &&& after.find_job(job_id)->0.cursor.is_running == running
        }),
{
    let d = v.find_job(job_id)->0;
    let nv = PersistedDatasourceView { cursor: JobCursorView { is_running: running, ..d.cursor }, ..d };
    lemma_find_key(datasource_keys(v.active_datasources()), job_id);
    assert(datasource_keys(v.active_datasources())[v.job_index(job_id)] == d.job.id);
    lemma_with_job_find(v, job_id, nv);
}

/// Replacing the job found for `job_id` by a job with the same id makes the
/// new job the one found for that id.
pub proof fn lemma_with_job_find(v: ConfigStoreView, job_id: Seq<char>, nv: PersistedDatasourceView)
    requires
        v.find_job(job_id) is Some,
        nv.job.id == job_id,
    ensures
        v.with_job(v.job_index(job_id), nv).find_job(job_id) == Some(nv),
        v.with_job(v.job_index(job_id), nv).active_datasources() == v.active_datasources().update(
            v.job_index(job_id),
            nv,
        ),
{
    let after = v.with_job(v.job_index(job_id), nv);
    let ds = v.active_datasources();
    let d = v.job_index(job_id);
    lemma_find_key(datasource_keys(ds), job_id);
    lemma_with_active(v, ds.update(d, nv));
    lemma_find_key(datasource_keys(ds), job_id);
    assert(datasource_keys(ds.update(d, nv)) =~= datasource_keys(ds));
}

/// A job that was just created, with an id no job of the active workspace
/// had, is found again by that id with the settings it was created with and
/// a fresh cursor.
pub proof fn lemma_created_job_found(v: ConfigStoreView, nv: PersistedDatasourceView)
    requires
        v.has_active(),
        v.find_job(nv.job.id) is None,
    ensures
        v.with_active_datasources(v.active_datasources().push(nv)).find_job(nv.job.id) == Some(nv),
{
    let after = v.with_active_datasources(v.active_datasources().push(nv));
    let ds = v.active_datasources();
    lemma_with_active(v, ds.push(nv));
    lemma_find_key(datasource_keys(ds), nv.job.id);
    assert(datasource_keys(ds.push(nv)) =~= datasource_keys(ds).push(nv.job.id));
    lemma_find_key_unique(datasource_keys(ds.push(nv)), nv.job.id, ds.len() as int);
}

proof fn lemma_without_job(ds: Seq<PersistedDatasourceView>, id: Seq<char>)
    ensures
        forall|k: int| 0 <= k < without_job(ds, id).len() ==> (#[trigger] without_job(ds, id)[k]).job.id != id,
    decreases ds.len(),
{
    if ds.len() > 0 {
        lemma_without_job(ds.drop_last(), id);
    }
}

/// After a job is deleted, no job with its id is left in the workspace.
pub proof fn lemma_deleted_job_gone(v: ConfigStoreView, job_id: Seq<char>)
    requires
        v.has_active(),
    ensures
        v.with_active_datasources(without_job(v.active_datasources(), job_id)).find_job(job_id) is None,
{
    let rest = without_job(v.active_datasources(), job_id);
    let after = v.with_active_datasources(rest);
    lemma_with_active(v, rest);
    lemma_without_job(v.active_datasources(), job_id);
    lemma_find_key(datasource_keys(rest), job_id);
    if find_key(datasource_keys(rest), job_id) < rest.len() {
        assert(datasource_keys(rest)[find_key(datasource_keys(rest), job_id)] == rest[find_key(datasource_keys(rest), job_id)].job.id);
    }
}

/// Clearing the running flags leaves no job of the active workspace marked
/// as running.
pub proof fn lemma_no_job_running_after_clear(v: ConfigStoreView)
    requires
        v.has_active(),
    ensures
        forall|k: int| 0 <= k < v.active_datasources().len() ==> !(#[trigger] v.with_active_datasources(
            all_stopped(v.active_datasources()),
        ).active_datasources()[k]).cursor.is_running,
{
    let after = v.with_active_datasources(all_stopped(v.active_datasources()));
    lemma_with_active(v, all_stopped(v.active_datasources()));
}

/// A successful upload leaves the datastream exactly the larger of its row
/// index and the uploaded row, the later of its timestamp and the uploaded
/// one (the uploaded ones when it had none), and no error; the job records
/// when it ran.
pub proof fn lemma_success_keeps_the_larger(
    d: PersistedDatasourceView,
    datastream_id: Seq<char>,
    row: u64,
    ts: UtcDateTime,
    run_at: UtcDateTime,
)
    ensures
        ({
            let before = lookup_cursor(d.cursor.datastream_cursors, datastream_id);
            let after = job_after_success(d, datastream_id, row, ts, run_at);
            &&& lookup_cursor(after.cursor.datastream_cursors, datastream_id) == Some(
                DatastreamCursorView {
                    last_pushed_row_index: Some(
                        match before {
                            Some(c) => match c.last_pushed_row_index {
                                Some(r) => if r >= row {
                                    r
                                } else {
                                    row
                                },
                                None => row,
                            },
                            None => row,
                        },
                    ),
                    last_pushed_timestamp: Some(
                        match before {
                            Some(c) => match c.last_pushed_timestamp {
                                Some(t) => dt_max(t, ts),
                                None => ts,
                            },
                            None => ts,
                        },
                    ),
                    last_error: None,
                },
            )
            &&& after.cursor.last_run_at == Some(run_at)
            &&& after.job == d.job
        }),
{
    let cs = d.cursor.datastream_cursors;
    lemma_lookup_upsert(cs, datastream_id, after_success(lookup_cursor(cs, datastream_id), row, ts), datastream_id);
}

/// After a job's cursors are reset (its file was replaced), a successful
/// upload sets the datastream to exactly the uploaded row and timestamp: the
/// rows counted before the reset no longer hold it back.
pub proof fn lemma_reset_then_success(
    d: PersistedDatasourceView,
    datastream_id: Seq<char>,
    row: u64,
    ts: UtcDateTime,
    run_at: UtcDateTime,
)
    ensures
        ({
            let reset = with_aggregates(
                PersistedDatasourceView {
                    cursor: JobCursorView { datastream_cursors: Seq::empty(), ..d.cursor },
                    ..d
                },
            );
            lookup_cursor(job_after_success(reset, datastream_id, row, ts, run_at).cursor.datastream_cursors, datastream_id)
                == Some(
                DatastreamCursorView {
                    last_pushed_row_index: Some(row),
                    last_pushed_timestamp: Some(ts),
                    last_error: None,
                },
            )
        }),
{
    let reset = with_aggregates(
        PersistedDatasourceView { cursor: JobCursorView { datastream_cursors: Seq::empty(), ..d.cursor }, ..d },
    );
    lemma_success_keeps_the_larger(reset, datastream_id, row, ts, run_at);
    lemma_find_key(cursor_keys(Seq::<(Seq<char>, DatastreamCursorView)>::empty()), datastream_id);
}

/// Replacing the job found for `job_id` changes no other job: every other id
/// finds what it found before.
pub proof fn lemma_with_job_keeps_others(
    v: ConfigStoreView,
    job_id: Seq<char>,
    nv: PersistedDatasourceView,
    other: Seq<char>,
)
    requires
        v.find_job(job_id) is Some,
        nv.job.id == job_id,
        other != job_id,
    ensures
        v.with_job(v.job_index(job_id), nv).find_job(other) == v.find_job(other),
{
    let ds = v.active_datasources();
    let d = v.job_index(job_id);
    lemma_find_key(datasource_keys(ds), job_id);
    lemma_with_active(v, ds.update(d, nv));
    assert(datasource_keys(ds.update(d, nv)) =~= datasource_keys(ds));
    lemma_find_key(datasource_keys(ds), other);
    let j = find_key(datasource_keys(ds), other);
    if j < ds.len() {
        assert(datasource_keys(ds)[j] == other);
        assert(j != d);
    }
}

/// Marking a job as running and then clearing every running flag leaves that
/// job in the workspace, shown running in between and not running after,
/// with nothing else of it changed.
pub proof fn lemma_running_set_then_cleared(v: ConfigStoreView, job_id: Seq<char>)
    requires
        v.find_job(job_id) is Some,
    ensures
        ({
            let d = v.find_job(job_id)->0;
            let running = v.with_job(
                v.job_index(job_id),
                PersistedDatasourceView { cursor: JobCursorView { is_running: true, ..d.cursor }, ..d },
            );
            let cleared = running.with_active_datasources(all_stopped(running.active_datasources()));
            &&& running.find_job(job_id) is Some
            &&& running.find_job(job_id)->0.cursor.is_running
            &&& cleared.find_job(job_id) == Some(
                PersistedDatasourceView { cursor: JobCursorView { is_running: false, ..d.cursor }, ..d },
            )
        }),
{
    let d = v.find_job(job_id)->0;
    let nv = PersistedDatasourceView { cursor: JobCursorView { is_running: true, ..d.cursor }, ..d };
    lemma_find_key(datasource_keys(v.active_datasources()), job_id);
    assert(datasource_keys(v.active_datasources())[v.job_index(job_id)] == d.job.id);
    lemma_with_job_find(v, job_id, nv);
    let running = v.with_job(v.job_index(job_id), nv);
    let rd = running.active_datasources();
    assert(running.has_active());
    let stopped = all_stopped(rd);
    lemma_with_active(running, stopped);
    assert(datasource_keys(stopped) =~= datasource_keys(rd));
    lemma_find_key(datasource_keys(rd), job_id);
    assert(stopped[running.job_index(job_id)] == PersistedDatasourceView {
        cursor: JobCursorView { is_running: false, ..d.cursor },
        ..d
    });
}

/// Resetting a job's runtime state is what its cursor then shows: a cursor
/// like that of a job that never ran, with the job's settings kept.
pub proof fn lemma_runtime_reset_read_back(v: ConfigStoreView, job_id: Seq<char>)
    requires
        v.find_job(job_id) is Some,
    ensures
        ({
            let d = v.find_job(job_id)->0;
            let after = v.with_job(v.job_index(job_id), PersistedDatasourceView { cursor: fresh_job_cursor(), ..d });
            after.find_job(job_id) == Some(PersistedDatasourceView { cursor: fresh_job_cursor(), ..d })
        }),
{
    let d = v.find_job(job_id)->0;
    lemma_find_key(datasource_keys(v.active_datasources()), job_id);
    assert(datasource_keys(v.active_datasources())[v.job_index(job_id)] == d.job.id);
    lemma_with_job_find(v, job_id, PersistedDatasourceView { cursor: fresh_job_cursor(), ..d });
}

/// Saving server settings keeps every workspace and its jobs: each keeps its
/// id and datasources (only the selected one's name and URL may be updated),
/// and at most one new, empty workspace is added.
pub proof fn lemma_ensure_workspace_keeps_jobs(ws: Seq<WorkspaceView>, id: Seq<char>, name: Seq<char>, url: Seq<char>)
    ensures
        ({
            let after = ensure_workspace(ws, id, name, url);
            &&& ws.len() <= after.len() <= ws.len() + 1
            &&& forall|k: int| 0 <= k < ws.len() ==> (#[trigger] after[k]).datasources == ws[k].datasources
                && after[k].workspace_id == ws[k].workspace_id && after[k].version == ws[k].version
            &&& after.len() == ws.len() + 1 ==> after.last().datasources.len() == 0
        }),
{
    let key = trim(id);
    let i = find_key(workspace_keys(ws), key);
    lemma_find_key(workspace_keys(ws), key);
    let after = ensure_workspace(ws, id, name, url);
    if key.len() > 0 && i < ws.len() {
        assert forall|k: int| 0 <= k < ws.len() implies (#[trigger] after[k]).datasources == ws[k].datasources
            && after[k].workspace_id == ws[k].workspace_id && after[k].version == ws[k].version by {
            if k == i {
                assert(after[k] == WorkspaceView {
                    workspace_name: after[k].workspace_name,
                    hydroserver_url: after[k].hydroserver_url,
                    ..ws[i]
                });
            }
        }
    } else if key.len() > 0 {
        assert forall|k: int| 0 <= k < ws.len() implies (#[trigger] after[k]) == ws[k] by {}
        assert(after.last().datasources =~= Seq::<PersistedDatasourceView>::empty());
    }
}

/// The workspace that saving server settings selects exists afterwards: it
/// holds the jobs stored under its id before (none when it is new) and takes
/// the trimmed name and URL where they are not blank.
pub proof fn lemma_ensure_workspace_selects(ws: Seq<WorkspaceView>, id: Seq<char>, name: Seq<char>, url: Seq<char>)
    requires
        trim(id).len() > 0,
    ensures
        ({
            let key = trim(id);
            let i = find_key(workspace_keys(ws), key);
            let after = ensure_workspace(ws, id, name, url);
            let j = find_key(workspace_keys(after), key);
            &&& j < after.len()
            &&& i < ws.len() ==> j == i
            &&& after[j].datasources == (if i < ws.len() {
                ws[i].datasources
            } else {
                Seq::empty()
            })
            &&& trim(name).len() > 0 ==> after[j].workspace_name == trim(name)
            &&& trim(url).len() > 0 ==> after[j].hydroserver_url == trim(url)
        }),
{
    let key = trim(id);
    let keys = workspace_keys(ws);
    let i = find_key(keys, key);
    let after = ensure_workspace(ws, id, name, url);
    lemma_find_key(keys, key);
    if i < ws.len() {
        assert(workspace_keys(after) =~= keys);
    } else {
        assert(workspace_keys(after) =~= keys.push(key));
        lemma_find_key_unique(workspace_keys(after), key, keys.len() as int);
        assert(after[i].datasources =~= Seq::empty());
    }
}

/// Saving server settings loads the jobs of the workspace stored under their
/// id: those it held before, none when it is new, and none for a blank id.
pub proof fn lemma_set_server_loads_stored_jobs(v: ConfigStoreView, server: ServerConfigView, name: Seq<char>)
    ensures
        ({
            let s = server.normalized();
            let after = ConfigStoreView {
                server: s,
                workspaces: ensure_workspace(v.workspaces, s.workspace_id, name, s.url),
                ..v
            };
            let key = trim(server.workspace_id);
            let i = find_key(workspace_keys(v.workspaces), key);
            &&& after.has_active() == (key.len() > 0)
            &&& after.active_datasources() == (if key.len() > 0 && i < v.workspaces.len() {
                v.workspaces[i].datasources
            } else {
                Seq::empty()
            })
        }),
{
    let s = server.normalized();
    lemma_trim_idempotent(server.workspace_id);
    assert(trim(s.workspace_id) == trim(server.workspace_id));
    let key = trim(server.workspace_id);
    if key.len() > 0 {
        lemma_ensure_workspace_selects(v.workspaces, s.workspace_id, name, s.url);
    }
}

/// Forgetting the server settings loads no jobs and keeps every workspace, so
/// that saving the same settings again gives back the store exactly as the
/// first save left it, with the same jobs.
pub proof fn lemma_clear_then_set_server(v: ConfigStoreView, server: ServerConfigView, name: Seq<char>)
    ensures
        ({
            let s = server.normalized();
            let saved = ConfigStoreView {
                server: s,
                workspaces: ensure_workspace(v.workspaces, s.workspace_id, name, s.url),
                ..v
            };
            let cleared = ConfigStoreView { server: default_server(), ..saved };
            let again = ConfigStoreView {
                server: s,
                workspaces: ensure_workspace(cleared.workspaces, s.workspace_id, name, s.url),
                ..cleared
            };
            &&& cleared.active_datasources().len() == 0
            &&& cleared.workspaces == saved.workspaces
            &&& again == saved
        }),
{
    let s = server.normalized();
    let saved = ConfigStoreView {
        server: s,
        workspaces: ensure_workspace(v.workspaces, s.workspace_id, name, s.url),
        ..v
    };
    let cleared = ConfigStoreView { server: default_server(), ..saved };
    assert(trim(default_server().workspace_id) =~= Seq::<char>::empty());
    lemma_trim_idempotent(server.workspace_id);
    let key = trim(s.workspace_id);
    let ws = saved.workspaces;
    let again_ws = ensure_workspace(ws, s.workspace_id, name, s.url);
    if key.len() > 0 {
        lemma_ensure_workspace_selects(v.workspaces, s.workspace_id, name, s.url);
        let j = find_key(workspace_keys(ws), key);
        lemma_find_key(workspace_keys(ws), key);
        assert(again_ws[j] == ws[j]);
        assert(again_ws =~= ws);
    }
}

/// Updating a job replaces it where it stands: the jobs keep their number and
/// the order of their ids.
pub proof fn lemma_update_in_place(v: ConfigStoreView, job_id: Seq<char>, nv: PersistedDatasourceView)
    requires
        v.find_job(job_id) is Some,
        nv.job.id == job_id,
    ensures
        ({
            let after = v.with_job(v.job_index(job_id), nv);
            &&& after.active_datasources().len() == v.active_datasources().len()
            &&& datasource_keys(after.active_datasources()) == datasource_keys(v.active_datasources())
        }),
{
    let ds = v.active_datasources();
    let d = v.job_index(job_id);
    lemma_find_key(datasource_keys(ds), job_id);
    lemma_with_job_find(v, job_id, nv);
    assert(datasource_keys(ds.update(d, nv)) =~= datasource_keys(ds));
}

/// Creating a job appends it to the jobs the active workspace had, and a job
/// whose id was not taken is then found under it with a fresh cursor.
pub proof fn lemma_create_appends(v: ConfigStoreView, nd: PersistedDatasourceView)
    requires
        v.active_key().len() > 0,
    ensures
        ({
            let e = v.ensured();
            let after = e.with_active_datasources(e.active_datasources().push(nd));
            &&& after.active_datasources() == v.active_datasources().push(nd)
            &&& v.find_job(nd.job.id) is None ==> after.find_job(nd.job.id) == Some(nd)
        }),
{
    lemma_ensured_active(v);
    let e = v.ensured();
    lemma_with_active(e, e.active_datasources().push(nd));
    if v.find_job(nd.job.id) is None {
        lemma_created_job_found(e, nd);
    }
}

// ---------------------------------------------------------------------------
// Generated test files
// ---------------------------------------------------------------------------
/// The folder, under the configuration directory, that holds generated test
/// CSV files.
pub const GENERATED_TEST_CSV_DIR: &'static str = "generated-test-csv";

pub open spec fn is_path_separator(c: char) -> bool {
    c == '/' || c == '\\'
}

/// `path` has a `generated-test-csv` folder starting at `i`: the name is a
/// whole path component, followed by a separator.
pub open spec fn generated_dir_at(path: Seq<char>, i: int) -> bool {
    let m = "generated-test-csv"@;
    &&& 0 <= i
    &&& i + m.len() < path.len()
    &&& path.subrange(i, i + m.len()) == m
    &&& (i == 0 || is_path_separator(path[i - 1]))
    &&& is_path_separator(path[i + m.len()])
}

/// The first position at or after `i` where a `generated-test-csv` folder
/// starts, or `path.len()`.
pub open spec fn first_generated_dir(path: Seq<char>, i: int) -> int
    decreases path.len() - i,
{
    if i < 0 || i >= path.len() {
        path.len() as int
    } else if generated_dir_at(path, i) {
        i
    } else {
        first_generated_dir(path, i + 1)
    }
}

/// A path into a `generated-test-csv` folder moved under the current
/// configuration directory: what follows the first such folder, kept under
/// `config_dir/generated-test-csv`; `None` for other paths.
pub open spec fn generated_path_rewrite(path: Seq<char>, config_dir: Seq<char>, separator: char) -> Option<
    Seq<char>,
> {
    let i = first_generated_dir(path, 0);
    if i < path.len() {
        Some(
            crate::service_paths::joined(
                crate::service_paths::joined(config_dir, "generated-test-csv"@, separator),
                path.subrange(i + 19, path.len() as int),
                separator,
            ),
        )
    } else {
        None
    }
}

/// The path a job watches once generated test files are looked up in the
/// current configuration directory.
pub open spec fn current_path(path: Seq<char>, config_dir: Seq<char>, separator: char) -> Seq<char> {
    match generated_path_rewrite(path, config_dir, separator) {
        Some(p) => p,
        None => path,
    }
}

fn generated_dir_at_exec(cs: &Vec<char>, m: &Vec<char>, i: usize) -> (res: bool)
    requires
        m@ == "generated-test-csv"@,
        i < cs@.len(),
    ensures
        res == generated_dir_at(cs@, i as int),
{
    proof {
        reveal_strlit("generated-test-csv");
    }
    let n = m.len();
    if n >= cs.len() - i {
        return false;
    }
    if i > 0 && !(cs[i - 1] == '/' || cs[i - 1] == '\\') {
        return false;
    }
    if !(cs[i + n] == '/' || cs[i + n] == '\\') {
        return false;
    }
    let mut k: usize = 0;
    while k < n
        invariant
            m@ == "generated-test-csv"@,
            k <= n == m@.len() == 18,
            i + n < cs@.len(),
            cs@.len() <= usize::MAX,
            forall|j: int| 0 <= j < k ==> cs@[i + j] == m@[j],
        decreases n - k,
    {
        assert(i + k < cs@.len());
        if cs[i + k] != m[k] {
            assert(cs@.subrange(i as int, i + n)[k as int] != m@[k as int]);
            return false;
        }
        k = k + 1;
    }
    assert(cs@.subrange(i as int, i + n) =~= m@);
    true
}

/// The path of a generated test file moved under `config_dir` (see
/// [`generated_path_rewrite`]).
pub fn rewrite_generated_test_path(path: &str, config_dir: &str, separator: char) -> (res: Option<String>)
    ensures
        match (res, generated_path_rewrite(path@, config_dir@, separator)) {
            (Some(p), Some(v)) => p@ == v,
            (None, None) => true,
            _ => false,
        },
{
    proof {
        reveal_strlit("generated-test-csv");
    }
    let cs = crate::text::chars_of(path);
    let m = crate::text::chars_of(GENERATED_TEST_CSV_DIR);
    let mut i: usize = 0;
    while i < cs.len()
        invariant
            cs@ == path@,
            m@ == "generated-test-csv"@,
            i <= cs@.len(),
            first_generated_dir(cs@, 0) == first_generated_dir(cs@, i as int),
        decreases cs@.len() - i,
    {
        proof {
            reveal_strlit("generated-test-csv");
        }
        if generated_dir_at_exec(&cs, &m, i) {
            assert(i + 18 < cs@.len());
            let mut rest: Vec<char> = Vec::new();
            let mut j = i + 19;
            while j < cs.len()
                invariant
                    i + 19 <= j <= cs@.len(),
                    rest@ == cs@.subrange(i + 19, j as int),
                decreases cs@.len() - j,
            {
                rest.push(cs[j]);
                assert(cs@.subrange(i + 19, j + 1) =~= cs@.subrange(i + 19, j as int).push(cs@[j as int]));
                j = j + 1;
            }
            let rest_text = crate::text::string_from(rest.as_slice());
            let dir = crate::service_paths::join_path(config_dir, GENERATED_TEST_CSV_DIR, separator);
            return Some(crate::service_paths::join_path(dir.as_str(), rest_text.as_str(), separator));
        }
        i = i + 1;
    }
    None
}

/// The datasource with its watched path looked up in the current
/// configuration directory.
pub open spec fn with_current_path(d: PersistedDatasourceView, config_dir: Seq<char>, separator: char) -> PersistedDatasourceView {
    PersistedDatasourceView {
        job: JobConfigView {
            settings: JobSettingsView {
                file_path: current_path(d.job.settings.file_path, config_dir, separator),
                ..d.job.settings
            },
            ..d.job
        },
        ..d
    }
}

/// Moves the paths of a workspace's jobs that point into a
/// `generated-test-csv` folder under the current configuration directory;
/// whether any path changed, so that the file is written again.
pub fn rewrite_generated_test_paths(workspace: WorkspaceStateFile, config_dir: &str, separator: char) -> (res: (
    WorkspaceStateFile,
    bool,
))
    ensures
        res.0@ == (WorkspaceView {
            datasources: workspace@.datasources.map_values(
                |d: PersistedDatasourceView| with_current_path(d, config_dir@, separator),
            ),
            ..workspace@
        }),
        res.1 == exists|k: int|
            0 <= k < workspace@.datasources.len() && current_path(
                (#[trigger] workspace@.datasources[k]).job.settings.file_path,
                config_dir@,
                separator,
            ) != workspace@.datasources[k].job.settings.file_path,
{
    let ghost all = workspace@.datasources;
    let WorkspaceStateFile { version, workspace_id, workspace_name, hydroserver_url, datasources } = workspace;
    let mut out: Vec<PersistedDatasource> = Vec::new();
    let mut changed = false;
    for i in 0..datasources.len()
        invariant
            all == datasources_view(datasources@),
            out@.len() == i,
            forall|k: int| 0 <= k < i ==> (#[trigger] out@[k])@ == with_current_path(all[k], config_dir@, separator),
            changed == exists|k: int|
                0 <= k < i && current_path(
                    (#[trigger] all[k]).job.settings.file_path,
                    config_dir@,
                    separator,
                ) != all[k].job.settings.file_path,
    {
        let mut d = datasources[i].clone();
        assert(d@ == all[i as int]);
        match rewrite_generated_test_path(d.file_path.as_str(), config_dir, separator) {
            Some(p) => {
                if !crate::text::str_eq(p.as_str(), d.file_path.as_str()) {
                    changed = true;
                }
                d.file_path = p;
            },
            None => {},
        }
        out.push(d);
    }
    assert(datasources_view(out@) =~= all.map_values(
        |d: PersistedDatasourceView| with_current_path(d, config_dir@, separator),
    ));
    (WorkspaceStateFile { version, workspace_id, workspace_name, hydroserver_url, datasources: out }, changed)
}

} // verus!
