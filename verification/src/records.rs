//! What is kept for each job between runs: per-datastream upload cursors,
//! the job-level aggregates derived from them, and the workspace that holds
//! the jobs of one HydroServer workspace.
use vstd::prelude::*;

use crate::models::{
    clone_mappings, clone_opt_string, mappings_view, opt_view, ColumnMapping, ColumnMappingView,
    FileConfig, JobConfig, JobConfigView, JobSettingsView, LogLevel, ServerConfig,
    ServerConfigView, UtcDateTime, dt_le, dt_le_exec,
};
use crate::text::str_eq;

verus! {

// ---------------------------------------------------------------------------
// Finding a key
// ---------------------------------------------------------------------------
/// The index of the first key equal to `k`, or `keys.len()` when none is.
pub open spec fn find_key(keys: Seq<Seq<char>>, k: Seq<char>) -> int
    decreases keys.len(),
{
    if keys.len() == 0 {
        0
    } else if keys[0] == k {
        0
    } else {
        1 + find_key(keys.drop_first(), k)
    }
}

pub proof fn lemma_find_key(keys: Seq<Seq<char>>, k: Seq<char>)
    ensures
        0 <= find_key(keys, k) <= keys.len(),
        forall|j: int| 0 <= j < find_key(keys, k) ==> keys[j] != k,
        find_key(keys, k) < keys.len() ==> keys[find_key(keys, k)] == k,
    decreases keys.len(),
{
    if keys.len() > 0 && keys[0] != k {
        lemma_find_key(keys.drop_first(), k);
        assert forall|j: int| 0 <= j < find_key(keys, k) implies keys[j] != k by {
            if j > 0 {
                assert(keys[j] == keys.drop_first()[j - 1]);
            }
        }
    }
}

/// No key occurs twice.
pub open spec fn distinct_keys(keys: Seq<Seq<char>>) -> bool {
    forall|i: int, j: int| 0 <= i < j < keys.len() ==> keys[i] != keys[j]
}

/// Any index with the defining properties of `find_key` is `find_key`.
pub proof fn lemma_find_key_unique(keys: Seq<Seq<char>>, k: Seq<char>, j: int)
    requires
        0 <= j <= keys.len(),
        forall|i: int| 0 <= i < j ==> keys[i] != k,
        j < keys.len() ==> keys[j] == k,
    ensures
        find_key(keys, k) == j,
{
    lemma_find_key(keys, k);
}

// ---------------------------------------------------------------------------
// Per-datastream cursors
// ---------------------------------------------------------------------------
/// How far one datastream of a job has been uploaded.
#[derive(Debug, PartialEq, Eq)]
pub struct DatastreamCursor {
    pub last_pushed_row_index: Option<u64>,
    pub last_pushed_timestamp: Option<UtcDateTime>,
    pub last_error: Option<String>,
}

pub struct DatastreamCursorView {
    pub last_pushed_row_index: Option<u64>,
    pub last_pushed_timestamp: Option<UtcDateTime>,
    pub last_error: Option<Seq<char>>,
}

impl View for DatastreamCursor {
    type V = DatastreamCursorView;

    open spec fn view(&self) -> DatastreamCursorView {
        DatastreamCursorView {
            last_pushed_row_index: self.last_pushed_row_index,
            last_pushed_timestamp: self.last_pushed_timestamp,
            last_error: opt_view(self.last_error),
        }
    }
}

impl Clone for DatastreamCursor {
    fn clone(&self) -> (res: Self)
        ensures
            res@ == self@,
    {
        DatastreamCursor {
            last_pushed_row_index: self.last_pushed_row_index,
            last_pushed_timestamp: self.last_pushed_timestamp,
            last_error: clone_opt_string(&self.last_error),
        }
    }
}

/// A cursor with nothing uploaded and no error.
pub open spec fn empty_cursor() -> DatastreamCursorView {
    DatastreamCursorView {
        last_pushed_row_index: None,
        last_pushed_timestamp: None,
        last_error: None,
    }
}

impl DatastreamCursor {
    pub fn empty() -> (res: DatastreamCursor)
        ensures
            res@ == empty_cursor(),
    {
        DatastreamCursor {
            last_pushed_row_index: None,
            last_pushed_timestamp: None,
            last_error: None,
        }
    }
}

/// The datastream ids of a list of cursors.
pub open spec fn cursor_keys(cs: Seq<(Seq<char>, DatastreamCursorView)>) -> Seq<Seq<char>> {
    cs.map_values(|e: (Seq<char>, DatastreamCursorView)| e.0)
}

/// The cursor kept for datastream `id`, if any.
pub open spec fn lookup_cursor(cs: Seq<(Seq<char>, DatastreamCursorView)>, id: Seq<char>) -> Option<
    DatastreamCursorView,
> {
    let i = find_key(cursor_keys(cs), id);
    if i < cs.len() {
        Some(cs[i].1)
    } else {
        None
    }
}

/// `cs` with the cursor of `id` replaced by `c`, or `c` appended for a new id.
pub open spec fn upsert_cursor(
    cs: Seq<(Seq<char>, DatastreamCursorView)>,
    id: Seq<char>,
    c: DatastreamCursorView,
) -> Seq<(Seq<char>, DatastreamCursorView)> {
    let i = find_key(cursor_keys(cs), id);
    if i < cs.len() {
        cs.update(i, (id, c))
    } else {
        cs.push((id, c))
    }
}

/// The view of a list of cursors kept by exec code.
pub open spec fn cursors_view(cs: Seq<(String, DatastreamCursor)>) -> Seq<
    (Seq<char>, DatastreamCursorView),
> {
    cs.map_values(|e: (String, DatastreamCursor)| (e.0@, e.1@))
}

/// The index of the cursor of `id` in `cs`, or `cs.len()`.
pub fn find_cursor(cs: &Vec<(String, DatastreamCursor)>, id: &str) -> (res: usize)
    ensures
        res == find_key(cursor_keys(cursors_view(cs@)), id@),
        res <= cs@.len(),
{
    let ghost keys = cursor_keys(cursors_view(cs@));
    let mut i: usize = 0;
    while i < cs.len()
        invariant
            i <= cs@.len(),
            keys == cursor_keys(cursors_view(cs@)),
            keys.len() == cs@.len(),
            forall|j: int| 0 <= j < i ==> keys[j] != id@,
        decreases cs@.len() - i,
    {
        assert(keys[i as int] == cs@[i as int].0@);
        if str_eq(cs[i].0.as_str(), id) {
            proof {
                lemma_find_key_unique(keys, id@, i as int);
            }
            return i;
        }
        i = i + 1;
    }
    proof {
        lemma_find_key_unique(keys, id@, i as int);
    }
    i
}

/// A copy of a list of cursors.
pub fn clone_cursors(cs: &Vec<(String, DatastreamCursor)>) -> (res: Vec<(String, DatastreamCursor)>)
    ensures
        cursors_view(res@) == cursors_view(cs@),
{
    let mut out: Vec<(String, DatastreamCursor)> = Vec::new();
    for i in 0..cs.len()
        invariant
            out@.len() == i,
            i <= cs@.len(),
            forall|k: int| 0 <= k < i ==> (#[trigger] out@[k]).0@ == cs@[k].0@ && out@[k].1@ == cs@[k].1@,
    {
        out.push((cs[i].0.clone(), cs[i].1.clone()));
    }
    assert(cursors_view(out@) =~= cursors_view(cs@));
    out
}

// ---------------------------------------------------------------------------
// Job-level aggregates
// ---------------------------------------------------------------------------
/// The uploaded row index of datastream `id`, if it has one.
pub open spec fn row_of(cs: Seq<(Seq<char>, DatastreamCursorView)>, id: Seq<char>) -> Option<u64> {
    match lookup_cursor(cs, id) {
        Some(c) => c.last_pushed_row_index,
        None => None,
    }
}

/// The uploaded timestamp of datastream `id`, if it has one.
pub open spec fn ts_of(cs: Seq<(Seq<char>, DatastreamCursorView)>, id: Seq<char>) -> Option<
    UtcDateTime,
> {
    match lookup_cursor(cs, id) {
        Some(c) => c.last_pushed_timestamp,
        None => None,
    }
}

/// The last error of datastream `id`, if it has one.
pub open spec fn error_of(cs: Seq<(Seq<char>, DatastreamCursorView)>, id: Seq<char>) -> Option<
    Seq<char>,
> {
    match lookup_cursor(cs, id) {
        Some(c) => c.last_error,
        None => None,
    }
}

/// The smallest row index over `ids`; `None` when `ids` is empty or any of
/// them has no row index yet.
pub open spec fn aggregate_row(ids: Seq<Seq<char>>, cs: Seq<(Seq<char>, DatastreamCursorView)>) -> Option<u64>
    decreases ids.len(),
{
    if ids.len() == 0 {
        None
    } else {
        let last = row_of(cs, ids.last());
        if ids.len() == 1 {
            last
        } else {
            match (aggregate_row(ids.drop_last(), cs), last) {
                (Some(a), Some(b)) => Some(if a <= b { a } else { b }),
                _ => None,
            }
        }
    }
}

/// The earliest timestamp over `ids`; `None` when `ids` is empty or any of
/// them has no timestamp yet.
pub open spec fn aggregate_ts(ids: Seq<Seq<char>>, cs: Seq<(Seq<char>, DatastreamCursorView)>) -> Option<UtcDateTime>
    decreases ids.len(),
{
    if ids.len() == 0 {
        None
    } else {
        let last = ts_of(cs, ids.last());
        if ids.len() == 1 {
            last
        } else {
            match (aggregate_ts(ids.drop_last(), cs), last) {
                (Some(a), Some(b)) => Some(if dt_le(a, b) { a } else { b }),
                _ => None,
            }
        }
    }
}

/// The error of the first of `ids` that has one.
pub open spec fn aggregate_error(ids: Seq<Seq<char>>, cs: Seq<(Seq<char>, DatastreamCursorView)>) -> Option<Seq<char>>
    decreases ids.len(),
{
    if ids.len() == 0 {
        None
    } else {
        match aggregate_error(ids.drop_last(), cs) {
            Some(e) => Some(e),
            None => error_of(cs, ids.last()),
        }
    }
}

/// The datastream ids of a list of mappings, in order.
pub open spec fn mapping_ids(ms: Seq<ColumnMappingView>) -> Seq<Seq<char>> {
    ms.map_values(|m: ColumnMappingView| m.datastream_id)
}

/// The job-level row index, timestamp and error derived from the cursors of
/// the datastreams that `mappings` name.
fn aggregates_for(mappings: &Vec<ColumnMapping>, cs: &Vec<(String, DatastreamCursor)>) -> (res: (
    Option<u64>,
    Option<UtcDateTime>,
    Option<String>,
))
    ensures
        res.0 == aggregate_row(mapping_ids(mappings_view(mappings@)), cursors_view(cs@)),
        res.1 == aggregate_ts(mapping_ids(mappings_view(mappings@)), cursors_view(cs@)),
        opt_view(res.2) == aggregate_error(mapping_ids(mappings_view(mappings@)), cursors_view(cs@)),
{
    let ghost ids = mapping_ids(mappings_view(mappings@));
    let ghost cv = cursors_view(cs@);
    let mut min_row: Option<u64> = None;
    let mut min_ts: Option<UtcDateTime> = None;
    let mut any_missing_row = false;
    let mut any_missing_ts = false;
    let mut error: Option<String> = None;
    let n = mappings.len();
    for i in 0..n
        invariant
            n == mappings@.len(),
            ids == mapping_ids(mappings_view(mappings@)),
            cv == cursors_view(cs@),
            ids.len() == n,
            aggregate_row(ids.take(i as int), cv) == (if any_missing_row {
                None
            } else {
                min_row
            }),
            i > 0 && !any_missing_row ==> min_row is Some,
            i == 0 ==> !any_missing_row && !any_missing_ts,
            aggregate_ts(ids.take(i as int), cv) == (if any_missing_ts {
                None
            } else {
                min_ts
            }),
            i > 0 && !any_missing_ts ==> min_ts is Some,
            opt_view(error) == aggregate_error(ids.take(i as int), cv),
    {
        let id = mappings[i].datastream_id.as_str();
        assert(id@ == ids[i as int]);
        assert(ids.take(i + 1).drop_last() =~= ids.take(i as int));
        assert(ids.take(i + 1).last() == ids[i as int]);
        let k = find_cursor(cs, id);
        assert(cursor_keys(cv).len() == cs@.len());
        let (row, ts, err) = if k < cs.len() {
            assert(cv[k as int].1 == cs@[k as int].1@);
            (cs[k].1.last_pushed_row_index, cs[k].1.last_pushed_timestamp, clone_opt_string(&cs[k].1.last_error))
        } else {
            (None, None, None)
        };
        assert(row == row_of(cv, ids[i as int]));
        assert(ts == ts_of(cv, ids[i as int]));
        assert(opt_view(err) == error_of(cv, ids[i as int]));
        let ghost prev_row = aggregate_row(ids.take(i as int), cv);
        let ghost prev_ts = aggregate_ts(ids.take(i as int), cv);
        assert(aggregate_row(ids.take(i + 1), cv) == if i == 0 {
            row
        } else {
            match (prev_row, row) {
                (Some(a), Some(b)) => Some(if a <= b { a } else { b }),
                _ => None,
            }
        });
        assert(aggregate_ts(ids.take(i + 1), cv) == if i == 0 {
            ts
        } else {
            match (prev_ts, ts) {
                (Some(a), Some(b)) => Some(if dt_le(a, b) { a } else { b }),
                _ => None,
            }
        });
        match row {
            Some(idx) => {
                min_row = match min_row {
                    Some(current) => Some(if current <= idx { current } else { idx }),
                    None => Some(idx),
                };
            },
            None => {
                any_missing_row = true;
            },
        }
        match ts {
            Some(t) => {
                min_ts = match min_ts {
                    Some(current) => Some(if dt_le_exec(current, t) { current } else { t }),
                    None => Some(t),
                };
            },
            None => {
                any_missing_ts = true;
            },
        }
        if error.is_none() {
            error = err;
        }
    }
    assert(ids.take(n as int) =~= ids);
    (if any_missing_row { None } else { min_row }, if any_missing_ts { None } else { min_ts }, error)
}

// ---------------------------------------------------------------------------
// Job cursors and persisted datasources
// ---------------------------------------------------------------------------
/// Where a job stands: the aggregates over its datastreams, when it last ran,
/// whether it is running, and the cursor of each datastream.
#[derive(Debug, PartialEq, Eq)]
pub struct JobCursor {
    pub last_pushed_timestamp: Option<UtcDateTime>,
    pub last_pushed_row_index: Option<u64>,
    pub last_run_at: Option<UtcDateTime>,
    pub last_error: Option<String>,
    pub is_running: bool,
    pub datastream_cursors: Vec<(String, DatastreamCursor)>,
}

pub struct JobCursorView {
    pub last_pushed_timestamp: Option<UtcDateTime>,
    pub last_pushed_row_index: Option<u64>,
    pub last_run_at: Option<UtcDateTime>,
    pub last_error: Option<Seq<char>>,
    pub is_running: bool,
    pub datastream_cursors: Seq<(Seq<char>, DatastreamCursorView)>,
}

impl View for JobCursor {
    type V = JobCursorView;

    open spec fn view(&self) -> JobCursorView {
        JobCursorView {
            last_pushed_timestamp: self.last_pushed_timestamp,
            last_pushed_row_index: self.last_pushed_row_index,
            last_run_at: self.last_run_at,
            last_error: opt_view(self.last_error),
            is_running: self.is_running,
            datastream_cursors: cursors_view(self.datastream_cursors@),
        }
    }
}

/// The cursor of a job that has never run.
pub open spec fn fresh_job_cursor() -> JobCursorView {
    JobCursorView {
        last_pushed_timestamp: None,
        last_pushed_row_index: None,
        last_run_at: None,
        last_error: None,
        is_running: false,
        datastream_cursors: Seq::empty(),
    }
}

impl JobCursor {
    pub fn fresh() -> (res: JobCursor)
        ensures
            res@ == fresh_job_cursor(),
    {
        let cs: Vec<(String, DatastreamCursor)> = Vec::new();
        assert(cursors_view(cs@) =~= Seq::empty());
        JobCursor {
            last_pushed_timestamp: None,
            last_pushed_row_index: None,
            last_run_at: None,
            last_error: None,
            is_running: false,
            datastream_cursors: cs,
        }
    }

    /// The cursor kept for datastream `datastream_id`, if any.
    pub fn datastream_cursor(&self, datastream_id: &str) -> (res: Option<&DatastreamCursor>)
        ensures
            match res {
                Some(c) => lookup_cursor(self@.datastream_cursors, datastream_id@) == Some(c@),
                None => lookup_cursor(self@.datastream_cursors, datastream_id@) is None,
            },
    {
        let k = find_cursor(&self.datastream_cursors, datastream_id);
        if k < self.datastream_cursors.len() {
            Some(&self.datastream_cursors[k].1)
        } else {
            None
        }
    }
}

/// A job as it is stored in its workspace: its configuration and its cursor.
#[derive(Debug, PartialEq, Eq)]
pub struct PersistedDatasource {
    pub id: String,
    pub name: String,
    pub enabled: bool,
    pub file_path: String,
    pub schedule_minutes: u32,
    pub file_config: FileConfig,
    pub column_mappings: Vec<ColumnMapping>,
    pub last_pushed_timestamp: Option<UtcDateTime>,
    pub last_pushed_row_index: Option<u64>,
    pub last_run_at: Option<UtcDateTime>,
    pub last_error: Option<String>,
    pub is_running: bool,
    pub datastream_cursors: Vec<(String, DatastreamCursor)>,
}

pub struct PersistedDatasourceView {
    pub job: JobConfigView,
    pub cursor: JobCursorView,
}

impl View for PersistedDatasource {
    type V = PersistedDatasourceView;

    open spec fn view(&self) -> PersistedDatasourceView {
        PersistedDatasourceView {
            job: JobConfigView {
                id: self.id@,
                settings: JobSettingsView {
                    name: self.name@,
                    enabled: self.enabled,
                    file_path: self.file_path@,
                    schedule_minutes: self.schedule_minutes,
                    file_config: self.file_config@,
                    column_mappings: mappings_view(self.column_mappings@),
                },
            },
            cursor: JobCursorView {
                last_pushed_timestamp: self.last_pushed_timestamp,
                last_pushed_row_index: self.last_pushed_row_index,
                last_run_at: self.last_run_at,
                last_error: opt_view(self.last_error),
                is_running: self.is_running,
                datastream_cursors: cursors_view(self.datastream_cursors@),
            },
        }
    }
}

impl Clone for PersistedDatasource {
    fn clone(&self) -> (res: Self)
        ensures
            res@ == self@,
    {
        PersistedDatasource {
            id: self.id.clone(),
            name: self.name.clone(),
            enabled: self.enabled,
            file_path: self.file_path.clone(),
            schedule_minutes: self.schedule_minutes,
            file_config: self.file_config.clone(),
            column_mappings: clone_mappings(&self.column_mappings),
            last_pushed_timestamp: self.last_pushed_timestamp,
            last_pushed_row_index: self.last_pushed_row_index,
            last_run_at: self.last_run_at,
            last_error: clone_opt_string(&self.last_error),
            is_running: self.is_running,
            datastream_cursors: clone_cursors(&self.datastream_cursors),
        }
    }
}

/// The job-level aggregates of `d` recomputed from its datastream cursors.
pub open spec fn with_aggregates(d: PersistedDatasourceView) -> PersistedDatasourceView {
    let ids = mapping_ids(d.job.settings.column_mappings);
    let cs = d.cursor.datastream_cursors;
    PersistedDatasourceView {
        cursor: JobCursorView {
            last_pushed_row_index: aggregate_row(ids, cs),
            last_pushed_timestamp: aggregate_ts(ids, cs),
            last_error: aggregate_error(ids, cs),
            ..d.cursor
        },
        ..d
    }
}

/// Recomputes the job-level row index, timestamp and error from the cursors
/// of the datastreams that the job's mappings name.
pub fn recompute_job_aggregates(datasource: &mut PersistedDatasource)
    ensures
        final(datasource)@ == with_aggregates(old(datasource)@),
{
    let (row, ts, error) = aggregates_for(&datasource.column_mappings, &datasource.datastream_cursors);
    datasource.last_pushed_row_index = row;
    datasource.last_pushed_timestamp = ts;
    datasource.last_error = error;
}

impl PersistedDatasource {
    pub fn to_job_config(&self) -> (res: JobConfig)
        ensures
            res@ == self@.job,
    {
        JobConfig {
            id: self.id.clone(),
            name: self.name.clone(),
            enabled: self.enabled,
            file_path: self.file_path.clone(),
            schedule_minutes: self.schedule_minutes,
            file_config: self.file_config.clone(),
            column_mappings: clone_mappings(&self.column_mappings),
        }
    }

    pub fn to_cursor(&self) -> (res: JobCursor)
        ensures
            res@ == self@.cursor,
    {
        JobCursor {
            last_pushed_timestamp: self.last_pushed_timestamp,
            last_pushed_row_index: self.last_pushed_row_index,
            last_run_at: self.last_run_at,
            last_error: clone_opt_string(&self.last_error),
            is_running: self.is_running,
            datastream_cursors: clone_cursors(&self.datastream_cursors),
        }
    }

    /// A datasource for `job` with `cursor`, or with a fresh cursor.
    pub fn from_job(job: JobConfig, cursor: Option<JobCursor>) -> (res: PersistedDatasource)
        ensures
            res@.job == job@,
            res@.cursor == match cursor {
                Some(c) => c@,
                None => fresh_job_cursor(),
            },
    {
        let cursor = match cursor {
            Some(c) => c,
            None => JobCursor::fresh(),
        };
        PersistedDatasource {
            id: job.id,
            name: job.name,
            enabled: job.enabled,
            file_path: job.file_path,
            schedule_minutes: job.schedule_minutes,
            file_config: job.file_config,
            column_mappings: job.column_mappings,
            last_pushed_timestamp: cursor.last_pushed_timestamp,
            last_pushed_row_index: cursor.last_pushed_row_index,
            last_run_at: cursor.last_run_at,
            last_error: cursor.last_error,
            is_running: cursor.is_running,
            datastream_cursors: cursor.datastream_cursors,
        }
    }
}

} // verus!
