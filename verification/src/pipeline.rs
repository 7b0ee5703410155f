//! Turning the rows of a watched CSV file into observations: which columns
//! hold the timestamp and the values, which rows are new since the last scan,
//! and which file paths are due for a scheduled scan.
use vstd::prelude::*;

use crate::csv_preview::{decode_text, decoded_text};
use crate::job_logs::append_str;
use crate::models::{
    ColumnMapping, ColumnMappingView, FileConfig, FileConfigView, IdentifierType, JobConfig,
    JobConfigView, ServerConfig, UtcDateTime, dt_le, dt_lt, dt_lt_exec, mappings_view, owned,
};
use crate::config_store::{jobs_view, AppConfig};
use crate::records::{find_key, lemma_find_key, lemma_find_key_unique, JobCursor, JobCursorView};
use crate::text::{
    chars_eq, chars_eq_ignore_ascii_case, chars_of, decimal_string, eq_ignore_ascii_case,
    is_float_literal, is_float_text, parse_unsigned, parse_unsigned_chars, str_eq, trim, trim_chars,
    trim_str, u64_to_decimal,
};
use crate::timestamp::{parse_timestamp_to_utc, spec_parse_timestamp};

verus! {

// ---------------------------------------------------------------------------
// Reading rows
// ---------------------------------------------------------------------------
/// The records the `csv` crate reads from `text` with `delimiter` (as a byte),
/// with no header row and rows of any width: each a list of cells, or the
/// reader's error message.
pub uninterp spec fn csv_records(text: Seq<char>, delimiter: char) -> Result<Seq<Seq<Seq<char>>>, Seq<char>>;

pub open spec fn row_view(row: Vec<String>) -> Seq<Seq<char>> {
    row@.map_values(|c: String| c@)
}

pub open spec fn rows_view(rows: Seq<Vec<String>>) -> Seq<Seq<Seq<char>>> {
    rows.map_values(|r: Vec<String>| row_view(r))
}

/// The view of the reader's answer.
pub open spec fn read_view(r: Result<Vec<Vec<String>>, String>) -> Result<Seq<Seq<Seq<char>>>, Seq<char>> {
    match r {
        Ok(rows) => Ok(rows_view(rows@)),
        Err(e) => Err(e@),
    }
}

/// Reads every record of `csv_text` with the `csv` crate's `ReaderBuilder`
/// (no headers, flexible row width, `delimiter` as a byte). The contract
/// claims only that the result is the reader's, named `csv_records`.
#[verifier::external_body]
fn csv_reader_records(csv_text: &str, delimiter: char) -> (res: Result<Vec<Vec<String>>, String>)
    ensures
        csv_records(csv_text@, delimiter) == read_view(res),
{
    let mut reader = csv::ReaderBuilder::new();
    reader.has_headers(false).delimiter(delimiter as u8).flexible(true);
    reader.from_reader(csv_text.as_bytes()).records().map(|record| {
        record.map(|r| r.iter().map(|v| v.to_string()).collect()).map_err(|err| err.to_string())
    }).collect()
}

/// The rows of `csv_text` split with `delimiter`: the records the `csv`
/// reader gives, or its error.
pub fn read_csv_rows(csv_text: &str, delimiter: char) -> (res: Result<Vec<Vec<String>>, String>)
    ensures
        csv_records(csv_text@, delimiter) == read_view(res),
{
    csv_reader_records(csv_text, delimiter)
}

/// The cell at `index` of `row`, or the empty string past its end.
pub open spec fn cell(row: Seq<Seq<char>>, index: int) -> Seq<char> {
    if 0 <= index < row.len() {
        row[index]
    } else {
        Seq::empty()
    }
}

// ---------------------------------------------------------------------------
// Columns
// ---------------------------------------------------------------------------
pub open spec fn msg_bad_column_index(key: Seq<char>) -> Seq<char> {
    "Column index '"@ + key + "' is invalid."@
}

pub open spec fn msg_header_row_required() -> Seq<char> {
    "headerRow is required when using name-based column identifiers."@
}

pub open spec fn msg_header_row_missing() -> Seq<char> {
    "The configured header row does not exist in the file."@
}

pub open spec fn msg_column_not_found(key: Seq<char>) -> Seq<char> {
    "Column '"@ + key
        + "' was not found in the configured header row. Confirm the delimiter and headerRow settings match the source file."@
}

/// The index of the first cell of `header` that equals `target` once trimmed.
pub open spec fn find_trimmed(header: Seq<Seq<char>>, target: Seq<char>) -> int
    decreases header.len(),
{
    if header.len() == 0 {
        0
    } else if trim(header[0]) == target {
        0
    } else {
        1 + find_trimmed(header.drop_first(), target)
    }
}

/// The index of the first cell of `header` that equals `target` up to ASCII
/// case once trimmed.
pub open spec fn find_trimmed_ci(header: Seq<Seq<char>>, target: Seq<char>) -> int
    decreases header.len(),
{
    if header.len() == 0 {
        0
    } else if eq_ignore_ascii_case(trim(header[0]), target) {
        0
    } else {
        1 + find_trimmed_ci(header.drop_first(), target)
    }
}

proof fn lemma_find_trimmed(header: Seq<Seq<char>>, target: Seq<char>, j: int)
    requires
        0 <= j <= header.len(),
        forall|i: int| 0 <= i < j ==> trim(#[trigger] header[i]) != target,
        j < header.len() ==> trim(header[j]) == target,
    ensures
        find_trimmed(header, target) == j,
    decreases header.len(),
{
    if header.len() > 0 && j > 0 {
        assert forall|i: int| 0 <= i < j - 1 implies trim(#[trigger] header.drop_first()[i]) != target by {
            assert(header.drop_first()[i] == header[i + 1]);
        }
        assert(trim(header[0]) != target);
        lemma_find_trimmed(header.drop_first(), target, j - 1);
    }
}

proof fn lemma_find_trimmed_ci(header: Seq<Seq<char>>, target: Seq<char>, j: int)
    requires
        0 <= j <= header.len(),
        forall|i: int| 0 <= i < j ==> !eq_ignore_ascii_case(trim(#[trigger] header[i]), target),
        j < header.len() ==> eq_ignore_ascii_case(trim(header[j]), target),
    ensures
        find_trimmed_ci(header, target) == j,
    decreases header.len(),
{
    if header.len() > 0 && j > 0 {
        assert forall|i: int| 0 <= i < j - 1 implies !eq_ignore_ascii_case(trim(#[trigger] header.drop_first()[i]), target) by {
            assert(header.drop_first()[i] == header[i + 1]);
        }
        assert(!eq_ignore_ascii_case(trim(header[0]), target));
        lemma_find_trimmed_ci(header.drop_first(), target, j - 1);
    }
}

/// The index of the column named by `key` (see `resolve_column_index`).
pub open spec fn column_index(rows: Seq<Seq<Seq<char>>>, fc: FileConfigView, key: Seq<char>) -> Result<
    int,
    Seq<char>,
> {
    if fc.identifier_type == IdentifierType::Index {
        match parse_unsigned(trim(key), usize::MAX as int) {
            Some(v) => if v > 0 {
                Ok(v - 1)
            } else {
                Err(msg_bad_column_index(key))
            },
            None => Err(msg_bad_column_index(key)),
        }
    } else {
        match fc.header_row {
            None => Err(msg_header_row_required()),
            Some(h) => {
                let hi = if h > 0 {
                    h - 1
                } else {
                    0
                };
                if hi >= rows.len() {
                    Err(msg_header_row_missing())
                } else {
                    let header = rows[hi];
                    let t = trim(key);
                    let p = find_trimmed(header, t);
                    let q = find_trimmed_ci(header, t);
                    if p < header.len() {
                        Ok(p)
                    } else if q < header.len() {
                        Ok(q)
                    } else {
                        Err(msg_column_not_found(key))
                    }
                }
            },
        }
    }
}

fn quoted_message(prefix: &str, key: &str, suffix: &str) -> (res: String)
    ensures
        res@ == prefix@ + key@ + suffix@,
{
    let mut out = String::new();
    append_str(&mut out, prefix);
    append_str(&mut out, key);
    append_str(&mut out, suffix);
    assert(out@ =~= prefix@ + key@ + suffix@);
    out
}

/// The zero-based index of the column that `key` names: a one-based number
/// when the file identifies columns by index, else the first header cell equal
/// to the trimmed key, exactly or else up to ASCII case.
pub fn resolve_column_index(rows: &Vec<Vec<String>>, file_config: &FileConfig, key: &str) -> (res: Result<usize, String>)
    ensures
        match (res, column_index(rows_view(rows@), file_config@, key@)) {
            (Ok(i), Ok(v)) => i == v,
            (Err(e), Err(m)) => e@ == m,
            _ => false,
        },
{
    let key_chars = chars_of(key);
    let target = trim_chars(key_chars.as_slice());
    if file_config.identifier_type == IdentifierType::Index {
        return match parse_unsigned_chars(target.as_slice(), usize::MAX as u64) {
            Some(v) => if v > 0 {
                Ok((v - 1) as usize)
            } else {
                Err(quoted_message("Column index '", key, "' is invalid."))
            },
            None => Err(quoted_message("Column index '", key, "' is invalid.")),
        };
    }
    let header_row = match file_config.header_row {
        Some(h) => h,
        None => return Err(owned("headerRow is required when using name-based column identifiers.")),
    };
    let header_index: usize = if header_row > 0 {
        (header_row - 1) as usize
    } else {
        0
    };
    if header_index >= rows.len() {
        return Err(owned("The configured header row does not exist in the file."));
    }
    let header = &rows[header_index];
    let ghost hv = row_view(*header);
    assert(hv == rows_view(rows@)[header_index as int]);
    let mut i: usize = 0;
    while i < header.len()
        invariant
            i <= header@.len(),
            hv == row_view(*header),
            file_config.identifier_type != IdentifierType::Index,
            file_config.header_row == Some(header_row),
            header_index == (if header_row > 0 { header_row - 1 } else { 0 }),
            header_index < rows@.len(),
            hv == rows_view(rows@)[header_index as int],
            target@ == trim(key@),
            forall|k: int| 0 <= k < i ==> trim(#[trigger] hv[k]) != target@,
        decreases header@.len() - i,
    {
        let cell_chars = chars_of(header[i].as_str());
        let trimmed = trim_chars(cell_chars.as_slice());
        assert(hv[i as int] == header@[i as int]@);
        if chars_eq(trimmed.as_slice(), target.as_slice()) {
            proof {
                lemma_find_trimmed(hv, target@, i as int);
            }
            return Ok(i);
        }
        i = i + 1;
    }
    proof {
        lemma_find_trimmed(hv, target@, i as int);
    }
    let mut j: usize = 0;
    while j < header.len()
        invariant
            j <= header@.len(),
            hv == row_view(*header),
            file_config.identifier_type != IdentifierType::Index,
            file_config.header_row == Some(header_row),
            header_index == (if header_row > 0 { header_row - 1 } else { 0 }),
            header_index < rows@.len(),
            hv == rows_view(rows@)[header_index as int],
            find_trimmed(hv, target@) == hv.len(),
            target@ == trim(key@),
            forall|k: int| 0 <= k < j ==> !eq_ignore_ascii_case(trim(#[trigger] hv[k]), target@),
        decreases header@.len() - j,
    {
        let cell_chars = chars_of(header[j].as_str());
        let trimmed = trim_chars(cell_chars.as_slice());
        assert(hv[j as int] == header@[j as int]@);
        if chars_eq_ignore_ascii_case(trimmed.as_slice(), target.as_slice()) {
            proof {
                lemma_find_trimmed_ci(hv, target@, j as int);
            }
            return Ok(j);
        }
        j = j + 1;
    }
    proof {
        lemma_find_trimmed_ci(hv, target@, j as int);
    }
    Err(
        quoted_message(
            "Column '",
            key,
            "' was not found in the configured header row. Confirm the delimiter and headerRow settings match the source file.",
        ),
    )
}

// ---------------------------------------------------------------------------
// Observations
// ---------------------------------------------------------------------------
/// A cell value to upload: a number when `str::parse::<f64>` accepts the text,
/// else the text itself.
#[derive(Debug, PartialEq, Eq)]
pub enum ObservationValue {
    Number(String),
    Text(String),
}

pub struct ObservationValueView {
    pub numeric: bool,
    pub text: Seq<char>,
}

impl View for ObservationValue {
    type V = ObservationValueView;

    open spec fn view(&self) -> ObservationValueView {
        match self {
            ObservationValue::Number(s) => ObservationValueView { numeric: true, text: s@ },
            ObservationValue::Text(s) => ObservationValueView { numeric: false, text: s@ },
        }
    }
}

impl Clone for ObservationValue {
    fn clone(&self) -> (res: Self)
        ensures
            res@ == self@,
    {
        match self {
            ObservationValue::Number(s) => ObservationValue::Number(s.clone()),
            ObservationValue::Text(s) => ObservationValue::Text(s.clone()),
        }
    }
}

pub open spec fn value_of(text: Seq<char>) -> ObservationValueView {
    ObservationValueView { numeric: is_float_text(text), text }
}

/// Classifies a trimmed cell as a number or as text.
pub fn parse_observation_value(value: &str) -> (res: ObservationValue)
    ensures
        res@ == value_of(value@),
{
    if is_float_literal(value) {
        ObservationValue::Number(owned(value))
    } else {
        ObservationValue::Text(owned(value))
    }
}

/// One value of one row for one datastream.
#[derive(Debug, PartialEq, Eq)]
pub struct ParsedObservation {
    pub datastream_id: String,
    pub datastream_name: String,
    pub timestamp: UtcDateTime,
    pub row_index: u64,
    pub value: ObservationValue,
}

pub struct ParsedObservationView {
    pub datastream_id: Seq<char>,
    pub datastream_name: Seq<char>,
    pub timestamp: UtcDateTime,
    pub row_index: int,
    pub value: ObservationValueView,
}

impl View for ParsedObservation {
    type V = ParsedObservationView;

    open spec fn view(&self) -> ParsedObservationView {
        ParsedObservationView {
            datastream_id: self.datastream_id@,
            datastream_name: self.datastream_name@,
            timestamp: self.timestamp,
            row_index: self.row_index as int,
            value: self.value@,
        }
    }
}

pub open spec fn observations_view(os: Seq<ParsedObservation>) -> Seq<ParsedObservationView> {
    os.map_values(|o: ParsedObservation| o@)
}

/// What one scan of a job's file found.
#[derive(Debug, PartialEq, Eq)]
pub struct JobScanResult {
    pub file_row_count: usize,
    pub observations: Vec<ParsedObservation>,
    pub reset_detected: bool,
}

#[derive(Clone, Copy, Debug, PartialEq, Eq, Structural)]
pub enum ScanMode {
    Incremental,
    FullResync,
}

/// A mapped column: the datastream it feeds and its index in each row.
pub struct MappedColumn {
    pub datastream_id: String,
    pub datastream_name: String,
    pub index: usize,
}

pub open spec fn columns_view(cs: Seq<MappedColumn>) -> Seq<(Seq<char>, Seq<char>, int)> {
    cs.map_values(|c: MappedColumn| (c.datastream_id@, c.datastream_name@, c.index as int))
}

/// Whether a row with `timestamp` at `row_index` lies past what `cursor` has
/// uploaded: a later timestamp, or the same one at a later row.
pub open spec fn newer_than_cursor(timestamp: UtcDateTime, row_index: int, cursor: JobCursorView) -> bool {
    match cursor.last_pushed_timestamp {
        Some(last) => if dt_lt(timestamp, last) {
            false
        } else if timestamp == last {
            match cursor.last_pushed_row_index {
                Some(r) => row_index > r,
                None => false,
            }
        } else {
            true
        },
        None => true,
    }
}

pub fn is_newer_than_cursor(timestamp: UtcDateTime, row_index: u64, cursor: &JobCursor) -> (res: bool)
    ensures
        res == newer_than_cursor(timestamp, row_index as int, cursor@),
{
    match cursor.last_pushed_timestamp {
        Some(last) => if dt_lt_exec(timestamp, last) {
            false
        } else if timestamp == last {
            match cursor.last_pushed_row_index {
                Some(r) => row_index > r,
                None => false,
            }
        } else {
            true
        },
        None => true,
    }
}

/// The observations of one row: one per mapped column whose trimmed cell is
/// not empty, in mapping order.
pub open spec fn row_observations(
    row: Seq<Seq<char>>,
    cols: Seq<(Seq<char>, Seq<char>, int)>,
    timestamp: UtcDateTime,
    row_index: int,
) -> Seq<ParsedObservationView>
    decreases cols.len(),
{
    if cols.len() == 0 {
        Seq::empty()
    } else {
        let prefix = row_observations(row, cols.drop_last(), timestamp, row_index);
        let c = cols.last();
        let v = trim(cell(row, c.2));
        if v.len() == 0 {
            prefix
        } else {
            prefix.push(
                ParsedObservationView {
                    datastream_id: c.0,
                    datastream_name: c.1,
                    timestamp,
                    row_index,
                    value: value_of(v),
                },
            )
        }
    }
}

pub open spec fn msg_row_error(row_index: int, error: Seq<char>) -> Seq<char> {
    "Row "@ + decimal_string(row_index as nat) + ": "@ + error
}

/// The observations of rows `start .. end` (zero-based), in order: rows with
/// an empty timestamp cell are skipped, a timestamp that does not parse stops
/// the scan with the row's one-based number, and in a full resync rows the
/// cursor already covers are skipped.
pub open spec fn scanned(
    rows: Seq<Seq<Seq<char>>>,
    start: int,
    end: int,
    ts_col: int,
    cols: Seq<(Seq<char>, Seq<char>, int)>,
    fc: FileConfigView,
    full: bool,
    cursor: JobCursorView,
) -> Result<Seq<ParsedObservationView>, Seq<char>>
    decreases end - start,
{
    if end <= start {
        Ok(Seq::empty())
    } else {
        match scanned(rows, start, end - 1, ts_col, cols, fc, full, cursor) {
            Err(e) => Err(e),
            Ok(prefix) => {
                let row = rows[end - 1];
                let t = trim(cell(row, ts_col));
                if t.len() == 0 {
                    Ok(prefix)
                } else {
                    match spec_parse_timestamp(t, fc.timestamp) {
                        Err(e) => Err(msg_row_error(end, e)),
                        Ok(ts) => if full && !newer_than_cursor(ts, end, cursor) {
                            Ok(prefix)
                        } else {
                            Ok(prefix + row_observations(row, cols, ts, end))
                        },
                    }
                }
            },
        }
    }
}

/// The column of every mapping, or the first mapping's error.
pub open spec fn mapped_columns(
    rows: Seq<Seq<Seq<char>>>,
    fc: FileConfigView,
    ms: Seq<ColumnMappingView>,
) -> Result<Seq<(Seq<char>, Seq<char>, int)>, Seq<char>>
    decreases ms.len(),
{
    if ms.len() == 0 {
        Ok(Seq::empty())
    } else {
        match mapped_columns(rows, fc, ms.drop_last()) {
            Err(e) => Err(e),
            Ok(prefix) => match column_index(rows, fc, ms.last().csv_column) {
                Err(e) => Err(e),
                Ok(i) => Ok(prefix.push((ms.last().datastream_id, ms.last().datastream_name, i))),
            },
        }
    }
}

/// Where a scan starts (zero-based): the configured data row, and in an
/// incremental scan of a file that did not shrink, no earlier than the rows
/// seen before, or the last confirmed upload when the last upload failed.
pub open spec fn scan_start(
    fc: FileConfigView,
    row_count: int,
    previous_row_count: int,
    cursor: JobCursorView,
    mode: ScanMode,
) -> int {
    let data_start = if fc.data_start_row > 0 {
        fc.data_start_row - 1
    } else {
        0
    };
    let reset = mode == ScanMode::Incremental && row_count < previous_row_count;
    let incremental_start = if cursor.last_error is Some {
        match cursor.last_pushed_row_index {
            Some(r) => r as int,
            None => 0,
        }
    } else {
        previous_row_count
    };
    if mode == ScanMode::Incremental && !reset {
        if data_start >= incremental_start {
            data_start as int
        } else {
            incremental_start
        }
    } else {
        data_start as int
    }
}

/// What scanning `rows` for a job gives: the row count, the observations and
/// whether the file shrank since the previous scan.
pub open spec fn scan_outcome(
    job: JobConfigView,
    rows: Seq<Seq<Seq<char>>>,
    previous_row_count: int,
    cursor: JobCursorView,
    mode: ScanMode,
) -> Result<(int, Seq<ParsedObservationView>, bool), Seq<char>> {
    let fc = job.settings.file_config;
    let n = rows.len() as int;
    if n == 0 {
        Ok((0, Seq::empty(), false))
    } else {
        match column_index(rows, fc, fc.timestamp.key) {
            Err(e) => Err(e),
            Ok(ts_col) => match mapped_columns(rows, fc, job.settings.column_mappings) {
                Err(e) => Err(e),
                Ok(cols) => {
                    let reset = mode == ScanMode::Incremental && n < previous_row_count;
                    let start = scan_start(fc, n, previous_row_count, cursor, mode);
                    match scanned(
                        rows,
                        start,
                        n,
                        ts_col,
                        cols,
                        fc,
                        mode == ScanMode::FullResync,
                        cursor,
                    ) {
                        Err(e) => Err(e),
                        Ok(obs) => Ok((n, obs, reset)),
                    }
                },
            },
        }
    }
}

/// The trimmed cell at `index` of `row` (empty past its end).
fn trimmed_cell(row: &Vec<String>, index: usize) -> (res: String)
    ensures
        res@ == trim(cell(row_view(*row), index as int)),
{
    if index < row.len() {
        trim_str(row[index].as_str())
    } else {
        let empty = String::new();
        proof {
            assert(cell(row_view(*row), index as int) =~= Seq::<char>::empty());
            assert(trim(Seq::<char>::empty()) =~= Seq::<char>::empty());
        }
        empty
    }
}

/// Appends the observations of one row (see `row_observations`).
fn push_row_observations(
    row: &Vec<String>,
    cols: &Vec<MappedColumn>,
    timestamp: UtcDateTime,
    row_index: u64,
    out: &mut Vec<ParsedObservation>,
)
    ensures
        observations_view(final(out)@) == observations_view(old(out)@) + row_observations(
            row_view(*row),
            columns_view(cols@),
            timestamp,
            row_index as int,
        ),
{
    let ghost start = observations_view(out@);
    let ghost cv = columns_view(cols@);
    for j in 0..cols.len()
        invariant
            cv == columns_view(cols@),
            observations_view(out@) == start + row_observations(
                row_view(*row),
                cv.take(j as int),
                timestamp,
                row_index as int,
            ),
    {
        assert(cv.take(j + 1).drop_last() =~= cv.take(j as int));
        assert(cv.take(j + 1).last() == cv[j as int]);
        let value = trimmed_cell(row, cols[j].index);
        if !value.as_str().is_empty() {
            let ghost before = out@;
            let v = parse_observation_value(value.as_str());
            out.push(
                ParsedObservation {
                    datastream_id: cols[j].datastream_id.clone(),
                    datastream_name: cols[j].datastream_name.clone(),
                    timestamp,
                    row_index,
                    value: v,
                },
            );
            assert(observations_view(out@) =~= observations_view(before).push(out@.last()@));
        }
    }
    assert(cv.take(cv.len() as int) =~= cv);
}

/// The column of every mapping (see `mapped_columns`).
fn resolve_mapped_columns(rows: &Vec<Vec<String>>, file_config: &FileConfig, mappings: &Vec<ColumnMapping>) -> (res: Result<Vec<MappedColumn>, String>)
    ensures
        match (res, mapped_columns(rows_view(rows@), file_config@, mappings_view(mappings@))) {
            (Ok(cs), Ok(v)) => columns_view(cs@) == v,
            (Err(e), Err(m)) => e@ == m,
            _ => false,
        },
{
    let ghost ms = mappings_view(mappings@);
    let ghost rv = rows_view(rows@);
    let mut out: Vec<MappedColumn> = Vec::new();
    let mut j: usize = 0;
    assert(ms.take(0) =~= Seq::<ColumnMappingView>::empty());
    assert(columns_view(out@) =~= Seq::<(Seq<char>, Seq<char>, int)>::empty());
    while j < mappings.len()
        invariant
            j <= mappings@.len(),
            ms == mappings_view(mappings@),
            rv == rows_view(rows@),
            mapped_columns(rv, file_config@, ms.take(j as int)) == Ok::<Seq<(Seq<char>, Seq<char>, int)>, Seq<char>>(
                columns_view(out@),
            ),
        decreases mappings@.len() - j,
    {
        assert(ms.take(j + 1).drop_last() =~= ms.take(j as int));
        assert(ms.take(j + 1).last() == ms[j as int]);
        let m = &mappings[j];
        match resolve_column_index(rows, file_config, m.csv_column.as_str()) {
            Ok(index) => {
                let ghost before = out@;
                out.push(
                    MappedColumn {
                        datastream_id: m.datastream_id.clone(),
                        datastream_name: m.datastream_name.clone(),
                        index,
                    },
                );
                assert(columns_view(out@) =~= columns_view(before).push(
                    (m.datastream_id@, m.datastream_name@, index as int),
                ));
            },
            Err(e) => {
                proof {
                    lemma_mapped_columns_error(rv, file_config@, ms, j as int + 1);
                }
                return Err(e);
            },
        }
        j = j + 1;
    }
    assert(ms.take(j as int) =~= ms);
    Ok(out)
}

proof fn lemma_mapped_columns_error(
    rows: Seq<Seq<Seq<char>>>,
    fc: FileConfigView,
    ms: Seq<ColumnMappingView>,
    j: int,
)
    requires
        0 < j <= ms.len(),
        mapped_columns(rows, fc, ms.take(j)) is Err,
    ensures
        mapped_columns(rows, fc, ms) == mapped_columns(rows, fc, ms.take(j)),
    decreases ms.len() - j,
{
    if j == ms.len() {
        assert(ms.take(j) =~= ms);
    } else {
        assert(ms.take(j + 1).drop_last() =~= ms.take(j));
        lemma_mapped_columns_error(rows, fc, ms, j + 1);
    }
}

proof fn lemma_scanned_error(
    rows: Seq<Seq<Seq<char>>>,
    start: int,
    i: int,
    end: int,
    ts_col: int,
    cols: Seq<(Seq<char>, Seq<char>, int)>,
    fc: FileConfigView,
    full: bool,
    cursor: JobCursorView,
)
    requires
        start < i <= end,
        scanned(rows, start, i, ts_col, cols, fc, full, cursor) is Err,
    ensures
        scanned(rows, start, end, ts_col, cols, fc, full, cursor) == scanned(
            rows,
            start,
            i,
            ts_col,
            cols,
            fc,
            full,
            cursor,
        ),
    decreases end - i,
{
    if i < end {
        lemma_scanned_error(rows, start, i + 1, end, ts_col, cols, fc, full, cursor);
    }
}

fn row_error(row_index: u64, error: String) -> (res: String)
    ensures
        res@ == msg_row_error(row_index as int, error@),
{
    let mut out = String::new();
    append_str(&mut out, "Row ");
    let digits = u64_to_decimal(row_index);
    append_str(&mut out, digits.as_str());
    append_str(&mut out, ": ");
    append_str(&mut out, error.as_str());
    assert(out@ =~= msg_row_error(row_index as int, error@));
    out
}

/// Scans rows `start ..` of the file (see `scanned`).
fn scan_from(
    rows: &Vec<Vec<String>>,
    start: usize,
    ts_col: usize,
    cols: &Vec<MappedColumn>,
    file_config: &FileConfig,
    full: bool,
    cursor: &JobCursor,
) -> (res: Result<Vec<ParsedObservation>, String>)
    requires
        start <= rows@.len(),
    ensures
        match (
            res,
            scanned(
                rows_view(rows@),
                start as int,
                rows@.len() as int,
                ts_col as int,
                columns_view(cols@),
                file_config@,
                full,
                cursor@,
            ),
        ) {
            (Ok(os), Ok(v)) => observations_view(os@) == v,
            (Err(e), Err(m)) => e@ == m,
            _ => false,
        },
{
    let ghost rv = rows_view(rows@);
    let ghost cv = columns_view(cols@);
    let n = rows.len();
    let mut out: Vec<ParsedObservation> = Vec::new();
    let mut i = start;
    assert(observations_view(out@) =~= Seq::<ParsedObservationView>::empty());
    while i < n
        invariant
            start <= i <= n,
            n == rows@.len(),
            rv == rows_view(rows@),
            cv == columns_view(cols@),
            scanned(rv, start as int, i as int, ts_col as int, cv, file_config@, full, cursor@) == Ok::<
                Seq<ParsedObservationView>,
                Seq<char>,
            >(observations_view(out@)),
        decreases n - i,
    {
        let row = &rows[i];
        assert(rv[i as int] == row_view(*row));
        let row_index: u64 = (i + 1) as u64;
        let t = trimmed_cell(row, ts_col);
        if !t.as_str().is_empty() {
            match parse_timestamp_to_utc(t.as_str(), &file_config.timestamp) {
                Err(e) => {
                    let msg = row_error(row_index, e);
                    proof {
                        lemma_scanned_error(
                            rv,
                            start as int,
                            i + 1,
                            n as int,
                            ts_col as int,
                            cv,
                            file_config@,
                            full,
                            cursor@,
                        );
                    }
                    return Err(msg);
                },
                Ok(timestamp) => {
                    if full && !is_newer_than_cursor(timestamp, row_index, cursor) {
                    } else {
                        push_row_observations(row, cols, timestamp, row_index, &mut out);
                    }
                },
            }
        }
        i = i + 1;
    }
    Ok(out)
}

/// Scans the rows of a job's file: resolves the timestamp and mapped
/// columns, decides where to start (see `scan_start`) and collects the
/// observations of the rows from there (see `scan_outcome`).
pub fn scan_rows(
    job: &JobConfig,
    rows: &Vec<Vec<String>>,
    previous_row_count: usize,
    cursor: &JobCursor,
    mode: ScanMode,
) -> (res: Result<JobScanResult, String>)
    ensures
        match (res, scan_outcome(job@, rows_view(rows@), previous_row_count as int, cursor@, mode)) {
            (Ok(r), Ok((n, obs, reset))) => r.file_row_count == n && observations_view(
                r.observations@,
            ) == obs && r.reset_detected == reset,
            (Err(e), Err(m)) => e@ == m,
            _ => false,
        },
{
    let n = rows.len();
    if n == 0 {
        let observations: Vec<ParsedObservation> = Vec::new();
        assert(observations_view(observations@) =~= Seq::<ParsedObservationView>::empty());
        return Ok(JobScanResult { file_row_count: 0, observations, reset_detected: false });
    }
    let fc = &job.file_config;
    let ts_col = match resolve_column_index(rows, fc, fc.timestamp.key.as_str()) {
        Ok(i) => i,
        Err(e) => return Err(e),
    };
    let cols = match resolve_mapped_columns(rows, fc, &job.column_mappings) {
        Ok(c) => c,
        Err(e) => return Err(e),
    };
    let reset_detected = mode == ScanMode::Incremental && n < previous_row_count;
    let data_start: u64 = if fc.data_start_row > 0 {
        (fc.data_start_row - 1) as u64
    } else {
        0
    };
    let incremental_start: u64 = if cursor.last_error.is_some() {
        match cursor.last_pushed_row_index {
            Some(r) => r,
            None => 0,
        }
    } else {
        previous_row_count as u64
    };
    let start: u64 = if mode == ScanMode::Incremental && !reset_detected {
        if data_start >= incremental_start {
            data_start
        } else {
            incremental_start
        }
    } else {
        data_start
    };
    assert(start == scan_start(fc@, n as int, previous_row_count as int, cursor@, mode));
    let from: usize = if start < n as u64 {
        start as usize
    } else {
        n
    };
    proof {
        if start >= n {
            assert(scanned(
                rows_view(rows@),
                start as int,
                n as int,
                ts_col as int,
                columns_view(cols@),
                fc@,
                mode == ScanMode::FullResync,
                cursor@,
            ) == scanned(
                rows_view(rows@),
                n as int,
                n as int,
                ts_col as int,
                columns_view(cols@),
                fc@,
                mode == ScanMode::FullResync,
                cursor@,
            ));
        }
    }
    match scan_from(rows, from, ts_col, &cols, fc, mode == ScanMode::FullResync, cursor) {
        Ok(observations) => Ok(JobScanResult { file_row_count: n, observations, reset_detected }),
        Err(e) => Err(e),
    }
}

pub open spec fn msg_delimiter_required() -> Seq<char> {
    "Delimiter is required."@
}

/// Scans the bytes of a job's file: decodes them, splits them into rows with
/// the `csv` crate at the job's delimiter, and scans the rows (`scan_rows`).
pub fn scan_job_contents(
    job: &JobConfig,
    bytes: &[u8],
    previous_row_count: usize,
    cursor: &JobCursor,
    mode: ScanMode,
) -> (res: Result<JobScanResult, String>)
    ensures
        match decoded_text(bytes@) {
            Err(m) => res matches Err(e) && e@ == m,
            Ok((text, _)) => if job@.settings.file_config.delimiter.len() == 0 {
                res matches Err(e) && e@ == msg_delimiter_required()
            } else {
                match csv_records(text, job@.settings.file_config.delimiter[0]) {
                    Err(m) => res matches Err(e) && e@ == m,
                    Ok(rows) => match (
                        res,
                        scan_outcome(job@, rows, previous_row_count as int, cursor@, mode),
                    ) {
                        (Ok(r), Ok((n, obs, reset))) => r.file_row_count == n && observations_view(
                            r.observations@,
                        ) == obs && r.reset_detected == reset,
                        (Err(e), Err(m)) => e@ == m,
                        _ => false,
                    },
                }
            },
        },
{
    let (text, _encoding) = match decode_text(bytes) {
        Ok(decoded) => decoded,
        Err(e) => return Err(e),
    };
    let delimiter_chars = chars_of(job.file_config.delimiter.as_str());
    if delimiter_chars.len() == 0 {
        return Err(owned("Delimiter is required."));
    }
    let rows = match read_csv_rows(text.as_str(), delimiter_chars[0]) {
        Ok(rows) => rows,
        Err(e) => return Err(e),
    };
    scan_rows(job, &rows, previous_row_count, cursor, mode)
}

// ---------------------------------------------------------------------------
// Watching files
// ---------------------------------------------------------------------------
/// The enabled jobs grouped by the file they watch, in order of first
/// appearance, and the server to upload to.
pub struct WatchPlan {
    pub jobs_by_path: Vec<(String, Vec<JobConfig>)>,
    pub server: Option<ServerConfig>,
}

pub open spec fn plan_view(plan: Seq<(String, Vec<JobConfig>)>) -> Seq<(Seq<char>, Seq<JobConfigView>)> {
    plan.map_values(|e: (String, Vec<JobConfig>)| (e.0@, jobs_view(e.1@)))
}

pub open spec fn plan_keys(plan: Seq<(Seq<char>, Seq<JobConfigView>)>) -> Seq<Seq<char>> {
    plan.map_values(|e: (Seq<char>, Seq<JobConfigView>)| e.0)
}

/// Adds `job` to the group of `path`, or opens a group for it.
pub open spec fn add_to_group(
    plan: Seq<(Seq<char>, Seq<JobConfigView>)>,
    path: Seq<char>,
    job: JobConfigView,
) -> Seq<(Seq<char>, Seq<JobConfigView>)> {
    let i = find_key(plan_keys(plan), path);
    if i < plan.len() {
        plan.update(i, (path, plan[i].1.push(job)))
    } else {
        plan.push((path, seq![job]))
    }
}

/// The enabled jobs of `jobs` grouped by `paths` (the watched path of each job).
pub open spec fn grouped_jobs(jobs: Seq<JobConfigView>, paths: Seq<Seq<char>>) -> Seq<(Seq<char>, Seq<JobConfigView>)>
    decreases jobs.len(),
{
    if jobs.len() == 0 || paths.len() != jobs.len() {
        Seq::empty()
    } else {
        let g = grouped_jobs(jobs.drop_last(), paths.drop_last());
        if jobs.last().settings.enabled {
            add_to_group(g, paths.last(), jobs.last())
        } else {
            g
        }
    }
}

/// Groups the enabled jobs of `config` by their watched path; `paths[i]` is
/// the path of `config.jobs[i]` as the file system resolves it. Without a
/// configured server nothing is watched.
pub fn build_watch_plan(config: &AppConfig, paths: &Vec<String>) -> (res: WatchPlan)
    requires
        paths@.len() == config.jobs@.len(),
    ensures
        config.server@.is_configured() ==> (res.server matches Some(s) && s@ == config.server@.normalized()),
        config.server@.is_configured() ==> plan_view(res.jobs_by_path@) == grouped_jobs(
            jobs_view(config.jobs@),
            paths@.map_values(|p: String| p@),
        ),
        !config.server@.is_configured() ==> res.server is None && res.jobs_by_path@.len() == 0,
        crate::records::distinct_keys(plan_keys(plan_view(res.jobs_by_path@))),
{
    if !config.server.is_configured() {
        let empty: Vec<(String, Vec<JobConfig>)> = Vec::new();
        assert(plan_keys(plan_view(empty@)) =~= Seq::<Seq<char>>::empty());
        return WatchPlan { jobs_by_path: empty, server: None };
    }
    let ghost jobs = jobs_view(config.jobs@);
    let ghost ps = paths@.map_values(|p: String| p@);
    let mut plan: Vec<(String, Vec<JobConfig>)> = Vec::new();
    assert(plan_view(plan@) =~= grouped_jobs(jobs.take(0), ps.take(0)));
    for i in 0..config.jobs.len()
        invariant
            paths@.len() == config.jobs@.len(),
            jobs == jobs_view(config.jobs@),
            ps == paths@.map_values(|p: String| p@),
            plan_view(plan@) == grouped_jobs(jobs.take(i as int), ps.take(i as int)),
    {
        assert(jobs.take(i + 1).drop_last() =~= jobs.take(i as int));
        assert(ps.take(i + 1).drop_last() =~= ps.take(i as int));
        assert(jobs.take(i + 1).last() == jobs[i as int]);
        assert(ps.take(i + 1).last() == ps[i as int]);
        let job = &config.jobs[i];
        if job.enabled {
            let ghost before = plan_view(plan@);
            let path = paths[i].as_str();
            let k = find_group(&plan, path);
            if k < plan.len() {
                let (key, mut group) = plan.remove(k);
                proof {
                    lemma_find_key(plan_keys(before), path@);
                    assert(plan_keys(before)[k as int] == before[k as int].0);
                }
                let ghost old_group = jobs_view(group@);
                group.push(job.clone());
                assert(jobs_view(group@) =~= old_group.push(job@));
                plan.insert(k, (key, group));
                assert(plan_view(plan@) =~= add_to_group(before, path@, job@));
            } else {
                let mut group: Vec<JobConfig> = Vec::new();
                group.push(job.clone());
                assert(jobs_view(group@) =~= seq![job@]);
                plan.push((owned(path), group));
                assert(plan_view(plan@) =~= add_to_group(before, path@, job@));
            }
        }
    }
    assert(jobs.take(config.jobs@.len() as int) =~= jobs);
    assert(ps.take(config.jobs@.len() as int) =~= ps);
    proof {
        lemma_grouped_paths_distinct(jobs, ps);
    }
    WatchPlan { jobs_by_path: plan, server: Some(config.server.clone().normalized()) }
}

/// The index of the group of `path`, or `plan.len()`.
fn find_group(plan: &Vec<(String, Vec<JobConfig>)>, path: &str) -> (res: usize)
    ensures
        res == find_key(plan_keys(plan_view(plan@)), path@),
        res <= plan@.len(),
{
    let ghost keys = plan_keys(plan_view(plan@));
    let mut i: usize = 0;
    while i < plan.len()
        invariant
            i <= plan@.len(),
            keys == plan_keys(plan_view(plan@)),
            keys.len() == plan@.len(),
            forall|j: int| 0 <= j < i ==> keys[j] != path@,
        decreases plan@.len() - i,
    {
        assert(keys[i as int] == plan@[i as int].0@);
        if str_eq(plan[i].0.as_str(), path) {
            proof {
                lemma_find_key_unique(keys, path@, i as int);
            }
            return i;
        }
        i = i + 1;
    }
    proof {
        lemma_find_key_unique(keys, path@, i as int);
    }
    i
}

/// The shortest schedule of `jobs` in seconds, or `u64::MAX` when there are
/// no jobs.
pub open spec fn min_interval_secs(jobs: Seq<JobConfigView>) -> int
    decreases jobs.len(),
{
    if jobs.len() == 0 {
        u64::MAX as int
    } else {
        let rest = min_interval_secs(jobs.drop_last());
        let own = jobs.last().settings.schedule_minutes * 60;
        if own <= rest {
            own
        } else {
            rest
        }
    }
}

fn min_interval(jobs: &Vec<JobConfig>) -> (res: u64)
    ensures
        res == min_interval_secs(jobs_view(jobs@)),
{
    let ghost js = jobs_view(jobs@);
    let mut best: u64 = u64::MAX;
    assert(js.take(0) =~= Seq::<JobConfigView>::empty());
    for i in 0..jobs.len()
        invariant
            js == jobs_view(jobs@),
            best == min_interval_secs(js.take(i as int)),
    {
        assert(js.take(i + 1).drop_last() =~= js.take(i as int));
        assert(js.take(i + 1).last() == js[i as int]);
        let own: u64 = jobs[i].schedule_minutes as u64 * 60;
        if own <= best {
            best = own;
        }
    }
    assert(js.take(jobs@.len() as int) =~= js);
    best
}

/// The watched paths due for a scheduled scan: those scanned before
/// (`elapsed_secs[i]` is the time since the last scan of group `i`) at least
/// as long ago as the shortest schedule of their jobs, in plan order.
pub fn overdue_paths(plan: &WatchPlan, elapsed_secs: &Vec<Option<u64>>) -> (res: Vec<String>)
    requires
        elapsed_secs@.len() == plan.jobs_by_path@.len(),
    ensures
        res@.map_values(|p: String| p@) == overdue(plan_view(plan.jobs_by_path@), elapsed_secs@),
{
    let ghost pv = plan_view(plan.jobs_by_path@);
    let mut out: Vec<String> = Vec::new();
    assert(out@.map_values(|p: String| p@) =~= overdue(pv.take(0), elapsed_secs@.take(0)));
    for i in 0..plan.jobs_by_path.len()
        invariant
            elapsed_secs@.len() == plan.jobs_by_path@.len(),
            pv == plan_view(plan.jobs_by_path@),
            out@.map_values(|p: String| p@) == overdue(pv.take(i as int), elapsed_secs@.take(i as int)),
    {
        assert(pv.take(i + 1).drop_last() =~= pv.take(i as int));
        assert(elapsed_secs@.take(i + 1).drop_last() =~= elapsed_secs@.take(i as int));
        assert(pv.take(i + 1).last() == pv[i as int]);
        assert(elapsed_secs@.take(i + 1).last() == elapsed_secs@[i as int]);
        let interval = min_interval(&plan.jobs_by_path[i].1);
        if let Some(e) = elapsed_secs[i] {
            if e >= interval {
                let ghost before = out@;
                out.push(plan.jobs_by_path[i].0.clone());
                assert(out@.map_values(|p: String| p@) =~= before.map_values(|p: String| p@).push(pv[i as int].0));
            }
        }
    }
    assert(pv.take(pv.len() as int) =~= pv);
    assert(elapsed_secs@.take(pv.len() as int) =~= elapsed_secs@);
    out
}

/// The paths of `plan` whose elapsed time reaches their shortest schedule.
pub open spec fn overdue(plan: Seq<(Seq<char>, Seq<JobConfigView>)>, elapsed: Seq<Option<u64>>) -> Seq<Seq<char>>
    decreases plan.len(),
{
    if plan.len() == 0 || elapsed.len() != plan.len() {
        Seq::empty()
    } else {
        let rest = overdue(plan.drop_last(), elapsed.drop_last());
        match elapsed.last() {
            Some(e) => if e >= min_interval_secs(plan.last().1) {
                rest.push(plan.last().0)
            } else {
                rest
            },
            None => rest,
        }
    }
}

/// The smallest confirmed row index among the cursors of the jobs sharing a
/// path, so that the slowest job decides where scanning resumes.
pub open spec fn row_seed(rows: Seq<Option<u64>>) -> Option<u64>
    decreases rows.len(),
{
    if rows.len() == 0 {
        None
    } else {
        match (row_seed(rows.drop_last()), rows.last()) {
            (Some(a), Some(b)) => Some(if b < a { b } else { a }),
            (None, Some(b)) => Some(b),
            (a, None) => a,
        }
    }
}

pub fn cursor_row_seed(cursors: &Vec<JobCursor>) -> (res: Option<u64>)
    ensures
        res == row_seed(cursors@.map_values(|c: JobCursor| c.last_pushed_row_index)),
{
    let ghost rows = cursors@.map_values(|c: JobCursor| c.last_pushed_row_index);
    let mut seed: Option<u64> = None;
    assert(rows.take(0) =~= Seq::<Option<u64>>::empty());
    for i in 0..cursors.len()
        invariant
            rows == cursors@.map_values(|c: JobCursor| c.last_pushed_row_index),
            seed == row_seed(rows.take(i as int)),
    {
        assert(rows.take(i + 1).drop_last() =~= rows.take(i as int));
        assert(rows.take(i + 1).last() == rows[i as int]);
        if let Some(b) = cursors[i].last_pushed_row_index {
            seed = match seed {
                Some(a) => Some(if b < a { b } else { a }),
                None => Some(b),
            };
        }
    }
    assert(rows.take(cursors@.len() as int) =~= rows);
    seed
}

/// The row count remembered for a path after its jobs were scanned: the
/// largest of the previous count and the counts of the scans that succeeded.
pub fn latest_row_count(previous_row_count: usize, scanned_counts: &Vec<Option<usize>>) -> (res: usize)
    ensures
        res >= previous_row_count,
        forall|k: int| 0 <= k < scanned_counts@.len() ==> (#[trigger] scanned_counts@[k] matches Some(c) ==> res >= c),
        res == previous_row_count || exists|k: int| 0 <= k < scanned_counts@.len() && scanned_counts@[k] == Some(res),
{
    let mut latest = previous_row_count;
    for i in 0..scanned_counts.len()
        invariant
            latest >= previous_row_count,
            forall|k: int| 0 <= k < i ==> (#[trigger] scanned_counts@[k] matches Some(c) ==> latest >= c),
            latest == previous_row_count || exists|k: int| 0 <= k < i && scanned_counts@[k] == Some(latest),
    {
        if let Some(c) = scanned_counts[i] {
            if c > latest {
                latest = c;
            }
        }
    }
    latest
}

// ---------------------------------------------------------------------------
// Laws
// ---------------------------------------------------------------------------
proof fn lemma_row_observations(
    row: Seq<Seq<char>>,
    cols: Seq<(Seq<char>, Seq<char>, int)>,
    timestamp: UtcDateTime,
    row_index: int,
)
    ensures
        forall|k: int| 0 <= k < row_observations(row, cols, timestamp, row_index).len() ==> {
            &&& (#[trigger] row_observations(row, cols, timestamp, row_index)[k]).row_index == row_index
            &&& row_observations(row, cols, timestamp, row_index)[k].timestamp == timestamp
            &&& row_observations(row, cols, timestamp, row_index)[k].value.text.len() > 0
        },
    decreases cols.len(),
{
    if cols.len() > 0 {
        lemma_row_observations(row, cols.drop_last(), timestamp, row_index);
        let prefix = row_observations(row, cols.drop_last(), timestamp, row_index);
        let all = row_observations(row, cols, timestamp, row_index);
        assert forall|k: int| 0 <= k < all.len() implies {
            &&& (#[trigger] all[k]).row_index == row_index
            &&& all[k].timestamp == timestamp
            &&& all[k].value.text.len() > 0
        } by {
            if k < prefix.len() {
                assert(all[k] == prefix[k]);
            }
        }
    }
}

/// Every observation of a scan of rows `start .. end` comes from one of those
/// rows (its one-based row number lies in `start + 1 ..= end`), and in a full
/// resync every observation lies past the cursor.
pub proof fn lemma_scanned_rows(
    rows: Seq<Seq<Seq<char>>>,
    start: int,
    end: int,
    ts_col: int,
    cols: Seq<(Seq<char>, Seq<char>, int)>,
    fc: FileConfigView,
    full: bool,
    cursor: JobCursorView,
)
    ensures
        scanned(rows, start, end, ts_col, cols, fc, full, cursor) is Ok ==> forall|k: int|
            0 <= k < scanned(rows, start, end, ts_col, cols, fc, full, cursor)->Ok_0.len() ==> {
                let o = #[trigger] scanned(rows, start, end, ts_col, cols, fc, full, cursor)->Ok_0[k];
                &&& start < o.row_index <= end
                &&& full ==> newer_than_cursor(o.timestamp, o.row_index, cursor)
            },
    decreases end - start,
{
    if end > start {
        lemma_scanned_rows(rows, start, end - 1, ts_col, cols, fc, full, cursor);
        let r = scanned(rows, start, end - 1, ts_col, cols, fc, full, cursor);
        if let Ok(prefix) = r {
            let row = rows[end - 1];
            let t = trim(cell(row, ts_col));
            if t.len() > 0 {
                if let Ok(ts) = spec_parse_timestamp(t, fc.timestamp) {
                    lemma_row_observations(row, cols, ts, end);
                    let all = scanned(rows, start, end, ts_col, cols, fc, full, cursor)->Ok_0;
                    assert forall|k: int| 0 <= k < all.len() implies {
                        let o = #[trigger] all[k];
                        &&& start < o.row_index <= end
                        &&& full ==> newer_than_cursor(o.timestamp, o.row_index, cursor)
                    } by {
                        if k >= prefix.len() {
                            assert(all[k] == row_observations(row, cols, ts, end)[k - prefix.len()]);
                        } else {
                            assert(all[k] == prefix[k]);
                        }
                    }
                }
            }
        }
    }
}

/// An incremental scan of a file that did not shrink, after an upload that
/// did not fail, only yields rows past those seen by the previous scan; after
/// a failed upload it starts again right after the last confirmed row.
/// Either way no row before the configured data row is read.
pub proof fn lemma_incremental_scan_skips_seen_rows(
    job: JobConfigView,
    rows: Seq<Seq<Seq<char>>>,
    previous_row_count: int,
    cursor: JobCursorView,
)
    ensures
        ({
            let r = scan_outcome(job, rows, previous_row_count, cursor, ScanMode::Incremental);
            match r {
                Err(_) => true,
                Ok((_, obs, reset)) => !reset ==> forall|k: int| 0 <= k < obs.len() ==> {
                let o = #[trigger] obs[k];
                &&& o.row_index <= rows.len()
                &&& o.row_index >= job.settings.file_config.data_start_row
                &&& cursor.last_error is None ==> o.row_index > previous_row_count
                &&& cursor.last_error is Some ==> o.row_index > match cursor.last_pushed_row_index {
                    Some(x) => x as int,
                    None => 0,
                }
            },
            }
        }),
{
    let fc = job.settings.file_config;
    let n = rows.len() as int;
    if n > 0 {
        if let Ok(ts_col) = column_index(rows, fc, fc.timestamp.key) {
            if let Ok(cols) = mapped_columns(rows, fc, job.settings.column_mappings) {
                let start = scan_start(fc, n, previous_row_count, cursor, ScanMode::Incremental);
                lemma_scanned_rows(rows, start, n, ts_col, cols, fc, false, cursor);
            }
        }
    }
}

/// A full resync yields only rows past what the cursor has uploaded.
pub proof fn lemma_full_resync_skips_uploaded_rows(
    job: JobConfigView,
    rows: Seq<Seq<Seq<char>>>,
    previous_row_count: int,
    cursor: JobCursorView,
)
    ensures
        ({
            let r = scan_outcome(job, rows, previous_row_count, cursor, ScanMode::FullResync);
            match r {
                Err(_) => true,
                Ok((_, obs, reset)) => !reset && forall|k: int| 0 <= k < obs.len() ==> newer_than_cursor(
                    (#[trigger] obs[k]).timestamp,
                    obs[k].row_index,
                    cursor,
                ),
            }
        }),
{
    let fc = job.settings.file_config;
    let n = rows.len() as int;
    if n > 0 {
        if let Ok(ts_col) = column_index(rows, fc, fc.timestamp.key) {
            if let Ok(cols) = mapped_columns(rows, fc, job.settings.column_mappings) {
                let start = scan_start(fc, n, previous_row_count, cursor, ScanMode::FullResync);
                lemma_scanned_rows(rows, start, n, ts_col, cols, fc, true, cursor);
            }
        }
    }
}

// ---------------------------------------------------------------------------
// After a scan
// ---------------------------------------------------------------------------
pub open spec fn msg_reset_detected() -> Seq<char> {
    "Detected that the watched CSV file was replaced or truncated; rescanning from the configured data start row."@
}

pub open spec fn msg_nothing_to_queue() -> Seq<char> {
    "No new observations were available to queue."@
}

/// What a job scan leads to: the entries for the job's log, and the
/// observations to queue for upload.
pub struct ScanFollowUp {
    pub logs: Vec<(crate::models::LogLevel, String)>,
    pub queued: Vec<crate::uploader::QueuedObservation>,
}

/// The log entries of a scan: a warning when the file was replaced or
/// truncated, and, for a full resync that found nothing, a note saying so.
pub open spec fn follow_up_logs(reset_detected: bool, found_nothing: bool, mode: ScanMode) -> Seq<
    (crate::models::LogLevel, Seq<char>),
> {
    (if reset_detected {
        seq![(crate::models::LogLevel::Warning, msg_reset_detected())]
    } else {
        Seq::empty()
    }) + (if found_nothing && mode == ScanMode::FullResync {
        seq![(crate::models::LogLevel::Info, msg_nothing_to_queue())]
    } else {
        Seq::empty()
    })
}

/// The observation of a scan, queued for the job `job_id` on `server`.
pub open spec fn queued_as(
    q: crate::uploader::QueuedObservation,
    o: ParsedObservationView,
    job_id: Seq<char>,
    server: crate::models::ServerConfigView,
) -> bool {
    &&& q.context.server@ == server
    &&& q.context.job_id@ == job_id
    &&& q.context.datastream_id@ == o.datastream_id
    &&& q.context.datastream_name@ == o.datastream_name
    &&& q.timestamp == o.timestamp
    &&& q.row_index as int == o.row_index
    &&& q.value@ == o.value
}

/// The log entries and queued observations that the scan `result` of job
/// `job_id` gives, each observation in its order and tagged with the job and
/// its datastream.
pub fn scan_follow_up(job_id: &str, server: &ServerConfig, result: JobScanResult, mode: ScanMode) -> (res: ScanFollowUp)
    ensures
        res.logs@.map_values(|l: (crate::models::LogLevel, String)| (l.0, l.1@)) == follow_up_logs(
            result.reset_detected,
            result.observations@.len() == 0,
            mode,
        ),
        res.queued@.len() == result.observations@.len(),
        forall|k: int| 0 <= k < res.queued@.len() ==> queued_as(
            #[trigger] res.queued@[k],
            result.observations@[k]@,
            job_id@,
            server@,
        ),
{
    let mut logs: Vec<(crate::models::LogLevel, String)> = Vec::new();
    if result.reset_detected {
        logs.push((
            crate::models::LogLevel::Warning,
            owned(
                "Detected that the watched CSV file was replaced or truncated; rescanning from the configured data start row.",
            ),
        ));
    }
    if result.observations.len() == 0 && mode == ScanMode::FullResync {
        logs.push((crate::models::LogLevel::Info, owned("No new observations were available to queue.")));
    }
    assert(logs@.map_values(|l: (crate::models::LogLevel, String)| (l.0, l.1@)) =~= follow_up_logs(
        result.reset_detected,
        result.observations@.len() == 0,
        mode,
    ));
    let mut queued: Vec<crate::uploader::QueuedObservation> = Vec::new();
    let observations = &result.observations;
    for i in 0..observations.len()
        invariant
            queued@.len() == i,
            forall|k: int| 0 <= k < i ==> queued_as(#[trigger] queued@[k], observations@[k]@, job_id@, server@),
    {
        let o = &observations[i];
        queued.push(crate::uploader::QueuedObservation {
            context: crate::responses::ObservationContext {
                server: server.clone(),
                job_id: owned(job_id),
                datastream_id: o.datastream_id.clone(),
                datastream_name: o.datastream_name.clone(),
            },
            timestamp: o.timestamp,
            row_index: o.row_index,
            value: o.value.clone(),
        });
    }
    ScanFollowUp { logs, queued }
}

// ---------------------------------------------------------------------------
// File-system events
// ---------------------------------------------------------------------------
/// The watched files that a burst of events touched, each once, in the order
/// they first appear; an event counts when its kind is a change (`.0`).
pub open spec fn changed_paths(events: Seq<(bool, Seq<char>)>, watched: Seq<Seq<char>>) -> Seq<Seq<char>>
    decreases events.len(),
{
    if events.len() == 0 {
        Seq::empty()
    } else {
        let prior = changed_paths(events.drop_last(), watched);
        let e = events.last();
        if e.0 && watched.contains(e.1) && !prior.contains(e.1) {
            prior.push(e.1)
        } else {
            prior
        }
    }
}

fn contains_path(paths: &Vec<String>, path: &str) -> (res: bool)
    ensures
        res == paths@.map_values(|p: String| p@).contains(path@),
{
    let ghost pv = paths@.map_values(|p: String| p@);
    for i in 0..paths.len()
        invariant
            pv == paths@.map_values(|p: String| p@),
            forall|k: int| 0 <= k < i ==> pv[k] != path@,
    {
        if str_eq(paths[i].as_str(), path) {
            assert(pv[i as int] == path@);
            return true;
        }
    }
    false
}

/// The watched files to rescan after a burst of events: each event is its
/// kind's being a change and the file's canonical path.
pub fn changed_watched_paths(events: &Vec<(bool, String)>, watched: &Vec<String>) -> (res: Vec<String>)
    ensures
        res@.map_values(|p: String| p@) == changed_paths(
            events@.map_values(|e: (bool, String)| (e.0, e.1@)),
            watched@.map_values(|p: String| p@),
        ),
{
    let ghost ev = events@.map_values(|e: (bool, String)| (e.0, e.1@));
    let ghost wv = watched@.map_values(|p: String| p@);
    let mut out: Vec<String> = Vec::new();
    assert(ev.take(0) =~= Seq::<(bool, Seq<char>)>::empty());
    assert(out@.map_values(|p: String| p@) =~= Seq::<Seq<char>>::empty());
    for i in 0..events.len()
        invariant
            ev == events@.map_values(|e: (bool, String)| (e.0, e.1@)),
            wv == watched@.map_values(|p: String| p@),
            out@.map_values(|p: String| p@) == changed_paths(ev.take(i as int), wv),
    {
        assert(ev.take(i + 1).drop_last() =~= ev.take(i as int));
        assert(ev.take(i + 1).last() == (events@[i as int].0, events@[i as int].1@));
        let (relevant, path) = (events[i].0, events[i].1.as_str());
        if relevant && contains_path(watched, path) && !contains_path(&out, path) {
            let ghost before = out@.map_values(|p: String| p@);
            out.push(owned(path));
            assert(out@.map_values(|p: String| p@) =~= before.push(path@));
        }
    }
    assert(ev.take(ev.len() as int) =~= ev);
    out
}

/// A burst of events yields each watched file that changed exactly once:
/// no file twice, no file that is not watched, and none that changed left
/// out.
pub proof fn lemma_changed_paths_once_each(events: Seq<(bool, Seq<char>)>, watched: Seq<Seq<char>>)
    ensures
        ({
            let r = changed_paths(events, watched);
            &&& forall|i: int, j: int| 0 <= i < j < r.len() ==> r[i] != r[j]
            &&& forall|k: int| 0 <= k < r.len() ==> watched.contains(#[trigger] r[k])
            &&& forall|k: int| 0 <= k < events.len() && (#[trigger] events[k]).0 && watched.contains(events[k].1)
                ==> r.contains(events[k].1)
        }),
    decreases events.len(),
{
    if events.len() > 0 {
        let p = events.drop_last();
        lemma_changed_paths_once_each(p, watched);
        let prior = changed_paths(p, watched);
        let r = changed_paths(events, watched);
        let e = events.last();
        assert forall|k: int| 0 <= k < events.len() && (#[trigger] events[k]).0 && watched.contains(events[k].1)
            implies r.contains(events[k].1) by {
            if k < events.len() - 1 {
                assert(events[k] == p[k]);
                let j = choose|j: int| 0 <= j < prior.len() && prior[j] == events[k].1;
                if e.0 && watched.contains(e.1) && !prior.contains(e.1) {
                    assert(r[j] == prior[j]);
                }
            } else {
                if !(e.0 && watched.contains(e.1) && !prior.contains(e.1)) {
                    assert(prior.contains(e.1));
                } else {
                    assert(r[r.len() - 1] == e.1);
                }
            }
        }
    }
}

/// Scanning a shared file resumes at the slowest job: the seed is no larger
/// than the confirmed row of any job that has one, and is one of them; with
/// no confirmed row there is no seed.
pub proof fn lemma_row_seed_is_slowest(rows: Seq<Option<u64>>)
    ensures
        row_seed(rows) matches Some(m) ==> (forall|k: int| 0 <= k < rows.len() ==> (#[trigger] rows[k] matches Some(
            r,
        ) ==> m <= r)) && exists|k: int| 0 <= k < rows.len() && rows[k] == Some(m),
        row_seed(rows) is None ==> forall|k: int| 0 <= k < rows.len() ==> #[trigger] rows[k] is None,
    decreases rows.len(),
{
    if rows.len() > 0 {
        let p = rows.drop_last();
        lemma_row_seed_is_slowest(p);
        assert forall|k: int| 0 <= k < rows.len() - 1 implies #[trigger] rows[k] == p[k] by {}
        match row_seed(p) {
            Some(a) => {
                let j = choose|j: int| 0 <= j < p.len() && p[j] == Some(a);
                assert(rows[j] == Some(a));
            },
            None => {},
        }
        if rows.last() is Some {
            assert(rows[rows.len() - 1] == rows.last());
        }
    }
}

/// Grouping jobs by path never lists a path twice.
pub proof fn lemma_grouped_paths_distinct(jobs: Seq<JobConfigView>, paths: Seq<Seq<char>>)
    ensures
        crate::records::distinct_keys(plan_keys(grouped_jobs(jobs, paths))),
    decreases jobs.len(),
{
    if jobs.len() > 0 && paths.len() == jobs.len() {
        lemma_grouped_paths_distinct(jobs.drop_last(), paths.drop_last());
        let g = grouped_jobs(jobs.drop_last(), paths.drop_last());
        if jobs.last().settings.enabled {
            lemma_add_to_group_distinct(g, paths.last(), jobs.last());
        }
    }
}

proof fn lemma_add_to_group_distinct(
    plan: Seq<(Seq<char>, Seq<JobConfigView>)>,
    path: Seq<char>,
    job: JobConfigView,
)
    requires
        crate::records::distinct_keys(plan_keys(plan)),
    ensures
        crate::records::distinct_keys(plan_keys(add_to_group(plan, path, job))),
{
    let keys = plan_keys(plan);
    let i = find_key(keys, path);
    lemma_find_key(keys, path);
    let after = add_to_group(plan, path, job);
    if i < plan.len() {
        assert(plan_keys(after) =~= keys);
    } else {
        assert(plan_keys(after) =~= keys.push(path));
        assert forall|a: int, b: int| 0 <= a < b < plan_keys(after).len() implies plan_keys(after)[a]
            != plan_keys(after)[b] by {
            if b == keys.len() {
                assert(keys[a] != path);
            }
        }
    }
}

} // verus!
