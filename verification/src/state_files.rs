//! Crash-safe state files: each file keeps its previous good generation
//! beside it as `<name>.prev`, and a read falls back to that backup when the
//! file itself is missing or does not parse.
use vstd::prelude::*;

use crate::job_logs::append_str;

verus! {

/// The suffix of the previous good generation of a state file.
pub const PREV_SUFFIX: &'static str = ".prev";

/// `path` with `suffix` appended to its file name (`a.json` gives
/// `a.json.prev`), so a backup never collides with another state file.
pub fn sidecar_path(path: &str, suffix: &str) -> (res: String)
    ensures
        res@ == path@ + suffix@,
{
    let mut out = String::new();
    append_str(&mut out, path);
    append_str(&mut out, suffix);
    out
}

/// The suffix of the temporary file a write goes through, unique to the
/// writing process.
pub fn temp_suffix(process_id: u32) -> (res: String)
    ensures
        res@ == ".tmp-"@ + crate::text::decimal_string(process_id as nat),
{
    let mut out = String::new();
    append_str(&mut out, ".tmp-");
    let digits = crate::text::u64_to_decimal(process_id as u64);
    append_str(&mut out, digits.as_str());
    out
}

/// How reading and parsing the state file itself went.
pub enum PrimaryRead<T> {
    /// It parsed.
    Parsed(T),
    /// It was read but did not parse, with the parser's message.
    Corrupt(String),
    /// It does not exist.
    Missing,
    /// Reading it failed otherwise, with the error's message.
    Failed(String),
}

/// How reading and parsing the `.prev` backup went.
pub enum BackupRead<T> {
    Parsed(T),
    Corrupt(String),
    /// It could not be read at all (missing included).
    Unreadable,
}

/// What the read of the state file settles.
pub enum PrimaryOutcome<T> {
    /// The read is over with this result.
    Done(Result<Option<T>, String>),
    /// The backup is to be read; the state file's parse error, if it had one.
    CheckBackup(Option<String>),
}

/// A parsed state file is the result and a read error ends the read; a
/// missing or unparseable file sends the read to the backup.
pub fn after_primary_read<T>(read: PrimaryRead<T>) -> (res: PrimaryOutcome<T>)
    ensures
        match read {
            PrimaryRead::Parsed(v) => res matches PrimaryOutcome::Done(Ok(Some(w))) && w == v,
            PrimaryRead::Corrupt(e) => res matches PrimaryOutcome::CheckBackup(Some(f)) && f@ == e@,
            PrimaryRead::Missing => res matches PrimaryOutcome::CheckBackup(None),
            PrimaryRead::Failed(e) => res matches PrimaryOutcome::Done(Err(f)) && f@ == e@,
        },
{
    match read {
        PrimaryRead::Parsed(v) => PrimaryOutcome::Done(Ok(Some(v))),
        PrimaryRead::Corrupt(e) => PrimaryOutcome::CheckBackup(Some(e)),
        PrimaryRead::Missing => PrimaryOutcome::CheckBackup(None),
        PrimaryRead::Failed(e) => PrimaryOutcome::Done(Err(e)),
    }
}

pub open spec fn msg_both_corrupt(path: Seq<char>, error: Seq<char>, prev_error: Seq<char>) -> Seq<char> {
    path + " is corrupt ("@ + error + ") and its .prev backup is also corrupt ("@ + prev_error + ")"@
}

pub open spec fn msg_corrupt(path: Seq<char>, error: Seq<char>) -> Seq<char> {
    path + " is corrupt: "@ + error
}

/// The result of a read that went to the backup of `path` (at `prev_path`):
/// an intact backup is the result; with both files bad the error names what
/// is wrong with each; nothing is there only when neither file exists.
pub fn after_backup_read<T>(path: &str, prev_path: &str, primary_error: Option<String>, read: BackupRead<T>) -> (res: Result<Option<T>, String>)
    ensures
        match read {
            BackupRead::Parsed(v) => res matches Ok(Some(w)) && w == v,
            BackupRead::Corrupt(prev_error) => res matches Err(m) && m@ == match primary_error {
                Some(e) => msg_both_corrupt(path@, e@, prev_error@),
                None => msg_corrupt(prev_path@, prev_error@),
            },
            BackupRead::Unreadable => match primary_error {
                Some(e) => res matches Err(m) && m@ == msg_corrupt(path@, e@),
                None => res matches Ok(None),
            },
        },
{
    match read {
        BackupRead::Parsed(v) => Ok(Some(v)),
        BackupRead::Corrupt(prev_error) => {
            let mut m = String::new();
            match primary_error {
                Some(e) => {
                    append_str(&mut m, path);
                    append_str(&mut m, " is corrupt (");
                    append_str(&mut m, e.as_str());
                    append_str(&mut m, ") and its .prev backup is also corrupt (");
                    append_str(&mut m, prev_error.as_str());
                    append_str(&mut m, ")");
                },
                None => {
                    append_str(&mut m, prev_path);
                    append_str(&mut m, " is corrupt: ");
                    append_str(&mut m, prev_error.as_str());
                },
            }
            Err(m)
        },
        BackupRead::Unreadable => match primary_error {
            Some(e) => {
                let mut m = String::new();
                append_str(&mut m, path);
                append_str(&mut m, " is corrupt: ");
                append_str(&mut m, e.as_str());
                Err(m)
            },
            None => Ok(None),
        },
    }
}

} // verus!
