//! Job logs: one JSON line per entry in `<job>.log`, rotated into
//! `<job>.1.log` … `<job>.7.log` once the current file would pass 5 MiB.
use vstd::prelude::*;

use crate::models::{LogLevel, UtcDateTime};
use crate::text::{chars_of, decimal_string, push_char, u64_to_decimal};

verus! {

/// The size past which the current log file is rotated.
pub const JOB_LOG_ROTATE_BYTES: u64 = 5242880;

/// How many rotated log files are kept.
pub const JOB_LOG_ROTATE_FILES: u64 = 7;

/// One line of a job's log.
#[derive(Debug, PartialEq, Eq)]
pub struct JobLogEntry {
    pub timestamp: UtcDateTime,
    pub level: LogLevel,
    pub message: String,
}

impl Clone for JobLogEntry {
    fn clone(&self) -> (res: Self)
        ensures
            res.timestamp == self.timestamp,
            res.level == self.level,
            res.message@ == self.message@,
    {
        JobLogEntry { timestamp: self.timestamp, level: self.level, message: self.message.clone() }
    }
}

pub fn append_str(out: &mut String, s: &str)
    ensures
        final(out)@ == old(out)@ + s@,
{
    let cs = chars_of(s);
    let ghost start = out@;
    for i in 0..cs.len()
        invariant
            out@ == start + cs@.take(i as int),
            cs@ == s@,
    {
        push_char(out, cs[i]);
        assert(cs@.take(i + 1) =~= cs@.take(i as int).push(cs@[i as int]));
    }
    assert(cs@.take(cs@.len() as int) =~= cs@);
}

/// The name of the current log file of job `job_id`.
pub fn job_log_file_name(job_id: &str) -> (res: String)
    ensures
        res@ == job_id@ + ".log"@,
{
    let mut out = String::new();
    append_str(&mut out, job_id);
    append_str(&mut out, ".log");
    assert(out@ =~= job_id@ + ".log"@);
    out
}

/// The name of rotated log file number `index` of job `job_id`.
pub fn rotated_job_log_file_name(job_id: &str, index: u64) -> (res: String)
    ensures
        res@ == job_id@ + "."@ + decimal_string(index as nat) + ".log"@,
{
    let mut out = String::new();
    append_str(&mut out, job_id);
    append_str(&mut out, ".");
    let digits = u64_to_decimal(index);
    append_str(&mut out, digits.as_str());
    append_str(&mut out, ".log");
    assert(out@ =~= job_id@ + "."@ + decimal_string(index as nat) + ".log"@);
    out
}

/// The log files a job may have, oldest first: the rotated ones from the
/// highest number down, then the current one.
pub fn job_log_file_names_oldest_to_newest(job_id: &str) -> (res: Vec<String>)
    ensures
        res@.len() == JOB_LOG_ROTATE_FILES + 1,
        forall|k: int| 0 <= k < JOB_LOG_ROTATE_FILES ==> (#[trigger] res@[k])@ == job_id@ + "."@
            + decimal_string((JOB_LOG_ROTATE_FILES - k) as nat) + ".log"@,
        res@[JOB_LOG_ROTATE_FILES as int]@ == job_id@ + ".log"@,
{
    let mut names: Vec<String> = Vec::new();
    let mut index: u64 = JOB_LOG_ROTATE_FILES;
    while index >= 1
        invariant
            index <= JOB_LOG_ROTATE_FILES,
            names@.len() == JOB_LOG_ROTATE_FILES - index,
            forall|k: int| 0 <= k < names@.len() ==> (#[trigger] names@[k])@ == job_id@ + "."@
                + decimal_string((JOB_LOG_ROTATE_FILES - k) as nat) + ".log"@,
        decreases index,
    {
        names.push(rotated_job_log_file_name(job_id, index));
        index = index - 1;
    }
    names.push(job_log_file_name(job_id));
    names
}

/// The name of rotated log file `index` of `job_id`.
pub open spec fn rotated_name(job_id: Seq<char>, index: int) -> Seq<char> {
    job_id + "."@ + decimal_string(index as nat) + ".log"@
}

/// How the logs of `job_id` rotate: the oldest rotated file is removed
/// (`.0`), then each rotated file moves one number up, from the highest
/// down, and the current file becomes number 1 (`.1`, in order).
pub fn rotation_plan(job_id: &str) -> (res: (String, Vec<(String, String)>))
    ensures
        res.0@ == rotated_name(job_id@, JOB_LOG_ROTATE_FILES as int),
        res.1@.len() == JOB_LOG_ROTATE_FILES,
        forall|j: int| 0 <= j < JOB_LOG_ROTATE_FILES - 1 ==> (#[trigger] res.1@[j]).0@ == rotated_name(
            job_id@,
            JOB_LOG_ROTATE_FILES - 1 - j,
        ) && res.1@[j].1@ == rotated_name(job_id@, JOB_LOG_ROTATE_FILES - j),
        res.1@[JOB_LOG_ROTATE_FILES - 1].0@ == job_id@ + ".log"@,
        res.1@[JOB_LOG_ROTATE_FILES - 1].1@ == rotated_name(job_id@, 1),
{
    let oldest = rotated_job_log_file_name(job_id, JOB_LOG_ROTATE_FILES);
    let mut moves: Vec<(String, String)> = Vec::new();
    let mut index: u64 = JOB_LOG_ROTATE_FILES - 1;
    while index >= 1
        invariant
            index <= JOB_LOG_ROTATE_FILES - 1,
            moves@.len() == JOB_LOG_ROTATE_FILES - 1 - index,
            forall|j: int| 0 <= j < moves@.len() ==> (#[trigger] moves@[j]).0@ == rotated_name(
                job_id@,
                JOB_LOG_ROTATE_FILES - 1 - j,
            ) && moves@[j].1@ == rotated_name(job_id@, JOB_LOG_ROTATE_FILES - j),
        decreases index,
    {
        let from = rotated_job_log_file_name(job_id, index);
        let to = rotated_job_log_file_name(job_id, index + 1);
        moves.push((from, to));
        index = index - 1;
    }
    moves.push((job_log_file_name(job_id), rotated_job_log_file_name(job_id, 1)));
    (oldest, moves)
}

/// Whether appending `incoming_bytes` to a log file of `current_len` bytes
/// would pass the rotation size.
pub fn needs_rotation(current_len: u64, incoming_bytes: u64) -> (res: bool)
    ensures
        res == (current_len + incoming_bytes > JOB_LOG_ROTATE_BYTES),
{
    incoming_bytes > JOB_LOG_ROTATE_BYTES || current_len > JOB_LOG_ROTATE_BYTES - incoming_bytes
}

/// The last `limit` entries, oldest first.
pub fn keep_last_logs(entries: Vec<JobLogEntry>, limit: usize) -> (res: Vec<JobLogEntry>)
    ensures
        res@ == if entries@.len() > limit {
            entries@.subrange(entries@.len() - limit, entries@.len() as int)
        } else {
            entries@
        },
{
    let mut entries = entries;
    if entries.len() > limit {
        let keep_from = entries.len() - limit;
        let tail = entries.split_off(keep_from);
        tail
    } else {
        entries
    }
}

/// What a log line holds.
pub open spec fn entry_view(e: JobLogEntry) -> (UtcDateTime, LogLevel, Seq<char>) {
    (e.timestamp, e.level, e.message@)
}

/// The lines to append to the job logs when a workspace file still embeds
/// its jobs' recent logs (`Some` for each job whose entry has the field): the
/// lines of each job, jobs in file order, lines in their order.
pub open spec fn embedded_lines(legacy: Seq<(String, Option<Vec<JobLogEntry>>)>) -> Seq<
    (Seq<char>, (UtcDateTime, LogLevel, Seq<char>)),
>
    decreases legacy.len(),
{
    if legacy.len() == 0 {
        Seq::empty()
    } else {
        embedded_lines(legacy.drop_last()) + match legacy.last().1 {
            Some(lines) => lines@.map_values(|e: JobLogEntry| (legacy.last().0@, entry_view(e))),
            None => Seq::empty(),
        }
    }
}

/// Moves logs embedded in a workspace file into the job log files: the
/// lines to append, each with its job's id, and whether the workspace file is
/// to be written again without them (when any job had the field).
pub fn migrate_embedded_logs(legacy: &Vec<(String, Option<Vec<JobLogEntry>>)>) -> (res: (
    Vec<(String, JobLogEntry)>,
    bool,
))
    ensures
        res.0@.map_values(|p: (String, JobLogEntry)| (p.0@, entry_view(p.1))) == embedded_lines(legacy@),
        res.1 == exists|k: int| 0 <= k < legacy@.len() && (#[trigger] legacy@[k]).1 is Some,
{
    let mut out: Vec<(String, JobLogEntry)> = Vec::new();
    let mut rewrite = false;
    assert(legacy@.take(0) =~= Seq::<(String, Option<Vec<JobLogEntry>>)>::empty());
    assert(out@.map_values(|p: (String, JobLogEntry)| (p.0@, entry_view(p.1))) =~= Seq::<
        (Seq<char>, (UtcDateTime, LogLevel, Seq<char>)),
    >::empty());
    for i in 0..legacy.len()
        invariant
            out@.map_values(|p: (String, JobLogEntry)| (p.0@, entry_view(p.1))) == embedded_lines(
                legacy@.take(i as int),
            ),
            rewrite == exists|k: int| 0 <= k < i && (#[trigger] legacy@[k]).1 is Some,
    {
        assert(legacy@.take(i + 1).drop_last() =~= legacy@.take(i as int));
        assert(legacy@.take(i + 1).last() == legacy@[i as int]);
        let ghost before = out@.map_values(|p: (String, JobLogEntry)| (p.0@, entry_view(p.1)));
        match &legacy[i].1 {
            Some(lines) => {
                rewrite = true;
                let ghost id = legacy@[i as int].0@;
                for j in 0..lines.len()
                    invariant
                        i < legacy@.len(),
                        id == legacy@[i as int].0@,
                        out@.map_values(|p: (String, JobLogEntry)| (p.0@, entry_view(p.1))) == before + lines@.take(
                            j as int,
                        ).map_values(|e: JobLogEntry| (id, entry_view(e))),
                {
                    let ghost prev = out@.map_values(|p: (String, JobLogEntry)| (p.0@, entry_view(p.1)));
                    out.push((legacy[i].0.clone(), lines[j].clone()));
                    assert(out@.map_values(|p: (String, JobLogEntry)| (p.0@, entry_view(p.1))) =~= prev.push(
                        (id, entry_view(lines@[j as int])),
                    ));
                    assert(lines@.take(j + 1).map_values(|e: JobLogEntry| (id, entry_view(e))) =~= lines@.take(
                        j as int,
                    ).map_values(|e: JobLogEntry| (id, entry_view(e))).push((id, entry_view(lines@[j as int]))));
                }
                assert(lines@.take(lines@.len() as int) =~= lines@);
            },
            None => {
                assert(before + Seq::<(Seq<char>, (UtcDateTime, LogLevel, Seq<char>))>::empty() =~= before);
            },
        }
    }
    assert(legacy@.take(legacy@.len() as int) =~= legacy@);
    (out, rewrite)
}

} // verus!
