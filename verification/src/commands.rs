//! What the daemon answers to the commands of the user interface, once the
//! store has been asked: the refusals, the confirmations and the lines each
//! command adds to a job's log.
use vstd::prelude::*;

use crate::models::{owned, JobConfig, LogLevel, ServerConfig};
use crate::responses::{ActionResponse, ConnectionTestResponse};

verus! {

pub open spec fn msg_job_not_found() -> Seq<char> {
    "That job could not be found."@
}

/// The job a command is about, or the refusal when there is none.
pub fn job_or_not_found<T>(found: Option<T>) -> (res: Result<T, String>)
    ensures
        match found {
            Some(v) => res matches Ok(w) && w == v,
            None => res matches Err(e) && e@ == msg_job_not_found(),
        },
{
    match found {
        Some(v) => Ok(v),
        None => Err(owned("That job could not be found.")),
    }
}

/// A manual run is refused for a missing or disabled job.
pub fn manual_run_allowed(job: Option<&JobConfig>) -> (res: Result<(), String>)
    ensures
        match job {
            None => res matches Err(e) && e@ == msg_job_not_found(),
            Some(j) => if j.enabled {
                res is Ok
            } else {
                res matches Err(e) && e@ == "Enable this data source before requesting a manual run."@
            },
        },
{
    match job {
        None => Err(owned("That job could not be found.")),
        Some(j) => if j.enabled {
            Ok(())
        } else {
            Err(owned("Enable this data source before requesting a manual run."))
        },
    }
}

/// The answer to turning a job on or off, with the level and text of the
/// line it adds to the job's log.
pub fn toggle_outcome(enabled: bool) -> (res: (ActionResponse, LogLevel, String))
    ensures
        res.0.ok,
        enabled ==> res.0.message@ == "Job enabled."@ && res.1 == LogLevel::Info && res.2@ == "Job enabled"@,
        !enabled ==> res.0.message@ == "Job disabled."@ && res.1 == LogLevel::Warning && res.2@
            == "Job disabled"@,
{
    if enabled {
        (ActionResponse { ok: true, message: owned("Job enabled.") }, LogLevel::Info, owned("Job enabled"))
    } else {
        (ActionResponse { ok: true, message: owned("Job disabled.") }, LogLevel::Warning, owned("Job disabled"))
    }
}

/// The answer to deleting a job.
pub fn delete_outcome(deleted: bool) -> (res: Result<ActionResponse, String>)
    ensures
        deleted ==> (res matches Ok(r) && r.ok && r.message@ == "Job deleted."@),
        !deleted ==> (res matches Err(e) && e@ == msg_job_not_found()),
{
    if deleted {
        Ok(ActionResponse { ok: true, message: owned("Job deleted.") })
    } else {
        Err(owned("That job could not be found."))
    }
}

/// The answer to a manual run request that the pipeline accepted.
pub fn run_requested() -> (res: ActionResponse)
    ensures
        res.ok && res.message@ == "Run requested."@,
{
    ActionResponse { ok: true, message: owned("Run requested.") }
}

/// The server settings to store after a connection test of `normalized`,
/// with the workspace name to record: the tested workspace and its name
/// (else the configured name); the test's message when it failed.
pub fn server_to_store(normalized: ServerConfig, connection: &ConnectionTestResponse) -> (res: Result<
    (ServerConfig, String),
    String,
>)
    ensures
        !connection.ok ==> (res matches Err(e) && e@ == connection.message@),
        connection.ok ==> (res matches Ok((s, name)) && {
            &&& s@.auth_type == normalized@.auth_type
            &&& s@.url == normalized@.url
            &&& s@.api_key == normalized@.api_key
            &&& s@.username == normalized@.username
            &&& s@.password == normalized@.password
            &&& s@.workspace_id == crate::json::or_empty(crate::models::opt_view(connection.workspace_id))
            &&& s@.workspace_name == match connection.workspace_name {
                Some(n) => n@,
                None => normalized@.workspace_name,
            }
            &&& name@ == crate::json::or_empty(crate::models::opt_view(connection.workspace_name))
        }),
{
    if !connection.ok {
        return Err(connection.message.clone());
    }
    let workspace_id = match &connection.workspace_id {
        Some(w) => w.clone(),
        None => String::new(),
    };
    let (workspace_name, name) = match &connection.workspace_name {
        Some(n) => (n.clone(), n.clone()),
        None => (normalized.workspace_name.clone(), String::new()),
    };
    let server = ServerConfig {
        auth_type: normalized.auth_type,
        url: normalized.url,
        api_key: normalized.api_key,
        username: normalized.username,
        password: normalized.password,
        workspace_id,
        workspace_name,
    };
    Ok((server, name))
}

/// The answer when the datastream listing could not be fetched, whatever
/// the reason.
pub fn datastreams_unavailable() -> (res: String)
    ensures
        res@ == "Couldn't load datastreams from HydroServer right now."@,
{
    owned("Couldn't load datastreams from HydroServer right now.")
}

} // verus!
