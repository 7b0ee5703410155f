//! The parts of talking to HydroServer that do not need the network: request
//! URLs, how request errors are classified and reported, which workspace an
//! API key resolves to, the answers of the connection and URL checks, and
//! the cache of session tokens.
use vstd::prelude::*;

use crate::job_logs::append_str;
use crate::json::{
    array_items, as_array, get, has_key, has_member, item_id, item_id_exec, member, string_at, string_value,
    JsonValue,
};
use crate::models::{
    normalize_url, owned, spec_normalize_url, AuthType, ConnectionState, ServerConfig,
    UtcDateTime,
};
use crate::pipeline::{ObservationValue, ObservationValueView};
use crate::responses::{ConnectionTestResponse, ServerUrlValidationResponse};
use crate::text::{
    chars_of, parse_unsigned, parse_unsigned_chars, str_eq, string_from, trim, trim_start_char,
    trim_str,
};

verus! {

pub const AUTH_ROUTE: &'static str = "/api/auth";

pub const BASE_ROUTE: &'static str = "/api/data";

pub const DATASTREAM_PAGE_SIZE: usize = 1000;

/// How long, in seconds, a datastream listing is reused.
pub const DATASTREAM_CACHE_TTL_SECONDS: i64 = 300;

/// One observation of an upload: when it was observed and its value.
#[derive(Debug, PartialEq, Eq)]
pub struct ObservationPayloadRow {
    pub phenomenon_time: UtcDateTime,
    pub result: ObservationValue,
}

/// How chrono writes an instant in RFC 3339 (`DateTime::<Utc>::to_rfc3339`);
/// `None` when chrono cannot represent the instant.
pub uninterp spec fn spec_rfc3339_text(t: UtcDateTime) -> Option<Seq<char>>;

/// `chrono::DateTime::from_timestamp(secs, nanos)` written with `to_rfc3339`;
/// the contract only names the result.
#[verifier::external_body]
fn rfc3339_text(t: UtcDateTime) -> (res: Option<String>)
    ensures
        crate::models::opt_view(res) == spec_rfc3339_text(t),
{
    chrono::DateTime::from_timestamp(t.secs, t.nanos).map(|d| d.to_rfc3339())
}

/// The JSON of an observation's value: a number keeps its text.
pub open spec fn value_json(v: ObservationValueView, j: JsonValue) -> bool {
    match j {
        JsonValue::Number(n) => v.numeric && n@ == v.text,
        JsonValue::Str(t) => !v.numeric && t@ == v.text,
        _ => false,
    }
}

pub fn observation_value_json(v: &ObservationValue) -> (res: JsonValue)
    ensures
        value_json(v@, res),
{
    match v {
        ObservationValue::Number(n) => JsonValue::Number(n.clone()),
        ObservationValue::Text(t) => JsonValue::Str(t.clone()),
    }
}

/// `j` is the string `s`.
pub open spec fn is_text(j: JsonValue, s: Seq<char>) -> bool {
    match j {
        JsonValue::Str(t) => t@ == s,
        _ => false,
    }
}

/// The row `[time, value]` of a bulk upload.
pub open spec fn data_row(j: JsonValue, time: Seq<char>, value: ObservationValueView) -> bool {
    match j {
        JsonValue::Array(cells) => cells@.len() == 2 && is_text(cells@[0], time) && value_json(value, cells@[1]),
        _ => false,
    }
}

/// `body` is `{"fields": ["phenomenonTime", "result"], "data": [...]}` with
/// one row per upload row, its time as chrono writes it.
pub open spec fn batch_body(body: JsonValue, rows: Seq<ObservationPayloadRow>) -> bool {
    match body {
        JsonValue::Object(members) => {
            &&& members@.len() == 2
            &&& members@[0].0@ == "fields"@
            &&& match members@[0].1 {
                JsonValue::Array(f) => f@.len() == 2 && is_text(f@[0], "phenomenonTime"@) && is_text(f@[1], "result"@),
                _ => false,
            }
            &&& members@[1].0@ == "data"@
            &&& match members@[1].1 {
                JsonValue::Array(data) => data@.len() == rows.len() && forall|k: int|
                    0 <= k < rows.len() ==> data_row(
                        #[trigger] data@[k],
                        spec_rfc3339_text(rows[k].phenomenon_time)->0,
                        rows[k].result@,
                    ),
                _ => false,
            }
        },
        _ => false,
    }
}

/// The body of a bulk upload in SensorThings naming (see `batch_body`);
/// `None` when a time cannot be written.
pub fn observation_batch_body(rows: &Vec<ObservationPayloadRow>) -> (res: Option<JsonValue>)
    ensures
        (forall|k: int| 0 <= k < rows@.len() ==> (#[trigger] spec_rfc3339_text(rows@[k].phenomenon_time)) is Some)
            <==> res is Some,
        res matches Some(body) ==> batch_body(body, rows@),
{
    let mut data: Vec<JsonValue> = Vec::new();
    for i in 0..rows.len()
        invariant
            data@.len() == i,
            forall|k: int| 0 <= k < i ==> (#[trigger] spec_rfc3339_text(rows@[k].phenomenon_time)) is Some,
            forall|k: int| 0 <= k < i ==> data_row(
                #[trigger] data@[k],
                spec_rfc3339_text(rows@[k].phenomenon_time)->0,
                rows@[k].result@,
            ),
    {
        let time = match rfc3339_text(rows[i].phenomenon_time) {
            Some(t) => t,
            None => return None,
        };
        let mut cells: Vec<JsonValue> = Vec::new();
        cells.push(JsonValue::Str(time));
        cells.push(observation_value_json(&rows[i].result));
        data.push(JsonValue::Array(cells));
    }
    let mut fields: Vec<JsonValue> = Vec::new();
    fields.push(JsonValue::Str(owned("phenomenonTime")));
    fields.push(JsonValue::Str(owned("result")));
    let mut members: Vec<(String, JsonValue)> = Vec::new();
    members.push((owned("fields"), JsonValue::Array(fields)));
    members.push((owned("data"), JsonValue::Array(data)));
    Some(JsonValue::Object(members))
}

/// The route of a bulk upload to datastream `datastream_id` (sent with
/// `mode=insert`).
pub fn bulk_create_path(datastream_id: &str) -> (res: String)
    ensures
        res@ == "/api/data/datastreams/"@ + datastream_id@ + "/observations/bulk-create"@,
{
    let mut out = String::new();
    append_str(&mut out, "/api/data/datastreams/");
    append_str(&mut out, datastream_id);
    append_str(&mut out, "/observations/bulk-create");
    out
}

// ---------------------------------------------------------------------------
// URLs
// ---------------------------------------------------------------------------
/// The URL of `path` on the server at `base_url`.
pub open spec fn spec_build_url(base_url: Seq<char>, path: Seq<char>) -> Seq<char> {
    spec_normalize_url(base_url) + "/"@ + trim_start_char(path, '/')
}

pub fn build_url(base_url: &str, path: &str) -> (res: String)
    ensures
        res@ == spec_build_url(base_url@, path@),
{
    let base = normalize_url(base_url);
    let path_chars = chars_of(path);
    let rest = crate::models::trim_start_char_chars(path_chars.as_slice(), '/');
    let rest_str = string_from(rest.as_slice());
    let mut out = String::new();
    append_str(&mut out, base.as_str());
    append_str(&mut out, "/");
    append_str(&mut out, rest_str.as_str());
    assert(out@ =~= spec_build_url(base_url@, path@));
    out
}

/// The host that `url::Url::parse` finds in `url`, when the URL parses and
/// has one.
pub uninterp spec fn url_host(url: Seq<char>) -> Option<Seq<char>>;

/// `reqwest::Url::parse(url)` followed by `host_str`: the contract claims
/// only that the result is the parser's, named `url_host`.
#[verifier::external_body]
fn parse_url_host(url: &str) -> (res: Option<String>)
    ensures
        match res {
            Some(h) => url_host(url@) == Some(h@),
            None => url_host(url@) is None,
        },
{
    reqwest::Url::parse(url).ok().and_then(|parsed| parsed.host_str().map(|host| host.to_string()))
}

/// The name shown for a server: the host of its URL, or the URL itself when
/// it has no host.
pub open spec fn spec_instance_name(url: Seq<char>) -> Seq<char> {
    match url_host(url) {
        Some(h) => if h.len() > 0 {
            h
        } else {
            url
        },
        None => url,
    }
}

pub fn instance_name(url: &str) -> (res: String)
    ensures
        res@ == spec_instance_name(url@),
{
    match parse_url_host(url) {
        Some(host) => if host.as_str().is_empty() {
            owned(url)
        } else {
            host
        },
        None => owned(url),
    }
}

/// A header value read as a `u32` (`str::parse::<u32>`).
pub fn header_int(value: Option<&str>) -> (res: Option<u32>)
    ensures
        match value {
            Some(v) => match parse_unsigned(v@, u32::MAX as int) {
                Some(n) => res == Some(n as u32),
                None => res is None,
            },
            None => res is None,
        },
{
    match value {
        Some(v) => {
            let chars = chars_of(v);
            match parse_unsigned_chars(chars.as_slice(), u32::MAX as u64) {
                Some(n) => Some(n as u32),
                None => None,
            }
        },
        None => None,
    }
}

/// Whether another page of a collection is to be fetched after `page` gave
/// `page_len` items: not after an empty page, not past the announced number
/// of pages, and without that number not after a short page.
pub fn fetch_next_page(page: u32, page_len: usize, total_pages: Option<u32>) -> (res: bool)
    ensures
        res == (page_len > 0 && match total_pages {
            Some(t) => page < t,
            None => page_len >= DATASTREAM_PAGE_SIZE,
        }),
{
    if page_len == 0 {
        return false;
    }
    match total_pages {
        Some(t) => page < t,
        None => page_len >= DATASTREAM_PAGE_SIZE,
    }
}

// ---------------------------------------------------------------------------
// Request errors
// ---------------------------------------------------------------------------
/// Why a request to HydroServer failed.
#[derive(Debug, PartialEq, Eq)]
pub enum RequestError {
    Connection,
    Timeout,
    Http { status: Option<u16>, message: String },
    Other(String),
}

impl RequestError {
    /// Worth retrying: the server could not be reached, timed out, or answered
    /// with a server error (5xx).
    pub fn is_retryable(&self) -> (res: bool)
        ensures
            res == match self {
                RequestError::Connection | RequestError::Timeout => true,
                RequestError::Http { status: Some(s), .. } => 500 <= *s <= 599,
                _ => false,
            },
    {
        match self {
            RequestError::Connection | RequestError::Timeout => true,
            RequestError::Http { status: Some(s), .. } => 500 <= *s && *s <= 599,
            _ => false,
        }
    }

    /// The server refused the request as conflicting (409).
    pub fn is_conflict(&self) -> (res: bool)
        ensures
            res == (self matches RequestError::Http { status: Some(s), .. } && *s == 409),
    {
        match self {
            RequestError::Http { status: Some(s), .. } => *s == 409,
            _ => false,
        }
    }

    /// What the error says to the user.
    pub fn message(&self) -> (res: String)
        ensures
            res@ == match self {
                RequestError::Connection => "Couldn't reach HydroServer."@,
                RequestError::Timeout => "HydroServer request timed out."@,
                RequestError::Http { message, .. } => message@,
                RequestError::Other(message) => message@,
            },
    {
        match self {
            RequestError::Connection => owned("Couldn't reach HydroServer."),
            RequestError::Timeout => owned("HydroServer request timed out."),
            RequestError::Http { message, .. } => message.clone(),
            RequestError::Other(message) => message.clone(),
        }
    }
}

// ---------------------------------------------------------------------------
// Reading responses
// ---------------------------------------------------------------------------
/// `s` with ASCII letters lowered (`str::to_ascii_lowercase`).
pub open spec fn ascii_lowered(s: Seq<char>) -> Seq<char> {
    s.map_values(|c: char| crate::text::ascii_lower(c))
}

/// Whether a `Content-Type` value names JSON.
pub open spec fn names_json(content_type: Seq<char>) -> bool {
    crate::service::macos::contains(ascii_lowered(content_type), "json"@)
}

/// Whether a response's `Content-Type` (an empty string when it is missing
/// or not text) names JSON.
pub fn is_json_content_type(content_type: &str) -> (res: bool)
    ensures
        res == names_json(content_type@),
{
    let chars = chars_of(content_type);
    let mut lowered = String::new();
    for i in 0..chars.len()
        invariant
            chars@ == content_type@,
            lowered@ == ascii_lowered(chars@.take(i as int)),
    {
        crate::text::push_char(&mut lowered, crate::text::ascii_lower_char(chars[i]));
        assert(ascii_lowered(chars@.take(i + 1)) =~= ascii_lowered(chars@.take(i as int)).push(
            crate::text::ascii_lower(chars@[i as int]),
        ));
    }
    assert(chars@.take(chars@.len() as int) =~= chars@);
    crate::service::macos::str_contains(lowered.as_str(), "json")
}

/// The JSON body a probe reads: the parsed body (`None` when it did not
/// parse), kept only when the response says it is JSON.
pub fn response_payload(content_type: &str, parsed: Option<JsonValue>) -> (res: Option<JsonValue>)
    ensures
        res == if names_json(content_type@) {
            parsed
        } else {
            None
        },
{
    if is_json_content_type(content_type) {
        parsed
    } else {
        None
    }
}

/// Whether an answer of the session route looks like HydroServer's: a status
/// that route gives (200, 401, 403, 405, 422) and a JSON object whose `meta`
/// object has `is_authenticated`, whose `data` object has `flows`, or whose
/// `detail` is an array.
pub open spec fn auth_answer_recognised(status: u16, payload: Option<JsonValue>) -> bool {
    &&& (status == 200 || status == 401 || status == 403 || status == 405 || status == 422)
    &&& payload matches Some(p)
    &&& p is Object
    &&& (has_member(member(p, "meta"@), "is_authenticated"@) || has_member(member(p, "data"@), "flows"@)
        || array_items(member(p, "detail"@)) is Some)
}

/// Whether an answer of the workspace collection looks like HydroServer's: a
/// status of 200, 401 or 403 and a JSON array, or an object with `detail` or
/// `status`.
pub open spec fn data_answer_recognised(status: u16, payload: Option<JsonValue>) -> bool {
    &&& (status == 200 || status == 401 || status == 403)
    &&& payload matches Some(p)
    &&& (p is Array || has_member(Some(p), "detail"@) || has_member(Some(p), "status"@))
}

pub fn looks_like_hydroserver_auth_response(status: u16, payload: Option<&JsonValue>) -> (res: bool)
    ensures
        res == auth_answer_recognised(status, match payload {
            Some(p) => Some(*p),
            None => None,
        }),
{
    if !(status == 200 || status == 401 || status == 403 || status == 405 || status == 422) {
        return false;
    }
    let p = match payload {
        Some(p) => p,
        None => return false,
    };
    match p {
        JsonValue::Object(_) => {},
        _ => return false,
    }
    if has_key(get(p, "meta"), "is_authenticated") || has_key(get(p, "data"), "flows") {
        return true;
    }
    match get(p, "detail") {
        Some(d) => as_array(d).is_some(),
        None => false,
    }
}

pub fn looks_like_hydroserver_data_response(status: u16, payload: Option<&JsonValue>) -> (res: bool)
    ensures
        res == data_answer_recognised(status, match payload {
            Some(p) => Some(*p),
            None => None,
        }),
{
    if !(status == 200 || status == 401 || status == 403) {
        return false;
    }
    match payload {
        Some(p) => as_array(p).is_some() || has_key(Some(p), "detail") || has_key(Some(p), "status"),
        None => false,
    }
}

/// How a probe request ended.
#[derive(Clone, Copy, Debug, PartialEq, Eq, Structural)]
pub enum ProbeAnswer {
    /// The server answered; whether the answer looks like HydroServer's.
    Responded(bool),
    /// The server could not be reached or timed out.
    Unreachable,
    /// The request failed otherwise.
    Failed,
}

/// After the session-route probe: the outcome when it settles the check (a
/// recognised answer, or an unreachable server), `None` when the workspace
/// collection is to be probed next.
pub fn after_auth_probe(answer: ProbeAnswer) -> (res: Option<UrlProbe>)
    ensures
        res == match answer {
            ProbeAnswer::Responded(true) => Some(UrlProbe::Detected),
            ProbeAnswer::Unreachable => Some(UrlProbe::Unreachable),
            _ => None::<UrlProbe>,
        },
{
    match answer {
        ProbeAnswer::Responded(true) => Some(UrlProbe::Detected),
        ProbeAnswer::Unreachable => Some(UrlProbe::Unreachable),
        _ => None,
    }
}

/// The outcome of the check from the workspace-collection probe.
pub fn after_data_probe(answer: ProbeAnswer) -> (res: UrlProbe)
    ensures
        res == match answer {
            ProbeAnswer::Responded(true) => UrlProbe::Detected,
            ProbeAnswer::Responded(false) => UrlProbe::NotHydroserver,
            ProbeAnswer::Unreachable => UrlProbe::Unreachable,
            ProbeAnswer::Failed => UrlProbe::Failed,
        },
{
    match answer {
        ProbeAnswer::Responded(true) => UrlProbe::Detected,
        ProbeAnswer::Responded(false) => UrlProbe::NotHydroserver,
        ProbeAnswer::Unreachable => UrlProbe::Unreachable,
        ProbeAnswer::Failed => UrlProbe::Failed,
    }
}

/// The route of the workspace collection.
pub const WORKSPACES_ROUTE: &'static str = "/api/data/workspaces";

/// The query of page `page` of the workspaces the credentials are associated
/// with: pages of [`DATASTREAM_PAGE_SIZE`] so that every reachable workspace
/// is listed.
pub fn workspaces_query(page: u32) -> (res: Vec<(String, String)>)
    ensures
        res@.len() == 3,
        res@[0].0@ == "is_associated"@ && res@[0].1@ == "true"@,
        res@[1].0@ == "page"@ && res@[1].1@ == crate::text::decimal_string(page as nat),
        res@[2].0@ == "page_size"@ && res@[2].1@ == crate::text::decimal_string(DATASTREAM_PAGE_SIZE as nat),
{
    let mut out: Vec<(String, String)> = Vec::new();
    out.push((owned("is_associated"), owned("true")));
    out.push((owned("page"), crate::text::u64_to_decimal(page as u64)));
    out.push((owned("page_size"), crate::text::u64_to_decimal(DATASTREAM_PAGE_SIZE as u64)));
    out
}

/// The workspaces (id and name, the name empty when it has none) of a page
/// of the workspace collection, in order; items without an id are skipped.
pub open spec fn workspace_pairs(items: Seq<JsonValue>) -> Seq<(Seq<char>, Seq<char>)>
    decreases items.len(),
{
    if items.len() == 0 {
        Seq::empty()
    } else {
        let p = workspace_pairs(items.drop_last());
        match item_id(items.last()) {
            Some(id) => p.push((id, crate::json::or_empty(string_at(items.last(), seq!["name"@])))),
            None => p,
        }
    }
}

/// The workspaces a page of the workspace collection lists, and the
/// workspace count: the `X-Total-Count` header when it reads as a number,
/// else the number of items; nothing when the answer is not an array.
pub fn associated_workspaces_from(payload: &JsonValue, total_count: Option<&str>) -> (res: (
    Vec<(String, String)>,
    u32,
))
    ensures
        match array_items(Some(*payload)) {
            None => res.0@.len() == 0 && res.1 == 0,
            Some(items) => {
                &&& pairs_view(res.0@) == workspace_pairs(items)
                &&& res.1 == match total_count {
                    Some(v) => match parse_unsigned(v@, u32::MAX as int) {
                        Some(n) => n as u32,
                        None => items.len() as u32,
                    },
                    None => items.len() as u32,
                }
            },
        },
{
    let mut out: Vec<(String, String)> = Vec::new();
    let items = match as_array(payload) {
        Some(items) => items,
        None => return (out, 0),
    };
    let count = match header_int(total_count) {
        Some(n) => n,
        None => items.len() as u32,
    };
    assert(items@.take(0) =~= Seq::<JsonValue>::empty());
    assert(pairs_view(out@) =~= Seq::<(Seq<char>, Seq<char>)>::empty());
    for i in 0..items.len()
        invariant
            pairs_view(out@) == workspace_pairs(items@.take(i as int)),
    {
        assert(items@.take(i + 1).drop_last() =~= items@.take(i as int));
        assert(items@.take(i + 1).last() == items@[i as int]);
        if let Some(id) = item_id_exec(&items[i]) {
            let name = match string_value(&items[i], "name") {
                Some(n) => n,
                None => String::new(),
            };
            let ghost before = pairs_view(out@);
            out.push((id, name));
            assert(pairs_view(out@) =~= before.push((out@.last().0@, out@.last().1@)));
        }
    }
    assert(items@.take(items@.len() as int) =~= items@);
    (out, count)
}

/// The session token of a sign-in answer: its `meta.session_token` string.
pub open spec fn session_token_of(payload: JsonValue) -> Option<Seq<char>> {
    match member(payload, "meta"@) {
        Some(meta) => match member(meta, "session_token"@) {
            Some(JsonValue::Str(t)) => Some(t@),
            _ => None,
        },
        None => None,
    }
}

pub fn session_token_from(payload: &JsonValue) -> (res: Result<String, RequestError>)
    ensures
        match session_token_of(*payload) {
            Some(t) => res matches Ok(r) && r@ == t,
            None => res matches Err(RequestError::Other(m)) && m@
                == "Authentication failed: No access token returned."@,
        },
{
    if let Some(meta) = get(payload, "meta") {
        if let Some(JsonValue::Str(t)) = get(meta, "session_token") {
            return Ok(t.clone());
        }
    }
    Err(RequestError::Other(owned("Authentication failed: No access token returned.")))
}

/// Whether a refused request is sent once more with a fresh session token:
/// only on the first attempt, for user-and-password sign-in, after a 401 or
/// 403.
pub fn retry_with_fresh_token(attempt: u32, auth_type: AuthType, status: u16) -> (res: bool)
    ensures
        res == (attempt == 0 && auth_type == AuthType::Userpass && (status == 401 || status == 403)),
{
    attempt == 0 && auth_type == AuthType::Userpass && (status == 401 || status == 403)
}

/// The text of an error `detail`: a non-blank string as it is, for a list
/// the first `msg` string of its items; otherwise the detail written as JSON
/// (`detail_json`).
pub open spec fn detail_text(detail: JsonValue, detail_json: Seq<char>) -> Seq<char> {
    match detail {
        JsonValue::Str(m) => if trim(m@).len() > 0 {
            m@
        } else {
            detail_json
        },
        JsonValue::Array(items) => match first_msg(items@) {
            Some(m) => m,
            None => detail_json,
        },
        _ => detail_json,
    }
}

/// The first `msg` string among `items`.
pub open spec fn first_msg(items: Seq<JsonValue>) -> Option<Seq<char>>
    decreases items.len(),
{
    if items.len() == 0 {
        None
    } else {
        match member(items[0], "msg"@) {
            Some(JsonValue::Str(m)) => Some(m@),
            _ => first_msg(items.drop_first()),
        }
    }
}

pub fn format_error_detail(detail: &JsonValue, detail_json: &str) -> (res: String)
    ensures
        res@ == detail_text(*detail, detail_json@),
{
    match detail {
        JsonValue::Str(m) => {
            if crate::text::is_blank(m.as_str()) {
                owned(detail_json)
            } else {
                m.clone()
            }
        },
        JsonValue::Array(items) => {
            let mut i: usize = 0;
            assert(items@.subrange(0, items@.len() as int) =~= items@);
            while i < items.len()
                invariant
                    i <= items@.len(),
                    *detail == JsonValue::Array(*items),
                    first_msg(items@) == first_msg(items@.subrange(i as int, items@.len() as int)),
                decreases items@.len() - i,
            {
                let ghost rest = items@.subrange(i as int, items@.len() as int);
                assert(rest.drop_first() =~= items@.subrange(i + 1, items@.len() as int));
                assert(rest[0] == items@[i as int]);
                let found = get(&items[i], "msg");
                if let Some(JsonValue::Str(m)) = found {
                    assert(member(items@[i as int], "msg"@) == Some(JsonValue::Str(*m)));
                    assert(first_msg(rest) == Some(m@));
                    return m.clone();
                }
                i = i + 1;
            }
            owned(detail_json)
        },
        _ => owned(detail_json),
    }
}

/// The message of a refused request: the text of the body's `detail` (with
/// that detail written as JSON) when there is one, else the status.
pub open spec fn error_message_text(status: u16, detail: Option<(JsonValue, Seq<char>)>) -> Seq<char> {
    match detail {
        Some((d, j)) => detail_text(d, j),
        None => "HydroServer returned status "@ + crate::text::decimal_string(status as nat) + "."@,
    }
}

pub fn response_error_message(status: u16, detail: Option<(JsonValue, String)>) -> (res: String)
    ensures
        res@ == error_message_text(status, match detail {
            Some((d, j)) => Some((d, j@)),
            None => None,
        }),
{
    match detail {
        Some((d, j)) => format_error_detail(&d, j.as_str()),
        None => {
            let mut out = String::new();
            append_str(&mut out, "HydroServer returned status ");
            let digits = crate::text::u64_to_decimal(status as u64);
            append_str(&mut out, digits.as_str());
            append_str(&mut out, ".");
            out
        },
    }
}

// ---------------------------------------------------------------------------
// Keys
// ---------------------------------------------------------------------------
pub open spec fn auth_type_name(a: AuthType) -> Seq<char> {
    match a {
        AuthType::Apikey => "Apikey"@,
        AuthType::Userpass => "Userpass"@,
    }
}

/// The credential that identifies the account: the API key or the user name.
pub open spec fn credential(server: crate::models::ServerConfigView) -> Seq<char> {
    match server.auth_type {
        AuthType::Apikey => trim(server.api_key),
        AuthType::Userpass => trim(server.username),
    }
}

pub(crate) fn auth_type_label(a: AuthType) -> (res: &'static str)
    ensures
        res@ == auth_type_name(a),
{
    match a {
        AuthType::Apikey => {
            proof {
                reveal_strlit("Apikey");
            }
            "Apikey"
        },
        AuthType::Userpass => {
            proof {
                reveal_strlit("Userpass");
            }
            "Userpass"
        },
    }
}

pub(crate) fn credential_of(server: &ServerConfig) -> (res: String)
    ensures
        res@ == credential(server@),
{
    match server.auth_type {
        AuthType::Apikey => trim_str(server.api_key.as_str()),
        AuthType::Userpass => trim_str(server.username.as_str()),
    }
}

/// The key under which the datastreams of a workspace are cached.
pub open spec fn spec_datastream_cache_key(server: crate::models::ServerConfigView, workspace_id: Seq<char>) -> Seq<char> {
    auth_type_name(server.auth_type) + "|"@ + spec_normalize_url(server.url) + "|"@ + trim(
        workspace_id,
    ) + "|"@ + credential(server)
}

pub fn datastream_cache_key(server: &ServerConfig, workspace_id: &str) -> (res: String)
    ensures
        res@ == spec_datastream_cache_key(server@, workspace_id@),
{
    let mut out = String::new();
    append_str(&mut out, auth_type_label(server.auth_type));
    append_str(&mut out, "|");
    let url = normalize_url(server.url.as_str());
    append_str(&mut out, url.as_str());
    append_str(&mut out, "|");
    let ws = trim_str(workspace_id);
    append_str(&mut out, ws.as_str());
    append_str(&mut out, "|");
    let c = credential_of(server);
    append_str(&mut out, c.as_str());
    assert(out@ =~= spec_datastream_cache_key(server@, workspace_id@));
    out
}

// ---------------------------------------------------------------------------
// Workspaces of an API key
// ---------------------------------------------------------------------------
pub open spec fn msg_workspace_unreachable() -> Seq<char> {
    "This API key does not have access to the saved workspace. Update the API key or choose a workspace it can access."@
}

pub open spec fn pairs_view(ws: Seq<(String, String)>) -> Seq<(Seq<char>, Seq<char>)> {
    ws.map_values(|w: (String, String)| (w.0@, w.1@))
}

/// The index of the first workspace with id `id`, or `ws.len()`.
pub open spec fn first_with_id(ws: Seq<(Seq<char>, Seq<char>)>, id: Seq<char>) -> int
    decreases ws.len(),
{
    if ws.len() == 0 {
        0
    } else if ws[0].0 == id {
        0
    } else {
        1 + first_with_id(ws.drop_first(), id)
    }
}

proof fn lemma_first_with_id(ws: Seq<(Seq<char>, Seq<char>)>, id: Seq<char>, j: int)
    requires
        0 <= j <= ws.len(),
        forall|i: int| 0 <= i < j ==> (#[trigger] ws[i]).0 != id,
        j < ws.len() ==> ws[j].0 == id,
    ensures
        first_with_id(ws, id) == j,
    decreases ws.len(),
{
    if ws.len() > 0 && j > 0 {
        assert forall|i: int| 0 <= i < j - 1 implies (#[trigger] ws.drop_first()[i]).0 != id by {
            assert(ws.drop_first()[i] == ws[i + 1]);
        }
        assert(ws[0].0 != id);
        lemma_first_with_id(ws.drop_first(), id, j - 1);
    }
}

/// Which of the workspaces an API key can reach to use: none when it reaches
/// none, the first when no workspace was saved, the saved one when the key
/// still reaches it, and otherwise an error on the `api_key` field.
pub open spec fn spec_resolve_workspace(saved: Seq<char>, ws: Seq<(Seq<char>, Seq<char>)>) -> Result<
    Option<(Seq<char>, Seq<char>)>,
    (Seq<char>, Seq<char>),
> {
    let id = trim(saved);
    if ws.len() == 0 {
        Ok(None)
    } else if id.len() == 0 {
        Ok(Some(ws[0]))
    } else if first_with_id(ws, id) < ws.len() {
        Ok(Some(ws[first_with_id(ws, id)]))
    } else {
        Err(("api_key"@, msg_workspace_unreachable()))
    }
}

pub fn resolve_api_key_workspace(server: &ServerConfig, accessible: &Vec<(String, String)>) -> (res: Result<
    Option<(String, String)>,
    (String, String),
>)
    ensures
        match (res, spec_resolve_workspace(server@.workspace_id, pairs_view(accessible@))) {
            (Ok(None), Ok(None)) => true,
            (Ok(Some((i, n))), Ok(Some((vi, vn)))) => i@ == vi && n@ == vn,
            (Err((f, m)), Err((vf, vm))) => f@ == vf && m@ == vm,
            _ => false,
        },
{
    let ghost wv = pairs_view(accessible@);
    if accessible.len() == 0 {
        return Ok(None);
    }
    let id = trim_str(server.workspace_id.as_str());
    if id.as_str().is_empty() {
        assert(wv[0] == (accessible@[0].0@, accessible@[0].1@));
        return Ok(Some((accessible[0].0.clone(), accessible[0].1.clone())));
    }
    let mut i: usize = 0;
    while i < accessible.len()
        invariant
            i <= accessible@.len(),
            wv == pairs_view(accessible@),
            id@ == trim(server@.workspace_id),
            id@.len() > 0,
            accessible@.len() > 0,
            forall|k: int| 0 <= k < i ==> (#[trigger] wv[k]).0 != id@,
        decreases accessible@.len() - i,
    {
        assert(wv[i as int] == (accessible@[i as int].0@, accessible@[i as int].1@));
        if str_eq(accessible[i].0.as_str(), id.as_str()) {
            proof {
                lemma_first_with_id(wv, id@, i as int);
            }
            return Ok(Some((accessible[i].0.clone(), accessible[i].1.clone())));
        }
        i = i + 1;
    }
    proof {
        lemma_first_with_id(wv, id@, i as int);
    }
    Err(
        (
            owned("api_key"),
            owned(
                "This API key does not have access to the saved workspace. Update the API key or choose a workspace it can access.",
            ),
        ),
    )
}

// ---------------------------------------------------------------------------
// Connection checks
// ---------------------------------------------------------------------------
pub open spec fn msg_connected(name: Seq<char>) -> Seq<char> {
    "Connected to "@ + name + "."@
}

/// The answer of a connection test when the settings are incomplete.
pub fn not_configured_test_response() -> (res: ConnectionTestResponse)
    ensures
        !res.ok,
        res.state == ConnectionState::NotConfigured,
        res.message@ == "Enter the HydroServer URL and a valid set of credentials."@,
        res.instance_name is None && res.workspace_id is None && res.workspace_name is None,
        res.workspace_count == 0 && res.datastream_count == 0 && !res.permissions_ok,
{
    ConnectionTestResponse {
        ok: false,
        state: ConnectionState::NotConfigured,
        message: owned("Enter the HydroServer URL and a valid set of credentials."),
        instance_name: None,
        workspace_id: None,
        workspace_name: None,
        workspace_count: 0,
        datastream_count: 0,
        permissions_ok: false,
    }
}

fn failed_test_response(message: &str, instance: Option<String>, workspace_count: u32) -> (res: ConnectionTestResponse)
    ensures
        !res.ok,
        res.state == ConnectionState::Error,
        res.message@ == message@,
        res.instance_name == instance,
        res.workspace_id is None && res.workspace_name is None,
        res.workspace_count == workspace_count && res.datastream_count == 0 && !res.permissions_ok,
{
    ConnectionTestResponse {
        ok: false,
        state: ConnectionState::Error,
        message: owned(message),
        instance_name: instance,
        workspace_id: None,
        workspace_name: None,
        workspace_count,
        datastream_count: 0,
        permissions_ok: false,
    }
}

/// The workspace a connection test settles on among the workspaces the
/// credentials reach: with an API key, the saved workspace (see
/// `spec_resolve_workspace`); with a user sign-in, the first one.
pub open spec fn tested_workspace(server: crate::models::ServerConfigView, ws: Seq<(Seq<char>, Seq<char>)>) -> Result<
    Option<(Seq<char>, Seq<char>)>,
    (Seq<char>, Seq<char>),
> {
    if server.auth_type == AuthType::Apikey {
        spec_resolve_workspace(server.workspace_id, ws)
    } else if ws.len() == 0 {
        Ok(None)
    } else {
        Ok(Some(ws[0]))
    }
}

/// A workspace name, or none when it is empty.
pub open spec fn name_if_any(name: Seq<char>) -> Option<Seq<char>> {
    if name.len() > 0 {
        Some(name)
    } else {
        None
    }
}

/// The answer of a connection test from what the workspace request gave:
/// the workspaces the credentials reach (id and name, in order) and the
/// workspace count, or the request's error. An API key keeps the saved
/// workspace when it still reaches it and is refused when it does not.
pub fn connection_test_response(
    server: &ServerConfig,
    outcome: Result<(Vec<(String, String)>, u32), RequestError>,
) -> (res: ConnectionTestResponse)
    ensures
        match outcome {
            Ok((ws, count)) => match tested_workspace(server@, pairs_view(ws@)) {
                Ok(Some((id, name))) => {
                    &&& res.ok && res.state == ConnectionState::Connected && res.permissions_ok
                    &&& res.message@ == msg_connected(spec_instance_name(server@.url))
                    &&& res.instance_name matches Some(n) && n@ == spec_instance_name(server@.url)
                    &&& res.workspace_id matches Some(w) && w@ == id
                    &&& crate::models::opt_view(res.workspace_name) == name_if_any(name)
                    &&& res.workspace_count == count && res.datastream_count == 0
                },
                Ok(None) => {
                    &&& !res.ok && res.state == ConnectionState::Error && !res.permissions_ok
                    &&& res.message@
                        == "That API key is invalid or is not attached to any accessible workspace. Check the API key permissions and try again."@
                    &&& res.instance_name matches Some(n) && n@ == spec_instance_name(server@.url)
                    &&& res.workspace_id is None && res.workspace_name is None
                    &&& res.workspace_count == count && res.datastream_count == 0
                },
                Err((_, m)) => {
                    &&& !res.ok && res.state == ConnectionState::Error && !res.permissions_ok
                    &&& res.message@ == m
                    &&& res.instance_name matches Some(n) && n@ == spec_instance_name(server@.url)
                    &&& res.workspace_id is None && res.workspace_name is None
                    &&& res.workspace_count == count && res.datastream_count == 0
                },
            },
            Err(e) => {
                &&& !res.ok && res.state == ConnectionState::Error && !res.permissions_ok
                &&& res.instance_name is None && res.workspace_id is None
                &&& res.workspace_count == 0
                &&& res.message@ == match e {
                    RequestError::Connection | RequestError::Timeout =>
                        "Couldn't reach HydroServer. Check the server URL and try again."@,
                    RequestError::Http { status: Some(s), .. } => if s == 401 || s == 403 {
                        "These credentials are invalid or do not have the permissions the loader needs. Make sure they can access workspaces, datastreams, and orchestration systems."@
                    } else {
                        "HydroServer returned an error while testing the connection. Try again in a moment."@
                    },
                    RequestError::Http { status: None, .. } =>
                        "HydroServer returned an error while testing the connection. Try again in a moment."@,
                    RequestError::Other(_) => "Couldn't complete the HydroServer connection test."@,
                }
            },
        },
{
    let (ws, workspace_count) = match outcome {
        Ok(found) => found,
        Err(e) => return failed_request_response(e),
    };
    let resolved = if server.auth_type == AuthType::Apikey {
        resolve_api_key_workspace(server, &ws)
    } else if ws.len() == 0 {
        Ok(None)
    } else {
        assert(pairs_view(ws@)[0] == (ws@[0].0@, ws@[0].1@));
        Ok(Some((ws[0].0.clone(), ws[0].1.clone())))
    };
    match resolved {
        Ok(Some((workspace_id, workspace_name))) => {
            let name = instance_name(server.url.as_str());
            let mut message = String::new();
            append_str(&mut message, "Connected to ");
            append_str(&mut message, name.as_str());
            append_str(&mut message, ".");
            assert(message@ =~= msg_connected(spec_instance_name(server@.url)));
            ConnectionTestResponse {
                ok: true,
                state: ConnectionState::Connected,
                message,
                instance_name: Some(name),
                workspace_id: Some(workspace_id),
                workspace_name: if workspace_name.as_str().is_empty() {
                    None
                } else {
                    Some(workspace_name)
                },
                workspace_count,
                datastream_count: 0,
                permissions_ok: true,
            }
        },
        Ok(None) => failed_test_response(
            "That API key is invalid or is not attached to any accessible workspace. Check the API key permissions and try again.",
            Some(instance_name(server.url.as_str())),
            workspace_count,
        ),
        Err((_, message)) => failed_test_response(
            message.as_str(),
            Some(instance_name(server.url.as_str())),
            workspace_count,
        ),
    }
}

/// The answer of a connection test whose request failed.
fn failed_request_response(e: RequestError) -> (res: ConnectionTestResponse)
    ensures
        !res.ok && res.state == ConnectionState::Error && !res.permissions_ok,
        res.instance_name is None && res.workspace_id is None,
        res.workspace_count == 0,
        res.message@ == match e {
            RequestError::Connection | RequestError::Timeout =>
                "Couldn't reach HydroServer. Check the server URL and try again."@,
            RequestError::Http { status: Some(s), .. } => if s == 401 || s == 403 {
                "These credentials are invalid or do not have the permissions the loader needs. Make sure they can access workspaces, datastreams, and orchestration systems."@
            } else {
                "HydroServer returned an error while testing the connection. Try again in a moment."@
            },
            RequestError::Http { status: None, .. } =>
                "HydroServer returned an error while testing the connection. Try again in a moment."@,
            RequestError::Other(_) => "Couldn't complete the HydroServer connection test."@,
        },
{
    match e {
        RequestError::Connection | RequestError::Timeout => failed_test_response(
            "Couldn't reach HydroServer. Check the server URL and try again.",
            None,
            0,
        ),
        RequestError::Http { status: Some(s), .. } => if s == 401 || s == 403 {
            failed_test_response(
                "These credentials are invalid or do not have the permissions the loader needs. Make sure they can access workspaces, datastreams, and orchestration systems.",
                None,
                0,
            )
        } else {
            failed_test_response(
                "HydroServer returned an error while testing the connection. Try again in a moment.",
                None,
                0,
            )
        },
        RequestError::Http { status: None, .. } => failed_test_response(
            "HydroServer returned an error while testing the connection. Try again in a moment.",
            None,
            0,
        ),
        RequestError::Other(_) => failed_test_response(
            "Couldn't complete the HydroServer connection test.",
            None,
            0,
        ),
    }
}

/// What probing a URL found.
#[derive(Clone, Copy, Debug, PartialEq, Eq, Structural)]
pub enum UrlProbe {
    /// One of the probes answered like HydroServer.
    Detected,
    /// The server answered, but not like HydroServer.
    NotHydroserver,
    /// The server could not be reached or timed out.
    Unreachable,
    /// The probe failed otherwise.
    Failed,
}

/// The two URLs probed to recognise a HydroServer: its session route and its
/// workspace collection.
pub fn validation_probe_urls(url: &str) -> (res: (String, String))
    ensures
        res.0@ == spec_normalize_url(url@) + "/api/auth/app/session"@,
        res.1@ == spec_normalize_url(url@) + "/api/data/workspaces"@,
{
    let base = normalize_url(url);
    let mut auth = String::new();
    append_str(&mut auth, base.as_str());
    append_str(&mut auth, "/api/auth/app/session");
    let mut data = String::new();
    append_str(&mut data, base.as_str());
    append_str(&mut data, "/api/data/workspaces");
    (auth, data)
}

/// The answer of a URL check: blank URLs are refused before any probe, and
/// otherwise the probe decides.
pub fn url_validation_response(url: &str, probe: UrlProbe) -> (res: ServerUrlValidationResponse)
    ensures
        spec_normalize_url(url@).len() == 0 ==> !res.ok && res.message@ == "Enter the HydroServer URL."@
            && res.instance_name is None,
        spec_normalize_url(url@).len() > 0 ==> match probe {
            UrlProbe::Detected => {
                &&& res.ok
                &&& res.instance_name matches Some(n) && n@ == spec_instance_name(spec_normalize_url(url@))
                &&& res.message@ == "HydroServer API detected at "@ + spec_instance_name(
                    spec_normalize_url(url@),
                ) + "."@
            },
            UrlProbe::NotHydroserver => !res.ok && res.instance_name is None && res.message@
                == "That URL responded, but it doesn't look like a HydroServer instance exposing the expected API."@,
            UrlProbe::Unreachable => !res.ok && res.instance_name is None && res.message@
                == "Couldn't reach that URL. Check the server URL and try again."@,
            UrlProbe::Failed => !res.ok && res.instance_name is None && res.message@
                == "Couldn't validate that HydroServer URL right now."@,
        },
{
    let normalized = normalize_url(url);
    if normalized.as_str().is_empty() {
        return ServerUrlValidationResponse {
            ok: false,
            message: owned("Enter the HydroServer URL."),
            instance_name: None,
        };
    }
    match probe {
        UrlProbe::Detected => {
            let name = instance_name(normalized.as_str());
            let mut message = String::new();
            append_str(&mut message, "HydroServer API detected at ");
            append_str(&mut message, name.as_str());
            append_str(&mut message, ".");
            ServerUrlValidationResponse { ok: true, message, instance_name: Some(name) }
        },
        UrlProbe::NotHydroserver => ServerUrlValidationResponse {
            ok: false,
            message: owned(
                "That URL responded, but it doesn't look like a HydroServer instance exposing the expected API.",
            ),
            instance_name: None,
        },
        UrlProbe::Unreachable => ServerUrlValidationResponse {
            ok: false,
            message: owned("Couldn't reach that URL. Check the server URL and try again."),
            instance_name: None,
        },
        UrlProbe::Failed => ServerUrlValidationResponse {
            ok: false,
            message: owned("Couldn't validate that HydroServer URL right now."),
            instance_name: None,
        },
    }
}

// ---------------------------------------------------------------------------
// Session tokens
// ---------------------------------------------------------------------------
/// The key a session token is kept under: the normalized server URL and the
/// trimmed user name.
pub open spec fn spec_token_cache_key(url: Seq<char>, username: Seq<char>) -> Seq<char> {
    spec_normalize_url(url) + "|"@ + trim(username)
}

pub fn token_cache_key(server: &ServerConfig) -> (res: String)
    ensures
        res@ == spec_token_cache_key(server@.url, server@.username),
{
    let mut out = String::new();
    let url = normalize_url(server.url.as_str());
    append_str(&mut out, url.as_str());
    append_str(&mut out, "|");
    let user = trim_str(server.username.as_str());
    append_str(&mut out, user.as_str());
    assert(out@ =~= spec_token_cache_key(server@.url, server@.username));
    out
}

/// Session tokens shared by the sessions of each account.
pub struct TokenCache {
    entries: Vec<(String, String)>,
}

impl View for TokenCache {
    type V = Map<Seq<char>, Seq<char>>;

    closed spec fn view(&self) -> Map<Seq<char>, Seq<char>> {
        Map::new(
            |k: Seq<char>| first_with_id(pairs_view(self.entries@), k) < self.entries@.len(),
            |k: Seq<char>| pairs_view(self.entries@)[first_with_id(pairs_view(self.entries@), k)].1,
        )
    }
}

/// No key is kept twice.
pub open spec fn keys_unique(ws: Seq<(Seq<char>, Seq<char>)>) -> bool {
    forall|i: int, j: int| 0 <= i < j < ws.len() ==> (#[trigger] ws[i]).0 != (#[trigger] ws[j]).0
}

impl TokenCache {
    #[verifier::type_invariant]
    spec fn keys_are_unique(self) -> bool {
        keys_unique(pairs_view(self.entries@))
    }

    pub fn new() -> (res: TokenCache)
        ensures
            res@ == Map::<Seq<char>, Seq<char>>::empty(),
    {
        let res = TokenCache { entries: Vec::new() };
        assert(res@ =~= Map::<Seq<char>, Seq<char>>::empty());
        res
    }

    fn position(&self, key: &str) -> (res: usize)
        ensures
            res == first_with_id(pairs_view(self.entries@), key@),
            res <= self.entries@.len(),
    {
        let ghost wv = pairs_view(self.entries@);
        let mut i: usize = 0;
        while i < self.entries.len()
            invariant
                i <= self.entries@.len(),
                wv == pairs_view(self.entries@),
                forall|k: int| 0 <= k < i ==> (#[trigger] wv[k]).0 != key@,
            decreases self.entries@.len() - i,
        {
            assert(wv[i as int] == (self.entries@[i as int].0@, self.entries@[i as int].1@));
            if str_eq(self.entries[i].0.as_str(), key) {
                proof {
                    lemma_first_with_id(wv, key@, i as int);
                }
                return i;
            }
            i = i + 1;
        }
        proof {
            lemma_first_with_id(wv, key@, i as int);
        }
        i
    }

    /// The token kept for `key`.
    pub fn get(&self, key: &str) -> (res: Option<String>)
        ensures
            match res {
                Some(t) => self@.contains_key(key@) && self@[key@] == t@,
                None => !self@.contains_key(key@),
            },
    {
        let i = self.position(key);
        if i < self.entries.len() {
            assert(pairs_view(self.entries@)[i as int] == (self.entries@[i as int].0@, self.entries@[i as int].1@));
            Some(self.entries[i].1.clone())
        } else {
            None
        }
    }

    /// Keeps `token` for `key`, replacing any earlier one.
    pub fn store(&mut self, key: &str, token: &str)
        ensures
            final(self)@ == old(self)@.insert(key@, token@),
    {
        proof {
            use_type_invariant(&*self);
        }
        let ghost ov = pairs_view(self.entries@);
        let ghost before = self@;
        let i = self.position(key);
        proof {
            lemma_first_with_id_props(ov, key@);
        }
        let mut entries: Vec<(String, String)> = Vec::new();
        std::mem::swap(&mut entries, &mut self.entries);
        if i < entries.len() {
            let (k, _) = entries.remove(i);
            entries.insert(i, (k, owned(token)));
        } else {
            entries.push((owned(key), owned(token)));
        }
        let ghost nv = pairs_view(entries@);
        proof {
            if i < ov.len() {
                assert(nv =~= ov.update(i as int, (key@, token@)));
            } else {
                assert(nv =~= ov.push((key@, token@)));
            }
            assert(keys_unique(nv));
            assert forall|k: Seq<char>| #![all_triggers] true implies (first_with_id(nv, k) < nv.len()) == before.insert(key@, token@).contains_key(k) && (first_with_id(nv, k) < nv.len() ==> nv[first_with_id(nv, k)].1 == before.insert(key@, token@)[k]) by {
                lemma_first_with_id_props(ov, k);
                if k == key@ {
                    lemma_first_with_id(nv, k, i as int);
                } else if first_with_id(ov, k) < ov.len() {
                    lemma_first_with_id(nv, k, first_with_id(ov, k));
                } else {
                    lemma_first_with_id(nv, k, nv.len() as int);
                }
            }
        }
        self.entries = entries;
        proof {
            assert(self@ =~= before.insert(key@, token@));
        }
    }

    /// Forgets the token kept for `key`.
    pub fn invalidate(&mut self, key: &str)
        ensures
            final(self)@ == old(self)@.remove(key@),
    {
        proof {
            use_type_invariant(&*self);
        }
        let ghost ov = pairs_view(self.entries@);
        let ghost before = self@;
        let i = self.position(key);
        proof {
            lemma_first_with_id_props(ov, key@);
        }
        if i < self.entries.len() {
            let mut entries: Vec<(String, String)> = Vec::new();
            std::mem::swap(&mut entries, &mut self.entries);
            let _removed = entries.remove(i);
            let ghost nv = pairs_view(entries@);
            proof {
                assert(nv =~= ov.remove(i as int));
                assert(keys_unique(nv));
                assert forall|k: Seq<char>| #![all_triggers] true implies (first_with_id(nv, k) < nv.len()) == before.remove(key@).contains_key(k) && (first_with_id(nv, k) < nv.len() ==> nv[first_with_id(nv, k)].1 == before.remove(key@)[k]) by {
                    lemma_first_with_id_props(ov, k);
                    if k == key@ {
                        lemma_first_with_id(nv, k, nv.len() as int);
                    } else if first_with_id(ov, k) < ov.len() {
                        let j = first_with_id(ov, k);
                        if j < i {
                            lemma_first_with_id(nv, k, j);
                        } else {
                            lemma_first_with_id(nv, k, j - 1);
                        }
                    } else {
                        lemma_first_with_id(nv, k, nv.len() as int);
                    }
                }
            }
            self.entries = entries;
            proof {
                assert(self@ =~= before.remove(key@));
            }
        } else {
            proof {
                assert(before =~= before.remove(key@));
            }
        }
    }
}

proof fn lemma_first_with_id_props(ws: Seq<(Seq<char>, Seq<char>)>, id: Seq<char>)
    ensures
        0 <= first_with_id(ws, id) <= ws.len(),
        forall|i: int| 0 <= i < first_with_id(ws, id) ==> (#[trigger] ws[i]).0 != id,
        first_with_id(ws, id) < ws.len() ==> ws[first_with_id(ws, id)].0 == id,
    decreases ws.len(),
{
    if ws.len() > 0 && ws[0].0 != id {
        lemma_first_with_id_props(ws.drop_first(), id);
        assert forall|i: int| 0 <= i < first_with_id(ws, id) implies (#[trigger] ws[i]).0 != id by {
            if i > 0 {
                assert(ws[i] == ws.drop_first()[i - 1]);
            }
        }
    }
}

/// A token stored for an account is what every session then reads for that
/// account; the tokens of other accounts stay as they were; once invalidated,
/// no session reads a token for it.
pub proof fn lemma_token_cache_read_back(
    cache: Map<Seq<char>, Seq<char>>,
    key: Seq<char>,
    other: Seq<char>,
    token: Seq<char>,
)
    requires
        other != key,
    ensures
        cache.insert(key, token).contains_key(key) && cache.insert(key, token)[key] == token,
        cache.insert(key, token).contains_key(other) == cache.contains_key(other),
        cache.contains_key(other) ==> cache.insert(key, token)[other] == cache[other],
        !cache.remove(key).contains_key(key),
        cache.remove(key).contains_key(other) == cache.contains_key(other),
{
}

} // verus!
