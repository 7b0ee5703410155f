//! The daemon's local API: the bearer token that guards it, how requests are
//! authorized, and how reading its endpoint file can fail.
use vstd::prelude::*;

use crate::job_logs::append_str;
use crate::models::owned;
use crate::text::push_char;

verus! {

/// How many random bytes a token holds.
pub const TOKEN_BYTES: usize = 24;

/// Why the daemon's endpoint could not be read.
#[derive(Debug, PartialEq, Eq)]
pub enum ConnectionReadError {
    /// No endpoint file: the daemon has not started.
    MissingEndpoint,
    /// The file is being written or damaged; try again.
    Incomplete,
    /// Reading failed for good.
    Fatal(String),
}

/// How to reach a running daemon.
#[derive(Clone, Debug, PartialEq, Eq)]
pub struct DaemonConnectionInfo {
    pub base_url: String,
    pub token: String,
}

pub open spec fn msg_endpoint_unreadable(path: Seq<char>, error: Seq<char>) -> Seq<char> {
    "Couldn't read the daemon endpoint file at "@ + path + ": "@ + error
}

/// The error of an endpoint file that exists but cannot be read.
pub fn endpoint_read_failure(path: &str, error: &str) -> (res: ConnectionReadError)
    ensures
        res matches ConnectionReadError::Fatal(m) && m@ == msg_endpoint_unreadable(path@, error@),
{
    let mut m = String::new();
    append_str(&mut m, "Couldn't read the daemon endpoint file at ");
    append_str(&mut m, path);
    append_str(&mut m, ": ");
    append_str(&mut m, error);
    assert(m@ =~= msg_endpoint_unreadable(path@, error@));
    ConnectionReadError::Fatal(m)
}

/// `TryRng::try_fill_bytes` of `rand::rngs::SysRng` (the operating system's
/// random source) on a buffer of `len` bytes: the bytes when the source
/// delivered them, `None` when it failed. The contract claims only the
/// length; which bytes come is chance.
#[verifier::external_body]
fn random_bytes(len: usize) -> (res: Option<Vec<u8>>)
    ensures
        res matches Some(b) ==> b@.len() == len,
{
    let mut bytes = vec![0u8; len];
    match rand::TryRng::try_fill_bytes(&mut rand::rngs::SysRng, &mut bytes[..]) {
        Ok(()) => Some(bytes),
        Err(_) => None,
    }
}

pub open spec fn hex_digit(n: u8) -> char {
    if n < 10 {
        ((n + 48) as u32) as char
    } else {
        ((n + 87) as u32) as char
    }
}

/// Two lower-case hexadecimal digits per byte.
pub open spec fn hex(bytes: Seq<u8>) -> Seq<char>
    decreases bytes.len(),
{
    if bytes.len() == 0 {
        Seq::empty()
    } else {
        hex(bytes.drop_last()) + seq![hex_digit(bytes.last() / 16), hex_digit(bytes.last() % 16)]
    }
}

pub(crate) fn hex_char(n: u8) -> (res: char)
    requires
        n < 16,
    ensures
        res == hex_digit(n),
{
    if n < 10 {
        crate::text::char_from_ascii((n + 48) as u32)
    } else {
        crate::text::char_from_ascii((n + 87) as u32)
    }
}

pub fn token_hex(bytes: &[u8]) -> (res: String)
    ensures
        res@ == hex(bytes@),
{
    let mut out = String::new();
    for i in 0..bytes.len()
        invariant
            out@ == hex(bytes@.take(i as int)),
    {
        assert(bytes@.take(i + 1).drop_last() =~= bytes@.take(i as int));
        assert(bytes@.take(i + 1).last() == bytes@[i as int]);
        let b = bytes[i];
        push_char(&mut out, hex_char(b / 16));
        push_char(&mut out, hex_char(b % 16));
        assert(out@ =~= hex(bytes@.take(i + 1)));
    }
    assert(bytes@.take(bytes@.len() as int) =~= bytes@);
    out
}

/// A fresh token: `TOKEN_BYTES` random bytes from the operating system
/// written in hexadecimal; `None` when the random source fails.
pub fn generate_token() -> (res: Option<String>)
    ensures
        res matches Some(t) ==> t@.len() == 2 * TOKEN_BYTES && exists|bytes: Seq<u8>|
            bytes.len() == TOKEN_BYTES && t@ == hex(bytes),
{
    let bytes = match random_bytes(TOKEN_BYTES) {
        Some(b) => b,
        None => return None,
    };
    proof {
        lemma_hex_len(bytes@);
    }
    Some(token_hex(bytes.as_slice()))
}

proof fn lemma_hex_len(bytes: Seq<u8>)
    ensures
        hex(bytes).len() == 2 * bytes.len(),
    decreases bytes.len(),
{
    if bytes.len() > 0 {
        lemma_hex_len(bytes.drop_last());
    }
}

/// What the `Authorization` header of a request carried.
pub enum AuthorizationHeader {
    Missing,
    NotText,
    Value(String),
}

/// Whether a request may go on: `None` when it carries `Bearer <token>`,
/// else the status and message of the refusal.
pub fn authorize(header: &AuthorizationHeader, token: &str) -> (res: Option<(u16, String)>)
    ensures
        match header {
            AuthorizationHeader::Missing => res matches Some((s, m)) && s == 401 && m@
                == "Missing bearer token."@,
            AuthorizationHeader::NotText => res matches Some((s, m)) && s == 401 && m@
                == "Invalid bearer token."@,
            AuthorizationHeader::Value(v) => if v@ == "Bearer "@ + token@ {
                res is None
            } else {
                res matches Some((s, m)) && s == 401 && m@ == "Invalid bearer token."@
            },
        },
{
    match header {
        AuthorizationHeader::Missing => Some((401, owned("Missing bearer token."))),
        AuthorizationHeader::NotText => Some((401, owned("Invalid bearer token."))),
        AuthorizationHeader::Value(v) => {
            let mut expected = String::new();
            append_str(&mut expected, "Bearer ");
            append_str(&mut expected, token);
            if crate::text::str_eq(v.as_str(), expected.as_str()) {
                None
            } else {
                Some((401, owned("Invalid bearer token.")))
            }
        },
    }
}

// ---------------------------------------------------------------------------
// The endpoint file
// ---------------------------------------------------------------------------
/// What the daemon publishes in its endpoint file.
#[derive(Clone, Debug, PartialEq, Eq)]
pub struct PersistedDaemonEndpoint {
    pub base_url: String,
    pub token: String,
    pub pid: u32,
}

/// How reading the endpoint file went.
pub enum EndpointRead {
    /// There is no endpoint file.
    Missing,
    /// Reading it failed, with the error's message.
    Failed(String),
    /// It was read; what it holds when it parsed.
    Read(Option<PersistedDaemonEndpoint>),
}

/// How to reach the daemon from its endpoint file at `endpoint_path`: a file
/// that is missing or does not parse (it may be half written) is not an
/// error for good; one that cannot be read is.
pub fn read_connection_info(endpoint_path: &str, read: EndpointRead) -> (res: Result<DaemonConnectionInfo, ConnectionReadError>)
    ensures
        match read {
            EndpointRead::Missing => res == Err::<DaemonConnectionInfo, ConnectionReadError>(
                ConnectionReadError::MissingEndpoint,
            ),
            EndpointRead::Failed(e) => res matches Err(ConnectionReadError::Fatal(m)) && m@
                == msg_endpoint_unreadable(endpoint_path@, e@),
            EndpointRead::Read(None) => res == Err::<DaemonConnectionInfo, ConnectionReadError>(
                ConnectionReadError::Incomplete,
            ),
            EndpointRead::Read(Some(p)) => res matches Ok(c) && c.base_url@ == p.base_url@ && c.token@
                == p.token@,
        },
{
    match read {
        EndpointRead::Missing => Err(ConnectionReadError::MissingEndpoint),
        EndpointRead::Failed(e) => Err(endpoint_read_failure(endpoint_path, e.as_str())),
        EndpointRead::Read(None) => Err(ConnectionReadError::Incomplete),
        EndpointRead::Read(Some(p)) => Ok(DaemonConnectionInfo { base_url: p.base_url, token: p.token }),
    }
}

/// Whether an endpoint read before trying the daemon leaves the caller with
/// a daemon to ping (`Ok(Some)`), nothing yet (`Ok(None)`: missing or half
/// written), or an error.
pub fn connection_to_ping(read: Result<DaemonConnectionInfo, ConnectionReadError>) -> (res: Result<
    Option<DaemonConnectionInfo>,
    String,
>)
    ensures
        match read {
            Ok(c) => res == Ok::<Option<DaemonConnectionInfo>, String>(Some(c)),
            Err(ConnectionReadError::Fatal(m)) => res matches Err(e) && e@ == m@,
            Err(_) => res == Ok::<Option<DaemonConnectionInfo>, String>(None),
        },
{
    match read {
        Ok(c) => Ok(Some(c)),
        Err(ConnectionReadError::Fatal(m)) => Err(m),
        Err(_) => Ok(None),
    }
}

/// The endpoint file is removed on shutdown only while it still names this
/// daemon's token (another daemon may have replaced it).
pub fn endpoint_is_current(endpoint: Option<&PersistedDaemonEndpoint>, token: &str) -> (res: bool)
    ensures
        res == match endpoint {
            Some(p) => p.token@ == token@,
            None => false,
        },
{
    match endpoint {
        Some(p) => crate::text::str_eq(p.token.as_str(), token),
        None => false,
    }
}

/// The text of a listening address: `ip:port`, with an IPv6 address in
/// brackets.
pub fn socket_addr_text(ip: &str, is_v6: bool, port: u16) -> (res: String)
    ensures
        res@ == (if is_v6 {
            "["@ + ip@ + "]"@
        } else {
            ip@
        }) + ":"@ + crate::text::decimal_string(port as nat),
{
    let mut out = String::new();
    if is_v6 {
        append_str(&mut out, "[");
        append_str(&mut out, ip);
        append_str(&mut out, "]");
    } else {
        append_str(&mut out, ip);
    }
    append_str(&mut out, ":");
    let digits = crate::text::u64_to_decimal(port as u64);
    append_str(&mut out, digits.as_str());
    out
}

/// Whether the status stream may be opened: `None` when its `access_token`
/// is the daemon's token, else the refusal.
pub fn authorize_stream(access_token: &str, token: &str) -> (res: Option<(u16, String)>)
    ensures
        access_token@ == token@ ==> res is None,
        access_token@ != token@ ==> (res matches Some((s, m)) && s == 401 && m@ == "Invalid access token."@),
{
    if crate::text::str_eq(access_token, token) {
        None
    } else {
        Some((401, owned("Invalid access token.")))
    }
}

/// What a daemon listening on `ip`:`port` with `token` publishes in its
/// endpoint file.
pub fn published_endpoint(ip: &str, is_v6: bool, port: u16, token: &str, pid: u32) -> (res: PersistedDaemonEndpoint)
    ensures
        res.base_url@ == "http://"@ + (if is_v6 {
            "["@ + ip@ + "]"@
        } else {
            ip@
        }) + ":"@ + crate::text::decimal_string(port as nat),
        res.token@ == token@,
        res.pid == pid,
{
    let mut base_url = String::new();
    append_str(&mut base_url, "http://");
    let address = socket_addr_text(ip, is_v6, port);
    append_str(&mut base_url, address.as_str());
    assert(base_url@ =~= "http://"@ + address@);
    PersistedDaemonEndpoint { base_url, token: owned(token), pid }
}

} // verus!
