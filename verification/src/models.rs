//! The configuration model: server credentials, CSV file layout, timestamp
//! rules, column mappings and jobs, with the normalization each one goes
//! through before it is stored.
use vstd::prelude::*;

use crate::text::{chars_of, parse_unsigned, parse_unsigned_chars, push_char, is_blank, lemma_trim_ends, string_from, trim, trim_chars, trim_end_char, trim_start_char, trim_str};

verus! {

#[derive(Clone, Copy, Debug, PartialEq, Eq, Structural)]
pub enum AuthType {
    Apikey,
    Userpass,
}

#[derive(Clone, Copy, Debug, PartialEq, Eq, Structural)]
pub enum ConnectionState {
    NotConfigured,
    Configured,
    Connected,
    Error,
}

#[derive(Clone, Copy, Debug, PartialEq, Eq, Structural)]
pub enum LogLevel {
    Info,
    Warning,
    Error,
}

#[derive(Clone, Copy, Debug, PartialEq, Eq, Structural)]
pub enum JobStatus {
    Healthy,
    Warning,
    Error,
    Disabled,
    Pending,
    Running,
}

#[derive(Clone, Copy, Debug, PartialEq, Eq, Structural)]
pub enum TimestampFormatType {
    Iso8601,
    Naive,
    Custom,
}

#[derive(Clone, Copy, Debug, PartialEq, Eq, Structural)]
pub enum IdentifierType {
    Name,
    Index,
}

#[derive(Clone, Copy, Debug, PartialEq, Eq, Structural)]
pub enum TimezoneModeType {
    EmbeddedOffset,
    Utc,
    FixedOffset,
    DaylightSavings,
}

/// The view of an optional string.
pub open spec fn opt_view(o: Option<String>) -> Option<Seq<char>> {
    match o {
        Some(s) => Some(s@),
        None => None,
    }
}

/// A copy of an optional string.
pub fn clone_opt_string(o: &Option<String>) -> (r: Option<String>)
    ensures
        opt_view(r) == opt_view(*o),
{
    match o {
        Some(s) => Some(s.clone()),
        None => None,
    }
}

/// A string with the contents of `s`.
pub fn owned(s: &str) -> (r: String)
    ensures
        r@ == s@,
{
    String::from_str(s)
}

// ---------------------------------------------------------------------------
// Instants
// ---------------------------------------------------------------------------
/// An instant in UTC: whole seconds since the Unix epoch and the nanoseconds
/// past them (up to 1_999_999_999 during a leap second).
#[derive(Clone, Copy, Debug, PartialEq, Eq, Structural)]
pub struct UtcDateTime {
    pub secs: i64,
    pub nanos: u32,
}

/// `a` is no later than `b`.
pub open spec fn dt_le(a: UtcDateTime, b: UtcDateTime) -> bool {
    a.secs < b.secs || (a.secs == b.secs && a.nanos <= b.nanos)
}

/// `a` is strictly earlier than `b`.
pub open spec fn dt_lt(a: UtcDateTime, b: UtcDateTime) -> bool {
    dt_le(a, b) && a != b
}

pub fn dt_le_exec(a: UtcDateTime, b: UtcDateTime) -> (r: bool)
    ensures
        r == dt_le(a, b),
{
    a.secs < b.secs || (a.secs == b.secs && a.nanos <= b.nanos)
}

pub fn dt_lt_exec(a: UtcDateTime, b: UtcDateTime) -> (r: bool)
    ensures
        r == dt_lt(a, b),
{
    a.secs < b.secs || (a.secs == b.secs && a.nanos < b.nanos)
}

/// The later of two instants.
pub open spec fn dt_max(a: UtcDateTime, b: UtcDateTime) -> UtcDateTime {
    if dt_le(a, b) {
        b
    } else {
        a
    }
}

/// The earlier of two instants.
pub open spec fn dt_min(a: UtcDateTime, b: UtcDateTime) -> UtcDateTime {
    if dt_le(a, b) {
        a
    } else {
        b
    }
}

pub fn dt_max_exec(a: UtcDateTime, b: UtcDateTime) -> (r: UtcDateTime)
    ensures
        r == dt_max(a, b),
{
    if dt_le_exec(a, b) {
        b
    } else {
        a
    }
}

pub fn dt_min_exec(a: UtcDateTime, b: UtcDateTime) -> (r: UtcDateTime)
    ensures
        r == dt_min(a, b),
{
    if dt_le_exec(a, b) {
        a
    } else {
        b
    }
}

// ---------------------------------------------------------------------------
// URLs
// ---------------------------------------------------------------------------
/// A URL without surrounding whitespace and without trailing slashes.
pub open spec fn spec_normalize_url(url: Seq<char>) -> Seq<char> {
    trim_end_char(trim(url), '/')
}

proof fn lemma_trim_end_char_prefix(s: Seq<char>, c: char)
    ensures
        trim_end_char(s, c).len() <= s.len(),
        trim_end_char(s, c) == s.subrange(0, trim_end_char(s, c).len() as int),
        trim_end_char(s, c).len() > 0 ==> trim_end_char(s, c).last() != c,
        trim_end_char(trim_end_char(s, c), c) == trim_end_char(s, c),
    decreases s.len(),
{
    if s.len() > 0 && s.last() == c {
        lemma_trim_end_char_prefix(s.drop_last(), c);
        assert(s.drop_last().subrange(0, trim_end_char(s, c).len() as int) =~= s.subrange(
            0,
            trim_end_char(s, c).len() as int,
        ));
    } else {
        assert(s.subrange(0, s.len() as int) =~= s);
    }
}

/// A normalized URL does not end in `/` and is no longer than the URL.
pub proof fn lemma_normalize_url_no_trailing_slash(url: Seq<char>)
    ensures
        spec_normalize_url(url).len() > 0 ==> spec_normalize_url(url).last() != '/',
        spec_normalize_url(url).len() <= url.len(),
{
    lemma_trim_end_char_prefix(trim(url), '/');
    lemma_trim_ends(url);
}

/// Normalizing a normalized URL changes nothing, unless normalizing left
/// whitespace at its end (as for `"a /"`, which becomes `"a "`).
pub proof fn lemma_normalize_url_idempotent(url: Seq<char>)
    requires
        spec_normalize_url(url).len() == 0 || !crate::text::is_ws(spec_normalize_url(url).last()),
    ensures
        spec_normalize_url(spec_normalize_url(url)) == spec_normalize_url(url),
{
    let t = trim(url);
    let n = spec_normalize_url(url);
    lemma_trim_end_char_prefix(t, '/');
    lemma_trim_ends(url);
    if n.len() > 0 {
        assert(n[0] == t[0]);
    }
    assert(crate::text::trim_start(n) == n);
    assert(crate::text::trim_end(n) == n);
    assert(trim(n) == n);
}

/// `s` without trailing `c` characters.
pub fn trim_end_char_chars(s: &[char], c: char) -> (res: Vec<char>)
    ensures
        res@ == trim_end_char(s@, c),
{
    let mut end = s.len();
    assert(s@.subrange(0, end as int) =~= s@);
    while end > 0 && s[end - 1] == c
        invariant
            end <= s@.len(),
            trim_end_char(s@, c) == trim_end_char(s@.subrange(0, end as int), c),
        decreases end,
    {
        assert(s@.subrange(0, end as int).drop_last() =~= s@.subrange(0, end - 1));
        end = end - 1;
    }
    let mut out: Vec<char> = Vec::new();
    for i in 0..end
        invariant
            end <= s@.len(),
            out@ == s@.subrange(0, i as int),
    {
        out.push(s[i]);
        assert(s@.subrange(0, i + 1) =~= s@.subrange(0, i as int).push(s@[i as int]));
    }
    out
}

/// `s` without leading `c` characters.
pub fn trim_start_char_chars(s: &[char], c: char) -> (res: Vec<char>)
    ensures
        res@ == trim_start_char(s@, c),
{
    let n = s.len();
    let mut start: usize = 0;
    assert(s@.subrange(0, n as int) =~= s@);
    while start < n && s[start] == c
        invariant
            start <= n == s@.len(),
            trim_start_char(s@, c) == trim_start_char(s@.subrange(start as int, n as int), c),
        decreases n - start,
    {
        assert(s@.subrange(start as int, n as int).drop_first() =~= s@.subrange(
            start + 1,
            n as int,
        ));
        start = start + 1;
    }
    let mut out: Vec<char> = Vec::new();
    for i in start..n
        invariant
            n == s@.len(),
            start <= n,
            out@ == s@.subrange(start as int, i as int),
    {
        out.push(s[i]);
        assert(s@.subrange(start as int, i + 1) =~= s@.subrange(start as int, i as int).push(
            s@[i as int],
        ));
    }
    out
}

/// Trims a server URL and removes its trailing slashes.
pub fn normalize_url(url: &str) -> (res: String)
    ensures
        res@ == spec_normalize_url(url@),
{
    let chars = chars_of(url);
    let trimmed = trim_chars(chars.as_slice());
    let stripped = trim_end_char_chars(trimmed.as_slice(), '/');
    string_from(stripped.as_slice())
}

// ---------------------------------------------------------------------------
// Server configuration
// ---------------------------------------------------------------------------
#[derive(Debug, PartialEq, Eq)]
pub struct ServerConfig {
    pub auth_type: AuthType,
    pub url: String,
    pub api_key: String,
    pub username: String,
    pub password: String,
    pub workspace_id: String,
    pub workspace_name: String,
}

/// The value of a [`ServerConfig`].
pub struct ServerConfigView {
    pub auth_type: AuthType,
    pub url: Seq<char>,
    pub api_key: Seq<char>,
    pub username: Seq<char>,
    pub password: Seq<char>,
    pub workspace_id: Seq<char>,
    pub workspace_name: Seq<char>,
}

impl View for ServerConfig {
    type V = ServerConfigView;

    open spec fn view(&self) -> ServerConfigView {
        ServerConfigView {
            auth_type: self.auth_type,
            url: self.url@,
            api_key: self.api_key@,
            username: self.username@,
            password: self.password@,
            workspace_id: self.workspace_id@,
            workspace_name: self.workspace_name@,
        }
    }
}

impl Clone for ServerConfig {
    fn clone(&self) -> (res: Self)
        ensures
            res@ == self@,
    {
        ServerConfig {
            auth_type: self.auth_type,
            url: self.url.clone(),
            api_key: self.api_key.clone(),
            username: self.username.clone(),
            password: self.password.clone(),
            workspace_id: self.workspace_id.clone(),
            workspace_name: self.workspace_name.clone(),
        }
    }
}

impl ServerConfigView {
    /// Trimmed fields; only the credential of the chosen auth type is kept.
    pub open spec fn normalized(self) -> ServerConfigView {
        ServerConfigView {
            auth_type: self.auth_type,
            url: spec_normalize_url(self.url),
            api_key: if self.auth_type == AuthType::Apikey {
                trim(self.api_key)
            } else {
                Seq::empty()
            },
            username: if self.auth_type == AuthType::Userpass {
                trim(self.username)
            } else {
                Seq::empty()
            },
            password: if self.auth_type == AuthType::Userpass {
                trim(self.password)
            } else {
                Seq::empty()
            },
            workspace_id: trim(self.workspace_id),
            workspace_name: self.workspace_name,
        }
    }

    /// Whether a URL and the credentials of the chosen auth type are present.
    pub open spec fn is_configured(self) -> bool {
        &&& trim(self.url).len() > 0
        &&& match self.auth_type {
            AuthType::Apikey => trim(self.api_key).len() > 0,
            AuthType::Userpass => trim(self.username).len() > 0 && trim(self.password).len() > 0,
        }
    }

    /// What `validated_for_connection` gives.
    pub open spec fn validated(self) -> Result<ServerConfigView, Seq<char>> {
        let s = self.normalized();
        if s.url.len() == 0 {
            Err("Host URL is required."@)
        } else if s.auth_type == AuthType::Apikey && s.api_key.len() == 0 {
            Err("API key is required."@)
        } else if s.auth_type == AuthType::Userpass && (s.username.len() == 0 || s.password.len()
            == 0) {
            Err("Username and password are required."@)
        } else {
            Ok(s)
        }
    }
}

impl ServerConfig {
    /// An empty configuration using API-key authentication.
    pub fn empty() -> (res: ServerConfig)
        ensures
            res@.auth_type == AuthType::Apikey,
            res@.url.len() == 0,
            res@.api_key.len() == 0,
            res@.username.len() == 0,
            res@.password.len() == 0,
            res@.workspace_id.len() == 0,
            res@.workspace_name.len() == 0,
    {
        ServerConfig {
            auth_type: AuthType::Apikey,
            url: String::new(),
            api_key: String::new(),
            username: String::new(),
            password: String::new(),
            workspace_id: String::new(),
            workspace_name: String::new(),
        }
    }

    pub fn normalized(self) -> (res: ServerConfig)
        ensures
            res@ == self@.normalized(),
    {
        let url = normalize_url(self.url.as_str());
        let mut api_key = trim_str(self.api_key.as_str());
        let mut username = trim_str(self.username.as_str());
        let mut password = trim_str(self.password.as_str());
        let workspace_id = trim_str(self.workspace_id.as_str());
        match self.auth_type {
            AuthType::Apikey => {
                username = String::new();
                password = String::new();
            },
            AuthType::Userpass => {
                api_key = String::new();
            },
        }
        ServerConfig {
            auth_type: self.auth_type,
            url,
            api_key,
            username,
            password,
            workspace_id,
            workspace_name: self.workspace_name,
        }
    }

    pub fn validated_for_connection(self) -> (res: Result<ServerConfig, String>)
        ensures
            match (res, self@.validated()) {
                (Ok(s), Ok(v)) => s@ == v,
                (Err(e), Err(m)) => e@ == m,
                _ => false,
            },
    {
        let server = self.normalized();
        if server.url.as_str().is_empty() {
            return Err(owned("Host URL is required."));
        }
        match server.auth_type {
            AuthType::Apikey => {
                if server.api_key.as_str().is_empty() {
                    return Err(owned("API key is required."));
                }
            },
            AuthType::Userpass => {
                if server.username.as_str().is_empty() || server.password.as_str().is_empty() {
                    return Err(owned("Username and password are required."));
                }
            },
        }
        Ok(server)
    }

    pub fn is_configured(&self) -> (res: bool)
        ensures
            res == self@.is_configured(),
    {
        if is_blank(self.url.as_str()) {
            return false;
        }
        match self.auth_type {
            AuthType::Apikey => !is_blank(self.api_key.as_str()),
            AuthType::Userpass => !is_blank(self.username.as_str()) && !is_blank(
                self.password.as_str(),
            ),
        }
    }
}

// ---------------------------------------------------------------------------
// Timestamp configuration
// ---------------------------------------------------------------------------
#[derive(Debug, PartialEq, Eq)]
pub struct TimestampConfig {
    pub key: String,
    pub format: TimestampFormatType,
    pub custom_format: Option<String>,
    pub timezone_mode: TimezoneModeType,
    pub timezone: Option<String>,
}

/// The value of a [`TimestampConfig`].
pub struct TimestampConfigView {
    pub key: Seq<char>,
    pub format: TimestampFormatType,
    pub custom_format: Option<Seq<char>>,
    pub timezone_mode: TimezoneModeType,
    pub timezone: Option<Seq<char>>,
}

impl View for TimestampConfig {
    type V = TimestampConfigView;

    open spec fn view(&self) -> TimestampConfigView {
        TimestampConfigView {
            key: self.key@,
            format: self.format,
            custom_format: opt_view(self.custom_format),
            timezone_mode: self.timezone_mode,
            timezone: opt_view(self.timezone),
        }
    }
}

impl Clone for TimestampConfig {
    fn clone(&self) -> (res: Self)
        ensures
            res@ == self@,
    {
        TimestampConfig {
            key: self.key.clone(),
            format: self.format,
            custom_format: clone_opt_string(&self.custom_format),
            timezone_mode: self.timezone_mode,
            timezone: clone_opt_string(&self.timezone),
        }
    }
}

/// The timestamp column key used when none is configured.
pub open spec fn default_timestamp_key() -> Seq<char> {
    "timestamp"@
}

/// An optional string, trimmed, and dropped when nothing is left.
pub open spec fn trim_nonempty(o: Option<Seq<char>>) -> Option<Seq<char>> {
    match o {
        Some(v) => if trim(v).len() > 0 {
            Some(trim(v))
        } else {
            None
        },
        None => None,
    }
}

pub fn trim_nonempty_exec(o: Option<String>) -> (r: Option<String>)
    ensures
        opt_view(r) == trim_nonempty(opt_view(o)),
{
    match o {
        Some(v) => {
            let t = trim_str(v.as_str());
            if t.as_str().is_empty() {
                None
            } else {
                Some(t)
            }
        },
        None => None,
    }
}

pub open spec fn msg_custom_format_required() -> Seq<char> {
    "Custom timestamp formats require a customFormat value."@
}

pub open spec fn msg_timezone_required() -> Seq<char> {
    "Timezone is required when using fixedOffset or daylightSavings timestamp modes."@
}

impl TimestampConfigView {
    pub open spec fn normalized(self) -> Result<TimestampConfigView, Seq<char>> {
        let key = if trim(self.key).len() == 0 {
            default_timestamp_key()
        } else {
            trim(self.key)
        };
        let custom = trim_nonempty(self.custom_format);
        let tz = trim_nonempty(self.timezone);
        if self.format == TimestampFormatType::Custom && custom is None {
            Err(msg_custom_format_required())
        } else if self.format == TimestampFormatType::Iso8601 {
            Ok(
                TimestampConfigView {
                    key,
                    format: self.format,
                    custom_format: None,
                    timezone_mode: TimezoneModeType::EmbeddedOffset,
                    timezone: None,
                },
            )
        } else {
            let mode = if self.timezone_mode == TimezoneModeType::EmbeddedOffset {
                TimezoneModeType::Utc
            } else {
                self.timezone_mode
            };
            let custom = if self.format == TimestampFormatType::Custom {
                custom
            } else {
                None
            };
            if mode == TimezoneModeType::Utc {
                Ok(
                    TimestampConfigView {
                        key,
                        format: self.format,
                        custom_format: custom,
                        timezone_mode: mode,
                        timezone: None,
                    },
                )
            } else if tz is None {
                Err(msg_timezone_required())
            } else {
                Ok(
                    TimestampConfigView {
                        key,
                        format: self.format,
                        custom_format: custom,
                        timezone_mode: mode,
                        timezone: tz,
                    },
                )
            }
        }
    }
}

/// The timestamp rules used when none are configured.
pub open spec fn default_timestamp_config() -> TimestampConfigView {
    TimestampConfigView {
        key: default_timestamp_key(),
        format: TimestampFormatType::Iso8601,
        custom_format: None,
        timezone_mode: TimezoneModeType::EmbeddedOffset,
        timezone: None,
    }
}

impl TimestampConfig {
    /// ISO 8601 timestamps with embedded offsets in the `timestamp` column.
    pub fn default_config() -> (res: TimestampConfig)
        ensures
            res@ == default_timestamp_config(),
    {
        TimestampConfig {
            key: owned("timestamp"),
            format: TimestampFormatType::Iso8601,
            custom_format: None,
            timezone_mode: TimezoneModeType::EmbeddedOffset,
            timezone: None,
        }
    }

    pub fn normalized(self) -> (res: Result<TimestampConfig, String>)
        ensures
            match (res, self@.normalized()) {
                (Ok(t), Ok(v)) => t@ == v,
                (Err(e), Err(m)) => e@ == m,
                _ => false,
            },
    {
        let trimmed_key = trim_str(self.key.as_str());
        let key = if trimmed_key.as_str().is_empty() {
            owned("timestamp")
        } else {
            trimmed_key
        };
        let custom = trim_nonempty_exec(self.custom_format);
        let tz = trim_nonempty_exec(self.timezone);
        let custom = match self.format {
            TimestampFormatType::Custom => {
                if custom.is_none() {
                    return Err(owned("Custom timestamp formats require a customFormat value."));
                }
                custom
            },
            _ => None,
        };
        if self.format == TimestampFormatType::Iso8601 {
            return Ok(
                TimestampConfig {
                    key,
                    format: self.format,
                    custom_format: None,
                    timezone_mode: TimezoneModeType::EmbeddedOffset,
                    timezone: None,
                },
            );
        }
        let mode = if self.timezone_mode == TimezoneModeType::EmbeddedOffset {
            TimezoneModeType::Utc
        } else {
            self.timezone_mode
        };
        if mode == TimezoneModeType::Utc {
            return Ok(
                TimestampConfig {
                    key,
                    format: self.format,
                    custom_format: custom,
                    timezone_mode: mode,
                    timezone: None,
                },
            );
        }
        if tz.is_none() {
            return Err(
                owned(
                    "Timezone is required when using fixedOffset or daylightSavings timestamp modes.",
                ),
            );
        }
        Ok(
            TimestampConfig {
                key,
                format: self.format,
                custom_format: custom,
                timezone_mode: mode,
                timezone: tz,
            },
        )
    }
}

// ---------------------------------------------------------------------------
// File configuration
// ---------------------------------------------------------------------------
#[derive(Debug, PartialEq, Eq)]
pub struct FileConfig {
    pub header_row: Option<u32>,
    pub data_start_row: u32,
    pub delimiter: String,
    pub identifier_type: IdentifierType,
    pub timestamp: TimestampConfig,
}

/// The value of a [`FileConfig`].
pub struct FileConfigView {
    pub header_row: Option<u32>,
    pub data_start_row: u32,
    pub delimiter: Seq<char>,
    pub identifier_type: IdentifierType,
    pub timestamp: TimestampConfigView,
}

impl View for FileConfig {
    type V = FileConfigView;

    open spec fn view(&self) -> FileConfigView {
        FileConfigView {
            header_row: self.header_row,
            data_start_row: self.data_start_row,
            delimiter: self.delimiter@,
            identifier_type: self.identifier_type,
            timestamp: self.timestamp@,
        }
    }
}

impl Clone for FileConfig {
    fn clone(&self) -> (res: Self)
        ensures
            res@ == self@,
    {
        FileConfig {
            header_row: self.header_row,
            data_start_row: self.data_start_row,
            delimiter: self.delimiter.clone(),
            identifier_type: self.identifier_type,
            timestamp: self.timestamp.clone(),
        }
    }
}

/// The delimiters a CSV source may use: `,`, `;`, tab, `|` and space.
pub open spec fn is_allowed_delimiter(d: Seq<char>) -> bool {
    d.len() == 1 && (d[0] == ',' || d[0] == ';' || d[0] == '\t' || d[0] == '|' || d[0] == ' ')
}

pub open spec fn msg_bad_delimiter() -> Seq<char> {
    "Delimiter must be one of ',', ';', tab, '|', or space."@
}

pub open spec fn msg_bad_timestamp_index() -> Seq<char> {
    "timestamp.key must be a positive integer when using index-based CSV identifiers."@
}

pub open spec fn msg_header_row_required() -> Seq<char> {
    "headerRow is required when using name-based column identifiers."@
}

pub open spec fn msg_data_start_after_header() -> Seq<char> {
    "dataStartRow must be greater than headerRow when a header row is configured."@
}

impl FileConfigView {
    pub open spec fn normalized(self) -> Result<FileConfigView, Seq<char>> {
        let delimiter = if self.delimiter.len() == 0 {
            seq![',']
        } else {
            self.delimiter
        };
        match self.timestamp.normalized() {
            Err(e) => Err(e),
            Ok(ts) => if !is_allowed_delimiter(delimiter) {
                Err(msg_bad_delimiter())
            } else {
                let header_row = if self.identifier_type == IdentifierType::Index {
                    None
                } else {
                    self.header_row
                };
                if self.identifier_type == IdentifierType::Index && (parse_unsigned(
                    ts.key,
                    u32::MAX as int,
                ) is None || parse_unsigned(ts.key, u32::MAX as int) == Some(0nat)) {
                    Err(msg_bad_timestamp_index())
                } else if self.identifier_type == IdentifierType::Name && self.header_row is None {
                    Err(msg_header_row_required())
                } else if header_row is Some && self.data_start_row <= header_row->0 {
                    Err(msg_data_start_after_header())
                } else {
                    Ok(
                        FileConfigView {
                            header_row,
                            data_start_row: self.data_start_row,
                            delimiter,
                            identifier_type: self.identifier_type,
                            timestamp: ts,
                        },
                    )
                }
            },
        }
    }
}

/// Each of the five delimiters is accepted as well as any other: a file
/// configuration that normalizes with a comma normalizes just the same with
/// `;`, tab, `|` or space, and keeps the delimiter it was given; with named
/// columns, a header row before the data and valid timestamp settings, it
/// normalizes.
pub proof fn lemma_each_allowed_delimiter_accepted(f: FileConfigView, c: char)
    requires
        c == ',' || c == ';' || c == '\t' || c == '|' || c == ' ',
    ensures
        ({
            let with_comma = FileConfigView { delimiter: seq![','], ..f };
            let with_c = FileConfigView { delimiter: seq![c], ..f };
            &&& with_c.normalized() is Ok <==> with_comma.normalized() is Ok
            &&& with_c.normalized() matches Ok(n) ==> n.delimiter == seq![c]
                && n == FileConfigView { delimiter: seq![c], ..with_comma.normalized()->Ok_0 }
            &&& (f.timestamp.normalized() is Ok && f.identifier_type == IdentifierType::Name
                && f.header_row is Some && f.data_start_row > f.header_row->0) ==> with_c.normalized() is Ok
        }),
{
}

/// Any other delimiter, or one of more than one character, is refused.
pub proof fn lemma_other_delimiter_refused(f: FileConfigView)
    requires
        f.delimiter.len() > 1 || (f.delimiter.len() == 1 && f.delimiter[0] != ',' && f.delimiter[0] != ';'
            && f.delimiter[0] != '\t' && f.delimiter[0] != '|' && f.delimiter[0] != ' '),
    ensures
        f.normalized() is Err,
{
}

/// Whether `s` is exactly one of the allowed delimiters.
pub fn allowed_delimiter(s: &str) -> (b: bool)
    ensures
        b == is_allowed_delimiter(s@),
{
    let c = chars_of(s);
    c.len() == 1 && (c[0] == ',' || c[0] == ';' || c[0] == '\t' || c[0] == '|' || c[0] == ' ')
}

impl FileConfig {
    /// Header on row 1, data from row 2, comma-delimited, name-based columns.
    pub fn default_config() -> (res: FileConfig)
        ensures
            res@.header_row == Some(1u32),
            res@.data_start_row == 2,
            res@.delimiter == seq![','],
            res@.identifier_type == IdentifierType::Name,
            res@.timestamp == default_timestamp_config(),
    {
        let d = comma();
        let ts = TimestampConfig::default_config();
        FileConfig {
            header_row: Some(1),
            data_start_row: 2,
            delimiter: d,
            identifier_type: IdentifierType::Name,
            timestamp: ts,
        }
    }

    pub fn normalized(self) -> (res: Result<FileConfig, String>)
        ensures
            match (res, self@.normalized()) {
                (Ok(f), Ok(v)) => f@ == v,
                (Err(e), Err(m)) => e@ == m,
                _ => false,
            },
    {
        let delimiter = if self.delimiter.as_str().is_empty() {
            comma()
        } else {
            self.delimiter
        };
        let timestamp = match self.timestamp.normalized() {
            Ok(t) => t,
            Err(e) => return Err(e),
        };
        if !allowed_delimiter(delimiter.as_str()) {
            return Err(owned("Delimiter must be one of ',', ';', tab, '|', or space."));
        }
        let mut header_row = self.header_row;
        match self.identifier_type {
            IdentifierType::Index => {
                header_row = None;
                let key_chars = chars_of(timestamp.key.as_str());
                match parse_unsigned_chars(key_chars.as_slice(), 0xffff_ffff) {
                    None => {
                        return Err(
                            owned(
                                "timestamp.key must be a positive integer when using index-based CSV identifiers.",
                            ),
                        );
                    },
                    Some(v) => {
                        if v == 0 {
                            return Err(
                                owned(
                                    "timestamp.key must be a positive integer when using index-based CSV identifiers.",
                                ),
                            );
                        }
                    },
                }
            },
            IdentifierType::Name => {
                if header_row.is_none() {
                    return Err(
                        owned("headerRow is required when using name-based column identifiers."),
                    );
                }
            },
        }
        if let Some(h) = header_row {
            if self.data_start_row <= h {
                return Err(
                    owned(
                        "dataStartRow must be greater than headerRow when a header row is configured.",
                    ),
                );
            }
        }
        Ok(
            FileConfig {
                header_row,
                data_start_row: self.data_start_row,
                delimiter,
                identifier_type: self.identifier_type,
                timestamp,
            },
        )
    }
}

/// The one-character string `","`.
pub fn comma() -> (r: String)
    ensures
        r@ == seq![','],
{
    let mut s = String::new();
    push_char(&mut s, ',');
    s
}

// ---------------------------------------------------------------------------
// Column mappings and jobs
// ---------------------------------------------------------------------------
#[derive(Debug, PartialEq, Eq)]
pub struct ColumnMapping {
    pub csv_column: String,
    pub datastream_id: String,
    pub datastream_name: String,
}

/// The value of a [`ColumnMapping`].
pub struct ColumnMappingView {
    pub csv_column: Seq<char>,
    pub datastream_id: Seq<char>,
    pub datastream_name: Seq<char>,
}

impl View for ColumnMapping {
    type V = ColumnMappingView;

    open spec fn view(&self) -> ColumnMappingView {
        ColumnMappingView {
            csv_column: self.csv_column@,
            datastream_id: self.datastream_id@,
            datastream_name: self.datastream_name@,
        }
    }
}

impl Clone for ColumnMapping {
    fn clone(&self) -> (res: Self)
        ensures
            res@ == self@,
    {
        ColumnMapping {
            csv_column: self.csv_column.clone(),
            datastream_id: self.datastream_id.clone(),
            datastream_name: self.datastream_name.clone(),
        }
    }
}

pub open spec fn msg_mapping_fields_required() -> Seq<char> {
    "Column mappings require csv_column, datastream_id, and datastream_name."@
}

impl ColumnMappingView {
    pub open spec fn trimmed(self) -> ColumnMappingView {
        ColumnMappingView {
            csv_column: trim(self.csv_column),
            datastream_id: trim(self.datastream_id),
            datastream_name: trim(self.datastream_name),
        }
    }

    pub open spec fn is_complete(self) -> bool {
        trim(self.csv_column).len() > 0 && trim(self.datastream_id).len() > 0 && trim(
            self.datastream_name,
        ).len() > 0
    }

    pub open spec fn normalized(self) -> Result<ColumnMappingView, Seq<char>> {
        if self.is_complete() {
            Ok(self.trimmed())
        } else {
            Err(msg_mapping_fields_required())
        }
    }
}

impl ColumnMapping {
    pub fn normalized(self) -> (res: Result<ColumnMapping, String>)
        ensures
            match (res, self@.normalized()) {
                (Ok(m), Ok(v)) => m@ == v,
                (Err(e), Err(msg)) => e@ == msg,
                _ => false,
            },
    {
        let csv_column = trim_str(self.csv_column.as_str());
        let datastream_id = trim_str(self.datastream_id.as_str());
        let datastream_name = trim_str(self.datastream_name.as_str());
        if csv_column.as_str().is_empty() || datastream_id.as_str().is_empty()
            || datastream_name.as_str().is_empty() {
            return Err(
                owned("Column mappings require csv_column, datastream_id, and datastream_name."),
            );
        }
        Ok(ColumnMapping { csv_column, datastream_id, datastream_name })
    }
}

/// The views of a list of mappings.
pub open spec fn mappings_view(ms: Seq<ColumnMapping>) -> Seq<ColumnMappingView> {
    ms.map_values(|m: ColumnMapping| m@)
}

/// Every mapping normalized, or the mapping error when one is incomplete.
pub open spec fn normalize_mappings(ms: Seq<ColumnMappingView>) -> Result<
    Seq<ColumnMappingView>,
    Seq<char>,
> {
    if forall|k: int| 0 <= k < ms.len() ==> (#[trigger] ms[k]).is_complete() {
        Ok(ms.map_values(|m: ColumnMappingView| m.trimmed()))
    } else {
        Err(msg_mapping_fields_required())
    }
}

pub fn normalize_mapping_list(ms: Vec<ColumnMapping>) -> (res: Result<Vec<ColumnMapping>, String>)
    ensures
        match (res, normalize_mappings(mappings_view(ms@))) {
            (Ok(v), Ok(w)) => mappings_view(v@) == w,
            (Err(e), Err(m)) => e@ == m,
            _ => false,
        },
{
    let ghost input = mappings_view(ms@);
    let mut out: Vec<ColumnMapping> = Vec::new();
    let n = ms.len();
    // Walk the list front to back; the first incomplete mapping stops the walk.
    for idx in 0..n
        invariant
            n == ms@.len(),
            input == mappings_view(ms@),
            out@.len() == idx,
            forall|k: int| 0 <= k < idx ==> (#[trigger] input[k]).is_complete(),
            forall|k: int| 0 <= k < idx ==> (#[trigger] out@[k])@ == input[k].trimmed(),
    {
        let m = ms[idx].clone();
        assert(m@ == input[idx as int]);
        match m.normalized() {
            Ok(nm) => {
                out.push(nm);
            },
            Err(e) => {
                assert(!input[idx as int].is_complete());
                assert(normalize_mappings(input) is Err);
                return Err(e);
            },
        }
    }
    proof {
        assert(mappings_view(out@) =~= input.map_values(|m: ColumnMappingView| m.trimmed()));
    }
    Ok(out)
}

#[derive(Debug, PartialEq, Eq)]
pub struct JobUpsertRequest {
    pub name: String,
    pub enabled: bool,
    pub file_path: String,
    pub schedule_minutes: u32,
    pub file_config: FileConfig,
    pub column_mappings: Vec<ColumnMapping>,
}

/// The value of a job's settings, shared by [`JobUpsertRequest`] and [`JobConfig`].
pub struct JobSettingsView {
    pub name: Seq<char>,
    pub enabled: bool,
    pub file_path: Seq<char>,
    pub schedule_minutes: u32,
    pub file_config: FileConfigView,
    pub column_mappings: Seq<ColumnMappingView>,
}

impl View for JobUpsertRequest {
    type V = JobSettingsView;

    open spec fn view(&self) -> JobSettingsView {
        JobSettingsView {
            name: self.name@,
            enabled: self.enabled,
            file_path: self.file_path@,
            schedule_minutes: self.schedule_minutes,
            file_config: self.file_config@,
            column_mappings: mappings_view(self.column_mappings@),
        }
    }
}

pub open spec fn msg_job_name_required() -> Seq<char> {
    "Job name is required."@
}

pub open spec fn msg_file_path_required() -> Seq<char> {
    "File path is required."@
}

pub open spec fn msg_schedule_positive() -> Seq<char> {
    "schedule_minutes must be greater than 0."@
}

pub open spec fn msg_job_id_required() -> Seq<char> {
    "Job id is required."@
}

impl JobSettingsView {
    /// Trimmed name and path, normalized file settings and mappings, and the
    /// first rule that the settings break, if any.
    pub open spec fn normalized(self) -> Result<JobSettingsView, Seq<char>> {
        match self.file_config.normalized() {
            Err(e) => Err(e),
            Ok(fc) => match normalize_mappings(self.column_mappings) {
                Err(e) => Err(e),
                Ok(ms) => if trim(self.name).len() == 0 {
                    Err(msg_job_name_required())
                } else if trim(self.file_path).len() == 0 {
                    Err(msg_file_path_required())
                } else if self.schedule_minutes == 0 {
                    Err(msg_schedule_positive())
                } else {
                    Ok(
                        JobSettingsView {
                            name: trim(self.name),
                            enabled: self.enabled,
                            file_path: trim(self.file_path),
                            schedule_minutes: self.schedule_minutes,
                            file_config: fc,
                            column_mappings: ms,
                        },
                    )
                },
            },
        }
    }
}

impl JobUpsertRequest {
    pub fn normalized(self) -> (res: Result<JobUpsertRequest, String>)
        ensures
            match (res, self@.normalized()) {
                (Ok(r), Ok(v)) => r@ == v,
                (Err(e), Err(m)) => e@ == m,
                _ => false,
            },
    {
        let name = trim_str(self.name.as_str());
        let file_path = trim_str(self.file_path.as_str());
        let file_config = match self.file_config.normalized() {
            Ok(f) => f,
            Err(e) => return Err(e),
        };
        let column_mappings = match normalize_mapping_list(self.column_mappings) {
            Ok(m) => m,
            Err(e) => return Err(e),
        };
        if name.as_str().is_empty() {
            return Err(owned("Job name is required."));
        }
        if file_path.as_str().is_empty() {
            return Err(owned("File path is required."));
        }
        if self.schedule_minutes == 0 {
            return Err(owned("schedule_minutes must be greater than 0."));
        }
        Ok(
            JobUpsertRequest {
                name,
                enabled: self.enabled,
                file_path,
                schedule_minutes: self.schedule_minutes,
                file_config,
                column_mappings,
            },
        )
    }
}

#[derive(Debug, PartialEq, Eq)]
pub struct JobConfig {
    pub id: String,
    pub name: String,
    pub enabled: bool,
    pub file_path: String,
    pub schedule_minutes: u32,
    pub file_config: FileConfig,
    pub column_mappings: Vec<ColumnMapping>,
}

/// The value of a [`JobConfig`].
pub struct JobConfigView {
    pub id: Seq<char>,
    pub settings: JobSettingsView,
}

impl View for JobConfig {
    type V = JobConfigView;

    open spec fn view(&self) -> JobConfigView {
        JobConfigView {
            id: self.id@,
            settings: JobSettingsView {
                name: self.name@,
                enabled: self.enabled,
                file_path: self.file_path@,
                schedule_minutes: self.schedule_minutes,
                file_config: self.file_config@,
                column_mappings: mappings_view(self.column_mappings@),
            },
        }
    }
}

/// A copy of a list of mappings.
pub fn clone_mappings(ms: &Vec<ColumnMapping>) -> (res: Vec<ColumnMapping>)
    ensures
        mappings_view(res@) == mappings_view(ms@),
{
    let mut out: Vec<ColumnMapping> = Vec::new();
    for i in 0..ms.len()
        invariant
            out@.len() == i,
            i <= ms@.len(),
            forall|k: int| 0 <= k < i ==> (#[trigger] out@[k])@ == ms@[k]@,
    {
        out.push(ms[i].clone());
    }
    assert(mappings_view(out@) =~= mappings_view(ms@));
    out
}

impl Clone for JobConfig {
    fn clone(&self) -> (res: Self)
        ensures
            res@ == self@,
    {
        JobConfig {
            id: self.id.clone(),
            name: self.name.clone(),
            enabled: self.enabled,
            file_path: self.file_path.clone(),
            schedule_minutes: self.schedule_minutes,
            file_config: self.file_config.clone(),
            column_mappings: clone_mappings(&self.column_mappings),
        }
    }
}

impl JobConfigView {
    pub open spec fn normalized(self) -> Result<JobConfigView, Seq<char>> {
        if trim(self.id).len() == 0 {
            Err(msg_job_id_required())
        } else {
            match self.settings.normalized() {
                Ok(s) => Ok(JobConfigView { id: trim(self.id), settings: s }),
                Err(e) => Err(e),
            }
        }
    }
}

impl JobConfig {
    /// A job with the given id and the normalized settings of `request`.
    pub fn from_request(id: String, request: JobUpsertRequest) -> (res: Result<JobConfig, String>)
        ensures
            match (res, request@.normalized()) {
                (Ok(j), Ok(v)) => j@ == JobConfigView { id: id@, settings: v },
                (Err(e), Err(m)) => e@ == m,
                _ => false,
            },
    {
        let request = match request.normalized() {
            Ok(r) => r,
            Err(e) => return Err(e),
        };
        Ok(
            JobConfig {
                id,
                name: request.name,
                enabled: request.enabled,
                file_path: request.file_path,
                schedule_minutes: request.schedule_minutes,
                file_config: request.file_config,
                column_mappings: request.column_mappings,
            },
        )
    }

    pub fn normalized(self) -> (res: Result<JobConfig, String>)
        ensures
            match (res, self@.normalized()) {
                (Ok(j), Ok(v)) => j@ == v,
                (Err(e), Err(m)) => e@ == m,
                _ => false,
            },
    {
        let id = trim_str(self.id.as_str());
        if id.as_str().is_empty() {
            return Err(owned("Job id is required."));
        }
        let request = JobUpsertRequest {
            name: self.name,
            enabled: self.enabled,
            file_path: self.file_path,
            schedule_minutes: self.schedule_minutes,
            file_config: self.file_config,
            column_mappings: self.column_mappings,
        };
        JobConfig::from_request(id, request)
    }
}

// ---------------------------------------------------------------------------
// Normalizing twice
// ---------------------------------------------------------------------------
proof fn lemma_trim_nonempty_idempotent(o: Option<Seq<char>>)
    ensures
        trim_nonempty(trim_nonempty(o)) == trim_nonempty(o),
{
    if let Some(v) = o {
        crate::text::lemma_trim_idempotent(v);
    }
}

proof fn lemma_default_key_trimmed()
    ensures
        trim(default_timestamp_key()) == default_timestamp_key(),
        default_timestamp_key().len() > 0,
{
    reveal_strlit("timestamp");
    let k = default_timestamp_key();
    assert(k[0] == 't' && k.last() == 'p');
    assert(crate::text::trim_start(k) == k);
    assert(crate::text::trim_end(k) == k);
}

/// Timestamp rules that normalized once normalize to themselves.
pub proof fn lemma_timestamp_normalized_idempotent(t: TimestampConfigView)
    ensures
        t.normalized() matches Ok(w) ==> w.normalized() == Ok::<TimestampConfigView, Seq<char>>(w),
{
    crate::text::lemma_trim_idempotent(t.key);
    lemma_default_key_trimmed();
    lemma_trim_nonempty_idempotent(t.custom_format);
    lemma_trim_nonempty_idempotent(t.timezone);
}

/// File settings that normalized once normalize to themselves.
pub proof fn lemma_file_config_normalized_idempotent(f: FileConfigView)
    ensures
        f.normalized() matches Ok(w) ==> w.normalized() == Ok::<FileConfigView, Seq<char>>(w),
{
    lemma_timestamp_normalized_idempotent(f.timestamp);
}

/// Mappings that normalized once normalize to themselves.
pub proof fn lemma_mappings_normalized_idempotent(ms: Seq<ColumnMappingView>)
    ensures
        normalize_mappings(ms) matches Ok(w) ==> normalize_mappings(w) == Ok::<Seq<ColumnMappingView>, Seq<char>>(w),
{
    if let Ok(w) = normalize_mappings(ms) {
        assert forall|k: int| 0 <= k < w.len() implies (#[trigger] w[k]).is_complete() && w[k].trimmed() == w[k] by {
            crate::text::lemma_trim_idempotent(ms[k].csv_column);
            crate::text::lemma_trim_idempotent(ms[k].datastream_id);
            crate::text::lemma_trim_idempotent(ms[k].datastream_name);
        }
        assert(w.map_values(|m: ColumnMappingView| m.trimmed()) =~= w);
    }
}

/// A job that normalized once normalizes to itself, so a stored job is read
/// back as it was written.
pub proof fn lemma_job_normalized_idempotent(j: JobConfigView)
    ensures
        j.normalized() matches Ok(w) ==> w.normalized() == Ok::<JobConfigView, Seq<char>>(w),
{
    crate::text::lemma_trim_idempotent(j.id);
    crate::text::lemma_trim_idempotent(j.settings.name);
    crate::text::lemma_trim_idempotent(j.settings.file_path);
    lemma_file_config_normalized_idempotent(j.settings.file_config);
    lemma_mappings_normalized_idempotent(j.settings.column_mappings);
}

/// Server settings that normalized once normalize to themselves, unless
/// normalizing the URL left whitespace at its end (see
/// [`lemma_normalize_url_idempotent`]).
pub proof fn lemma_server_normalized_idempotent(s: ServerConfigView)
    requires
        spec_normalize_url(s.url).len() == 0 || !crate::text::is_ws(spec_normalize_url(s.url).last()),
    ensures
        s.normalized().normalized() == s.normalized(),
{
    lemma_normalize_url_idempotent(s.url);
    crate::text::lemma_trim_idempotent(s.api_key);
    crate::text::lemma_trim_idempotent(s.username);
    crate::text::lemma_trim_idempotent(s.password);
    crate::text::lemma_trim_idempotent(s.workspace_id);
}

} // verus!
