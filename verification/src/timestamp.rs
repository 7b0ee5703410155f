//! Turning the timestamp text of a CSV cell into a UTC instant, following a
//! job's timestamp rules (ISO 8601, naive with a fixed offset, or naive in an
//! IANA zone with daylight-saving time).
use chrono::TimeZone;
use vstd::prelude::*;

use crate::models::{
    msg_custom_format_required, msg_timezone_required, owned, TimestampConfig,
    TimestampConfigView, TimestampFormatType, TimezoneModeType, UtcDateTime,
};
use crate::text::{chars_of, is_digit, string_from, trim, trim_chars, trim_str};

verus! {

/// A wall-clock reading without a zone, counted as if it were UTC: seconds
/// since 1970-01-01T00:00:00 and nanoseconds past them.
#[derive(Clone, Copy, Debug, PartialEq, Eq, Structural)]
pub struct LocalDateTime {
    pub secs: i64,
    pub nanos: u32,
}

/// What a zone says of a wall-clock reading.
#[derive(Clone, Copy, Debug, PartialEq, Eq, Structural)]
pub enum ZoneLookup {
    /// The zone name is not a known IANA zone.
    UnknownZone,
    /// The reading names exactly one instant.
    Single(UtcDateTime),
    /// The reading occurs twice (clocks turned back); earliest and latest instants.
    Ambiguous(UtcDateTime, UtcDateTime),
    /// The reading falls in a gap (clocks turned forward).
    Gap,
    /// The reading lies outside the range of representable dates.
    OutOfRange,
}

// ---------------------------------------------------------------------------
// chrono and chrono-tz
// ---------------------------------------------------------------------------
/// What `chrono::DateTime::parse_from_rfc3339` gives for a text, in UTC.
pub uninterp spec fn spec_rfc3339_utc(s: Seq<char>) -> Option<UtcDateTime>;

/// What `chrono::NaiveDateTime::parse_from_str` gives for a text and a format.
pub uninterp spec fn spec_parse_naive_datetime(value: Seq<char>, format: Seq<char>) -> Option<
    LocalDateTime,
>;

/// What `chrono::NaiveDate::parse_from_str` gives for a text and a format, at midnight.
pub uninterp spec fn spec_parse_naive_date(value: Seq<char>, format: Seq<char>) -> Option<
    LocalDateTime,
>;

/// What `chrono::FixedOffset::from_local_datetime(..).single()` gives, in UTC.
pub uninterp spec fn spec_fixed_offset_utc(local: LocalDateTime, offset_secs: i32) -> Option<
    UtcDateTime,
>;

/// What a `chrono_tz::Tz` parsed from a name says of a wall-clock reading.
pub uninterp spec fn spec_zone_lookup(zone: Seq<char>, local: LocalDateTime) -> ZoneLookup;

/// How chrono displays a wall-clock reading.
pub uninterp spec fn spec_local_display(local: LocalDateTime) -> Seq<char>;

/// Parses RFC 3339 text with `chrono::DateTime::parse_from_rfc3339` and converts
/// the result to UTC; `None` when chrono rejects the text.
#[verifier::external_body]
fn rfc3339_to_utc(s: &str) -> (res: Option<UtcDateTime>)
    ensures
        res == spec_rfc3339_utc(s@),
{
    chrono::DateTime::parse_from_rfc3339(s).ok().map(
        |d| UtcDateTime { secs: d.timestamp(), nanos: d.timestamp_subsec_nanos() },
    )
}

/// `chrono::NaiveDateTime::parse_from_str(value, format)`; `None` on a parse error.
#[verifier::external_body]
pub(crate) fn naive_datetime_parse(value: &str, format: &str) -> (res: Option<LocalDateTime>)
    ensures
        res == spec_parse_naive_datetime(value@, format@),
{
    chrono::NaiveDateTime::parse_from_str(value, format).ok().map(
        |n| LocalDateTime { secs: n.and_utc().timestamp(), nanos: n.and_utc().timestamp_subsec_nanos() },
    )
}

/// `chrono::NaiveDate::parse_from_str(value, format)` at 00:00:00; `None` on a
/// parse error.
#[verifier::external_body]
pub(crate) fn naive_date_parse(value: &str, format: &str) -> (res: Option<LocalDateTime>)
    ensures
        res == spec_parse_naive_date(value@, format@),
{
    chrono::NaiveDate::parse_from_str(value, format).ok().and_then(|d| d.and_hms_opt(0, 0, 0)).map(
        |n| LocalDateTime { secs: n.and_utc().timestamp(), nanos: n.and_utc().timestamp_subsec_nanos() },
    )
}

/// The offset that `chrono::FixedOffset::east_opt` accepts: one strictly
/// within a day east or west of UTC; any other is refused.
fn fixed_offset_east(secs: i32) -> (res: Option<i32>)
    ensures
        res == (if -86_400 < secs && secs < 86_400 {
            Some(secs)
        } else {
            None
        }),
{
    if -86_400 < secs && secs < 86_400 {
        Some(secs)
    } else {
        None
    }
}

/// A reading chrono can hold with any offset of less than a day: a whole
/// number of nanoseconds below a second, within 8 * 10^12 seconds (about
/// 250,000 years) of 1970. chrono's dates reach from the year -262143 to the
/// year 262142, further than that either way.
pub open spec fn within_chrono_range(l: LocalDateTime) -> bool {
    l.nanos < 1_000_000_000 && -8_000_000_000_000 <= l.secs <= 8_000_000_000_000
}

/// `chrono::FixedOffset::from_local_datetime(..).single()` in UTC. chrono
/// subtracts the offset from the reading, so a result is the reading moved
/// back by the offset; `None` comes when the reading or the result is out of
/// range, never for an offset of less than a day and a reading within
/// `within_chrono_range`. Where exactly chrono's range ends (and how it takes
/// a leap second) is left to the name.
#[verifier::external_body]
fn fixed_offset_to_utc(local: LocalDateTime, offset_secs: i32) -> (res: Option<UtcDateTime>)
    ensures
        res == spec_fixed_offset_utc(local, offset_secs),
        res matches Some(u) ==> u.secs == local.secs - offset_secs && u.nanos == local.nanos,
        -86_400 < offset_secs < 86_400 && within_chrono_range(local) ==> res is Some,
{
    let offset = chrono::FixedOffset::east_opt(offset_secs)?;
    let naive = chrono::DateTime::from_timestamp(local.secs, local.nanos)?.naive_utc();
    offset.from_local_datetime(&naive).single().map(
        |d| UtcDateTime { secs: d.timestamp(), nanos: d.timestamp_subsec_nanos() },
    )
}

/// Parses `zone` as a `chrono_tz::Tz` and asks it which instants the reading
/// names (`TimeZone::from_local_datetime`).
#[verifier::external_body]
fn zone_lookup(zone: &str, local: LocalDateTime) -> (res: ZoneLookup)
    ensures
        res == spec_zone_lookup(zone@, local),
{
    let Ok(tz) = zone.parse::<chrono_tz::Tz>() else { return ZoneLookup::UnknownZone };
    let Some(n) = chrono::DateTime::from_timestamp(local.secs, local.nanos) else { return ZoneLookup::OutOfRange };
    let u = |d: chrono::DateTime<chrono_tz::Tz>| UtcDateTime { secs: d.timestamp(), nanos: d.timestamp_subsec_nanos() };
    match tz.from_local_datetime(&n.naive_utc()) {
        chrono::LocalResult::Single(d) => ZoneLookup::Single(u(d)),
        chrono::LocalResult::Ambiguous(a, b) => ZoneLookup::Ambiguous(u(a), u(b)),
        chrono::LocalResult::None => ZoneLookup::Gap,
    }
}

/// chrono's `Display` of a `NaiveDateTime` (`%Y-%m-%d %H:%M:%S` and a fraction
/// when there is one).
#[verifier::external_body]
fn local_display(local: LocalDateTime) -> (res: String)
    ensures
        res@ == spec_local_display(local),
{
    match chrono::DateTime::from_timestamp(local.secs, local.nanos) {
        Some(d) => d.naive_utc().to_string(),
        None => String::new(),
    }
}

// ---------------------------------------------------------------------------
// Fixed UTC offsets
// ---------------------------------------------------------------------------
/// A two-character integer as `str::parse::<i32>` reads it: two digits, or a
/// sign and one digit.
pub open spec fn spec_parse_two(s: Seq<char>) -> Option<int> {
    if s.len() != 2 {
        None
    } else if is_digit(s[0]) && is_digit(s[1]) {
        Some(((s[0] as int) - ('0' as int)) * 10 + ((s[1] as int) - ('0' as int)))
    } else if s[0] == '+' && is_digit(s[1]) {
        Some((s[1] as int) - ('0' as int))
    } else if s[0] == '-' && is_digit(s[1]) {
        Some(('0' as int) - (s[1] as int))
    } else {
        None
    }
}

fn parse_two(a: char, b: char) -> (res: Option<i32>)
    ensures
        res matches Some(v) ==> spec_parse_two(seq![a, b]) == Some(v as int),
        res is None ==> spec_parse_two(seq![a, b]) is None,
{
    let ghost s = seq![a, b];
    assert(s[0] == a && s[1] == b);
    if '0' <= b && b <= '9' {
        let bv: i32 = ((b as u32) - ('0' as u32)) as i32;
        if '0' <= a && a <= '9' {
            let av: i32 = ((a as u32) - ('0' as u32)) as i32;
            Some(av * 10 + bv)
        } else if a == '+' {
            Some(bv)
        } else if a == '-' {
            Some(-bv)
        } else {
            None
        }
    } else {
        None
    }
}

/// The message for an offset that is not `±HHMM` or `±HH:MM` within ±14:00.
pub open spec fn spec_invalid_offset_message(value: Seq<char>) -> Seq<char> {
    "Invalid timestamp UTC offset '"@ + value
        + "'. UTC offsets must be specified in ±HHMM or ±HH:MM format (e.g: '-0700' or '-07:00') with hours between 00 and 14 and minutes between 00 and 59."@
}

fn invalid_offset_message(value: &str) -> (res: String)
    ensures
        res@ == spec_invalid_offset_message(value@),
{
    let mut m = owned("Invalid timestamp UTC offset '");
    m.append(value);
    m.append(
        "'. UTC offsets must be specified in ±HHMM or ±HH:MM format (e.g: '-0700' or '-07:00') with hours between 00 and 14 and minutes between 00 and 59.",
    );
    m
}

/// The offset east of UTC, in seconds, that `±HHMM` or `±HH:MM` text names.
pub open spec fn spec_fixed_offset(value: Seq<char>) -> Result<i32, Seq<char>> {
    let c = trim(value);
    let err = Err(spec_invalid_offset_message(c));
    if !((c.len() == 5 && c[3] != ':') || (c.len() == 6 && c[3] == ':')) {
        err
    } else {
        let hs = c.subrange(1, 3);
        let ms = if c.len() == 5 {
            c.subrange(3, 5)
        } else {
            c.subrange(4, 6)
        };
        if c[0] != '+' && c[0] != '-' {
            err
        } else if spec_parse_two(hs) is None || spec_parse_two(ms) is None {
            err
        } else {
            let h = spec_parse_two(hs)->0;
            let m = spec_parse_two(ms)->0;
            let sign: int = if c[0] == '+' {
                1
            } else {
                -1
            };
            if h > 14 || m >= 60 || (h == 14 && m != 0) {
                err
            } else {
                let secs = sign * (h * 3600 + m * 60);
                if -86_400 < secs && secs < 86_400 {
                    Ok(secs as i32)
                } else {
                    err
                }
            }
        }
    }
}

/// The number two ASCII digits spell.
pub open spec fn two_digit_value(a: char, b: char) -> int {
    ((a as int) - ('0' as int)) * 10 + ((b as int) - ('0' as int))
}

proof fn lemma_trim_offset_text(s: Seq<char>)
    requires
        s.len() > 0,
        s[0] == '+' || s[0] == '-',
        is_digit(s.last()),
    ensures
        trim(s) == s,
{
    assert(!crate::text::is_ws(s[0]));
    assert(!crate::text::is_ws(s.last()));
    assert(crate::text::trim_start(s) == s);
    assert(crate::text::trim_end(s) == s);
}

/// An offset written `±HH:MM` or `±HHMM`, with hours up to 14 (`14:00` at
/// most) and minutes below 60, is that many hours and minutes east of UTC,
/// the sign applying to the whole of it.
pub proof fn lemma_fixed_offset_value(sign: char, h1: char, h2: char, m1: char, m2: char)
    requires
        sign == '+' || sign == '-',
        is_digit(h1),
        is_digit(h2),
        is_digit(m1),
        is_digit(m2),
        two_digit_value(m1, m2) < 60,
        two_digit_value(h1, h2) < 14 || (two_digit_value(h1, h2) == 14 && two_digit_value(m1, m2) == 0),
    ensures
        ({
            let span = two_digit_value(h1, h2) * 3600 + two_digit_value(m1, m2) * 60;
            let east: int = if sign == '+' {
                span
            } else {
                -span
            };
            &&& spec_fixed_offset(seq![sign, h1, h2, ':', m1, m2]) matches Ok(v) && v == east
            &&& spec_fixed_offset(seq![sign, h1, h2, m1, m2]) matches Ok(v) && v == east
        }),
{
    let long = seq![sign, h1, h2, ':', m1, m2];
    let short = seq![sign, h1, h2, m1, m2];
    lemma_trim_offset_text(long);
    lemma_trim_offset_text(short);
    assert(long.subrange(1, 3) =~= seq![h1, h2]);
    assert(long.subrange(4, 6) =~= seq![m1, m2]);
    assert(short.subrange(1, 3) =~= seq![h1, h2]);
    assert(short.subrange(3, 5) =~= seq![m1, m2]);
    assert(spec_parse_two(seq![h1, h2]) == Some(two_digit_value(h1, h2)));
    assert(spec_parse_two(seq![m1, m2]) == Some(two_digit_value(m1, m2)));
    let span = two_digit_value(h1, h2) * 3600 + two_digit_value(m1, m2) * 60;
    assert(0 <= span <= 50_400);
    assert(1 * span == span && -1 * span == -span) by (nonlinear_arith);
}

/// A westward offset is the exact negation of the eastward one with the same
/// digits: `-HH:MM` names minus the seconds `+HH:MM` names.
pub proof fn lemma_fixed_offset_sign_negates(h1: char, h2: char, m1: char, m2: char)
    requires
        is_digit(h1),
        is_digit(h2),
        is_digit(m1),
        is_digit(m2),
        two_digit_value(m1, m2) < 60,
        two_digit_value(h1, h2) < 14 || (two_digit_value(h1, h2) == 14 && two_digit_value(m1, m2) == 0),
    ensures
        spec_fixed_offset(seq!['-', h1, h2, ':', m1, m2]) matches Ok(w) && spec_fixed_offset(
            seq!['+', h1, h2, ':', m1, m2],
        ) matches Ok(e) && w == -e,
        spec_fixed_offset(seq!['-', h1, h2, m1, m2]) matches Ok(w) && spec_fixed_offset(
            seq!['+', h1, h2, m1, m2],
        ) matches Ok(e) && w == -e,
{
    lemma_fixed_offset_value('+', h1, h2, m1, m2);
    lemma_fixed_offset_value('-', h1, h2, m1, m2);
}

/// Hours beyond 14, minutes of 60 or more, or anything past `14:00` are
/// refused.
pub proof fn lemma_fixed_offset_out_of_range(sign: char, h1: char, h2: char, m1: char, m2: char)
    requires
        sign == '+' || sign == '-',
        is_digit(h1),
        is_digit(h2),
        is_digit(m1),
        is_digit(m2),
        two_digit_value(m1, m2) >= 60 || two_digit_value(h1, h2) > 14 || (two_digit_value(h1, h2) == 14
            && two_digit_value(m1, m2) > 0),
    ensures
        spec_fixed_offset(seq![sign, h1, h2, ':', m1, m2]) is Err,
        spec_fixed_offset(seq![sign, h1, h2, m1, m2]) is Err,
{
    let long = seq![sign, h1, h2, ':', m1, m2];
    let short = seq![sign, h1, h2, m1, m2];
    lemma_trim_offset_text(long);
    lemma_trim_offset_text(short);
    assert(long.subrange(1, 3) =~= seq![h1, h2]);
    assert(long.subrange(4, 6) =~= seq![m1, m2]);
    assert(short.subrange(1, 3) =~= seq![h1, h2]);
    assert(short.subrange(3, 5) =~= seq![m1, m2]);
    assert(spec_parse_two(seq![h1, h2]) == Some(two_digit_value(h1, h2)));
    assert(spec_parse_two(seq![m1, m2]) == Some(two_digit_value(m1, m2)));
}

/// Checks a `±HHMM` or `±HH:MM` UTC offset (hours up to 14, `±14:00` at most)
/// and gives it in seconds east of UTC.
pub fn validate_fixed_offset(value: &str) -> (res: Result<i32, String>)
    ensures
        match (res, spec_fixed_offset(value@)) {
            (Ok(v), Ok(w)) => v == w,
            (Err(e), Err(m)) => e@ == m,
            _ => false,
        },
{
    let chars = chars_of(value);
    let c = trim_chars(chars.as_slice());
    let clean = string_from(c.as_slice());
    let n = c.len();
    let five = n == 5 && c[3] != ':';
    let six = n == 6 && c[3] == ':';
    if !five && !six {
        return Err(invalid_offset_message(clean.as_str()));
    }
    let ghost hs = c@.subrange(1, 3);
    let ghost ms = if n == 5 {
        c@.subrange(3, 5)
    } else {
        c@.subrange(4, 6)
    };
    assert(hs =~= seq![c@[1], c@[2]]);
    let (m1, m2) = if five {
        assert(ms =~= seq![c@[3], c@[4]]);
        (c[3], c[4])
    } else {
        assert(ms =~= seq![c@[4], c@[5]]);
        (c[4], c[5])
    };
    let sign: i32 = if c[0] == '+' {
        1
    } else if c[0] == '-' {
        -1
    } else {
        return Err(invalid_offset_message(clean.as_str()));
    };
    let hours = match parse_two(c[1], c[2]) {
        Some(h) => h,
        None => return Err(invalid_offset_message(clean.as_str())),
    };
    let minutes = match parse_two(m1, m2) {
        Some(m) => m,
        None => return Err(invalid_offset_message(clean.as_str())),
    };
    if hours > 14 || minutes >= 60 || (hours == 14 && minutes != 0) {
        return Err(invalid_offset_message(clean.as_str()));
    }
    assert(-9 <= hours <= 14 && -9 <= minutes < 60);
    let secs: i32 = sign * (hours * 3600 + minutes * 60);
    match fixed_offset_east(secs) {
        Some(v) => Ok(v),
        None => Err(invalid_offset_message(clean.as_str())),
    }
}

// ---------------------------------------------------------------------------
// ISO 8601
// ---------------------------------------------------------------------------
/// `s` with its first space replaced by `T` (`str::replacen(' ', "T", 1)`).
pub open spec fn replace_first_space(s: Seq<char>) -> Seq<char>
    decreases s.len(),
{
    if s.len() == 0 {
        s
    } else if s[0] == ' ' {
        seq!['T'] + s.drop_first()
    } else {
        seq![s[0]] + replace_first_space(s.drop_first())
    }
}

/// Whether five characters are a sign and four ASCII digits (`+0700`).
pub open spec fn is_compact_offset(s: Seq<char>) -> bool {
    s.len() == 5 && (s[0] == '+' || s[0] == '-') && is_digit(s[1]) && is_digit(s[2]) && is_digit(
        s[3],
    ) && is_digit(s[4])
}

/// ISO 8601 text put into the shape RFC 3339 parsing expects: trimmed, a `T`
/// between date and time, and a colon inside a compact `±HHMM` offset.
pub open spec fn spec_normalize_iso8601(value: Seq<char>) -> Seq<char> {
    let n0 = trim(value);
    let n = if n0.contains(' ') && !n0.contains('T') {
        replace_first_space(n0)
    } else {
        n0
    };
    if n.len() > 0 && n.last() == 'Z' {
        n
    } else if n.len() >= 5 && is_compact_offset(n.subrange(n.len() - 5, n.len() as int)) {
        n.subrange(0, n.len() - 5) + n.subrange(n.len() - 5, n.len() - 2) + seq![':']
            + n.subrange(n.len() - 2, n.len() as int)
    } else {
        n
    }
}

fn replace_first_space_chars(s: &[char]) -> (res: Vec<char>)
    ensures
        res@ == replace_first_space(s@),
{
    let mut out: Vec<char> = Vec::new();
    let n = s.len();
    let mut i: usize = 0;
    assert(s@.subrange(0, n as int) =~= s@);
    while i < n
        invariant
            i <= n == s@.len(),
            out@ + replace_first_space(s@.subrange(i as int, n as int)) == replace_first_space(s@),
        decreases n - i,
    {
        let ghost rest = s@.subrange(i as int, n as int);
        assert(rest.drop_first() =~= s@.subrange(i + 1, n as int));
        if s[i] == ' ' {
            out.push('T');
            let mut j = i + 1;
            while j < n
                invariant
                    i < j <= n == s@.len(),
                    out@ + s@.subrange(j as int, n as int) == replace_first_space(s@),
                decreases n - j,
            {
                assert(s@.subrange(j as int, n as int) =~= seq![s@[j as int]] + s@.subrange(
                    j + 1,
                    n as int,
                ));
                out.push(s[j]);
                j = j + 1;
            }
            assert(s@.subrange(n as int, n as int) =~= Seq::<char>::empty());
            assert(out@ =~= out@ + Seq::<char>::empty());
            return out;
        }
        out.push(s[i]);
        i = i + 1;
    }
    assert(s@.subrange(n as int, n as int) =~= Seq::<char>::empty());
    assert(out@ =~= out@ + Seq::<char>::empty());
    out
}

fn contains_char(s: &[char], c: char) -> (res: bool)
    ensures
        res == s@.contains(c),
{
    for i in 0..s.len()
        invariant
            forall|k: int| 0 <= k < i ==> s@[k] != c,
    {
        if s[i] == c {
            return true;
        }
    }
    false
}

fn is_ascii_digit(c: char) -> (res: bool)
    ensures
        res == is_digit(c),
{
    '0' <= c && c <= '9'
}

/// Puts ISO 8601 text into the shape that RFC 3339 parsing accepts.
pub fn normalize_iso8601(value: &str) -> (res: String)
    ensures
        res@ == spec_normalize_iso8601(value@),
{
    let chars = chars_of(value);
    let n0 = trim_chars(chars.as_slice());
    let n = if contains_char(n0.as_slice(), ' ') && !contains_char(n0.as_slice(), 'T') {
        replace_first_space_chars(n0.as_slice())
    } else {
        n0
    };
    let len = n.len();
    if len > 0 && n[len - 1] == 'Z' {
        return string_from(n.as_slice());
    }
    if len >= 5 {
        let ghost suffix = n@.subrange(len - 5, len as int);
        let s0 = n[len - 5];
        if (s0 == '+' || s0 == '-') && is_ascii_digit(n[len - 4]) && is_ascii_digit(n[len - 3])
            && is_ascii_digit(n[len - 2]) && is_ascii_digit(n[len - 1]) {
            assert(is_compact_offset(suffix));
            let mut out: Vec<char> = Vec::new();
            for i in 0..len - 2
                invariant
                    len == n@.len(),
                    len >= 5,
                    out@ == n@.subrange(0, i as int),
            {
                out.push(n[i]);
                assert(n@.subrange(0, i + 1) =~= n@.subrange(0, i as int).push(n@[i as int]));
            }
            out.push(':');
            out.push(n[len - 2]);
            out.push(n[len - 1]);
            assert(out@ =~= n@.subrange(0, len - 5) + n@.subrange(len - 5, len - 2) + seq![':']
                + n@.subrange(len - 2, len as int));
            return string_from(out.as_slice());
        }
        assert(!is_compact_offset(suffix));
    }
    string_from(n.as_slice())
}

// ---------------------------------------------------------------------------
// Naive timestamps
// ---------------------------------------------------------------------------
/// A reading parsed as a date and time, or else as a date at midnight.
pub open spec fn spec_naive_with_format(value: Seq<char>, format: Seq<char>) -> Option<
    LocalDateTime,
> {
    match spec_parse_naive_datetime(value, format) {
        Some(v) => Some(v),
        None => spec_parse_naive_date(value, format),
    }
}

fn parse_naive_with_format(value: &str, format: &str) -> (res: Option<LocalDateTime>)
    ensures
        res == spec_naive_with_format(value@, format@),
{
    match naive_datetime_parse(value, format) {
        Some(v) => Some(v),
        None => naive_date_parse(value, format),
    }
}

/// The formats tried, in order, for naive timestamps without a custom format.
pub open spec fn flexible_formats() -> Seq<Seq<char>> {
    seq![
        "%Y-%m-%d %H:%M:%S%.f"@,
        "%Y-%m-%dT%H:%M:%S%.f"@,
        "%Y-%m-%d %H:%M"@,
        "%Y-%m-%dT%H:%M"@,
        "%m/%d/%Y %H:%M:%S"@,
        "%m/%d/%Y %H:%M"@,
        "%Y/%m/%d %H:%M:%S"@,
        "%Y/%m/%d %H:%M"@,
        "%m/%d/%Y"@,
        "%Y/%m/%d"@,
        "%Y-%m-%d"@,
    ]
}

fn flexible_format(i: usize) -> (res: &'static str)
    requires
        i < 11,
    ensures
        res@ == flexible_formats()[i as int],
{
    match i {
        0 => "%Y-%m-%d %H:%M:%S%.f",
        1 => "%Y-%m-%dT%H:%M:%S%.f",
        2 => "%Y-%m-%d %H:%M",
        3 => "%Y-%m-%dT%H:%M",
        4 => "%m/%d/%Y %H:%M:%S",
        5 => "%m/%d/%Y %H:%M",
        6 => "%Y/%m/%d %H:%M:%S",
        7 => "%Y/%m/%d %H:%M",
        8 => "%m/%d/%Y",
        9 => "%Y/%m/%d",
        _ => "%Y-%m-%d",
    }
}

/// The first of the flexible formats, from the `i`-th on, that reads `value`.
pub open spec fn spec_flexible_from(value: Seq<char>, i: int) -> Option<LocalDateTime>
    decreases 11 - i,
{
    if i < 0 || i >= 11 {
        None
    } else {
        match spec_naive_with_format(value, flexible_formats()[i]) {
            Some(v) => Some(v),
            None => spec_flexible_from(value, i + 1),
        }
    }
}

fn parse_flexible_naive(value: &str) -> (res: Option<LocalDateTime>)
    ensures
        res == spec_flexible_from(value@, 0),
{
    let mut i: usize = 0;
    while i < 11
        invariant
            i <= 11,
            spec_flexible_from(value@, 0) == spec_flexible_from(value@, i as int),
        decreases 11 - i,
    {
        if let Some(v) = parse_naive_with_format(value, flexible_format(i)) {
            return Some(v);
        }
        i = i + 1;
    }
    None
}

/// A reading taken as a UTC instant.
pub open spec fn local_as_utc(l: LocalDateTime) -> UtcDateTime {
    UtcDateTime { secs: l.secs, nanos: l.nanos }
}

pub open spec fn msg_not_iso(value: Seq<char>) -> Seq<char> {
    "Couldn't parse timestamp '"@ + value + "' as ISO8601."@
}

pub open spec fn msg_not_naive(value: Seq<char>) -> Seq<char> {
    "Couldn't parse timestamp '"@ + value + "' as a naive timestamp."@
}

pub open spec fn msg_not_custom(value: Seq<char>, format: Seq<char>) -> Seq<char> {
    "Couldn't parse timestamp '"@ + value + "' with format '"@ + format + "'."@
}

/// RFC 3339 after normalization, else a flexible naive reading taken as UTC.
pub open spec fn spec_parse_iso8601(value: Seq<char>) -> Result<UtcDateTime, Seq<char>> {
    match spec_rfc3339_utc(spec_normalize_iso8601(value)) {
        Some(u) => Ok(u),
        None => match spec_flexible_from(value, 0) {
            Some(l) => Ok(local_as_utc(l)),
            None => Err(msg_not_iso(value)),
        },
    }
}

fn parse_iso8601_to_utc(value: &str) -> (res: Result<UtcDateTime, String>)
    ensures
        match (res, spec_parse_iso8601(value@)) {
            (Ok(u), Ok(v)) => u == v,
            (Err(e), Err(m)) => e@ == m,
            _ => false,
        },
{
    let normalized = normalize_iso8601(value);
    if let Some(u) = rfc3339_to_utc(normalized.as_str()) {
        return Ok(u);
    }
    match parse_flexible_naive(value) {
        Some(l) => Ok(UtcDateTime { secs: l.secs, nanos: l.nanos }),
        None => {
            let mut m = owned("Couldn't parse timestamp '");
            m.append(value);
            m.append("' as ISO8601.");
            Err(m)
        },
    }
}

/// The wall-clock reading of a naive or custom-format timestamp.
pub open spec fn spec_parse_naive_timestamp(value: Seq<char>, config: TimestampConfigView) -> Result<
    LocalDateTime,
    Seq<char>,
> {
    if config.format == TimestampFormatType::Custom {
        match config.custom_format {
            None => Err(msg_custom_format_required()),
            Some(f) => match spec_naive_with_format(value, f) {
                Some(l) => Ok(l),
                None => Err(msg_not_custom(value, f)),
            },
        }
    } else {
        match spec_flexible_from(value, 0) {
            Some(l) => Ok(l),
            None => Err(msg_not_naive(value)),
        }
    }
}

fn parse_naive_timestamp(value: &str, config: &TimestampConfig) -> (res: Result<
    LocalDateTime,
    String,
>)
    requires
        config.format != TimestampFormatType::Iso8601,
    ensures
        match (res, spec_parse_naive_timestamp(value@, config@)) {
            (Ok(u), Ok(v)) => u == v,
            (Err(e), Err(m)) => e@ == m,
            _ => false,
        },
{
    match config.format {
        TimestampFormatType::Custom => {
            let format = match &config.custom_format {
                Some(f) => f,
                None => return Err(owned("Custom timestamp formats require a customFormat value.")),
            };
            match parse_naive_with_format(value, format.as_str()) {
                Some(l) => Ok(l),
                None => {
                    let mut m = owned("Couldn't parse timestamp '");
                    m.append(value);
                    m.append("' with format '");
                    m.append(format.as_str());
                    m.append("'.");
                    Err(m)
                },
            }
        },
        _ => match parse_flexible_naive(value) {
            Some(l) => Ok(l),
            None => {
                let mut m = owned("Couldn't parse timestamp '");
                m.append(value);
                m.append("' as a naive timestamp.");
                Err(m)
            },
        },
    }
}

// ---------------------------------------------------------------------------
// Localization
// ---------------------------------------------------------------------------
/// How many one-minute steps forward a reading in a daylight-saving gap may move.
pub open spec fn max_gap_steps() -> int {
    180
}

/// A reading moved `minutes` minutes later.
pub open spec fn local_plus_minutes(l: LocalDateTime, minutes: int) -> LocalDateTime {
    LocalDateTime { secs: (l.secs + 60 * minutes) as i64, nanos: l.nanos }
}

/// Localizing a reading in a zone from the `i`-th one-minute step on: a
/// single instant is taken, of two the later one, and a gap moves the reading
/// a minute later, at most `max_gap_steps` times in all.
pub open spec fn spec_shift_forward(zone: Seq<char>, l: LocalDateTime, i: int) -> Option<
    UtcDateTime,
>
    decreases max_gap_steps() - i,
{
    if i < 0 || i >= max_gap_steps() || l.secs + 60 * i > i64::MAX {
        None
    } else {
        match spec_zone_lookup(zone, local_plus_minutes(l, i)) {
            ZoneLookup::Single(u) => Some(u),
            ZoneLookup::Ambiguous(_, latest) => Some(latest),
            ZoneLookup::Gap => spec_shift_forward(zone, l, i + 1),
            _ => None,
        }
    }
}

pub open spec fn msg_bad_zone(zone: Seq<char>) -> Seq<char> {
    "Invalid IANA timezone '"@ + zone + "'."@
}

pub open spec fn msg_no_localization(l: LocalDateTime, zone: Seq<char>) -> Seq<char> {
    "Couldn't localize timestamp '"@ + spec_local_display(l) + "' in timezone '"@ + zone + "'."@
}

pub open spec fn msg_no_offset_localization(l: LocalDateTime) -> Seq<char> {
    "Couldn't localize timestamp '"@ + spec_local_display(l) + "' with offset."@
}

/// The instant that a reading names under the job's zone rules.
pub open spec fn spec_localize(l: LocalDateTime, config: TimestampConfigView) -> Result<
    UtcDateTime,
    Seq<char>,
> {
    match config.timezone_mode {
        TimezoneModeType::Utc | TimezoneModeType::EmbeddedOffset => Ok(local_as_utc(l)),
        TimezoneModeType::FixedOffset => match config.timezone {
            None => Err(msg_timezone_required()),
            Some(tz) => match spec_fixed_offset(tz) {
                Err(e) => Err(e),
                Ok(off) => if within_chrono_range(l) || spec_fixed_offset_utc(l, off) is Some {
                    Ok(UtcDateTime { secs: (l.secs - off) as i64, nanos: l.nanos })
                } else {
                    Err(msg_no_offset_localization(l))
                },
            },
        },
        TimezoneModeType::DaylightSavings => match config.timezone {
            None => Err(msg_timezone_required()),
            Some(zone) => if spec_zone_lookup(zone, l) == ZoneLookup::UnknownZone {
                Err(msg_bad_zone(zone))
            } else {
                match spec_shift_forward(zone, l, 0) {
                    Some(u) => Ok(u),
                    None => Err(msg_no_localization(l, zone)),
                }
            },
        },
    }
}

fn localize_in_zone(zone: &str, local: LocalDateTime) -> (res: Result<UtcDateTime, String>)
    ensures
        match (res, spec_shift_forward(zone@, local, 0)) {
            (Ok(u), Some(v)) => u == v,
            (Err(e), None) => e@ == msg_no_localization(local, zone@),
            _ => false,
        },
{
    let mut i: i64 = 0;
    while i < 180
        invariant
            0 <= i <= 180,
            spec_shift_forward(zone@, local, 0) == spec_shift_forward(zone@, local, i as int),
        ensures
            spec_shift_forward(zone@, local, 0) is None,
        decreases 180 - i,
    {
        if local.secs > i64::MAX - 60 * i {
            break;
        }
        let candidate = LocalDateTime { secs: local.secs + 60 * i, nanos: local.nanos };
        assert(candidate == local_plus_minutes(local, i as int));
        match zone_lookup(zone, candidate) {
            ZoneLookup::Single(u) => {
                return Ok(u);
            },
            ZoneLookup::Ambiguous(_, latest) => {
                return Ok(latest);
            },
            ZoneLookup::Gap => {},
            _ => {
                break;
            },
        }
        i = i + 1;
    }
    let shown = local_display(local);
    let mut m = owned("Couldn't localize timestamp '");
    m.append(shown.as_str());
    m.append("' in timezone '");
    m.append(zone);
    m.append("'.");
    Err(m)
}

fn localize_naive_to_utc(local: LocalDateTime, config: &TimestampConfig) -> (res: Result<
    UtcDateTime,
    String,
>)
    ensures
        match (res, spec_localize(local, config@)) {
            (Ok(u), Ok(v)) => u == v,
            (Err(e), Err(m)) => e@ == m,
            _ => false,
        },
{
    match config.timezone_mode {
        TimezoneModeType::Utc | TimezoneModeType::EmbeddedOffset => Ok(
            UtcDateTime { secs: local.secs, nanos: local.nanos },
        ),
        TimezoneModeType::FixedOffset => {
            let tz = match &config.timezone {
                Some(t) => t,
                None => return Err(
                    owned(
                        "Timezone is required when using fixedOffset or daylightSavings timestamp modes.",
                    ),
                ),
            };
            let offset = match validate_fixed_offset(tz.as_str()) {
                Ok(o) => o,
                Err(e) => return Err(e),
            };
            match fixed_offset_to_utc(local, offset) {
                Some(u) => Ok(u),
                None => {
                    let shown = local_display(local);
                    let mut m = owned("Couldn't localize timestamp '");
                    m.append(shown.as_str());
                    m.append("' with offset.");
                    Err(m)
                },
            }
        },
        TimezoneModeType::DaylightSavings => {
            let zone = match &config.timezone {
                Some(t) => t,
                None => return Err(
                    owned(
                        "Timezone is required when using fixedOffset or daylightSavings timestamp modes.",
                    ),
                ),
            };
            if zone_lookup(zone.as_str(), local) == ZoneLookup::UnknownZone {
                let mut m = owned("Invalid IANA timezone '");
                m.append(zone.as_str());
                m.append("'.");
                return Err(m);
            }
            localize_in_zone(zone.as_str(), local)
        },
    }
}

// ---------------------------------------------------------------------------
// The entry point
// ---------------------------------------------------------------------------
pub open spec fn msg_empty_timestamp() -> Seq<char> {
    "Timestamp value is empty."@
}

/// The UTC instant a timestamp cell names under a job's timestamp rules.
pub open spec fn spec_parse_timestamp(raw: Seq<char>, config: TimestampConfigView) -> Result<
    UtcDateTime,
    Seq<char>,
> {
    let value = trim(raw);
    if value.len() == 0 {
        Err(msg_empty_timestamp())
    } else if config.format == TimestampFormatType::Iso8601 {
        spec_parse_iso8601(value)
    } else {
        match spec_parse_naive_timestamp(value, config) {
            Err(e) => Err(e),
            Ok(l) => spec_localize(l, config),
        }
    }
}

/// Parses a timestamp cell into a UTC instant following the job's timestamp
/// rules.
pub fn parse_timestamp_to_utc(raw_value: &str, config: &TimestampConfig) -> (res: Result<
    UtcDateTime,
    String,
>)
    ensures
        match (res, spec_parse_timestamp(raw_value@, config@)) {
            (Ok(u), Ok(v)) => u == v,
            (Err(e), Err(m)) => e@ == m,
            _ => false,
        },
{
    let value = trim_str(raw_value);
    if value.as_str().is_empty() {
        return Err(owned("Timestamp value is empty."));
    }
    match config.format {
        TimestampFormatType::Iso8601 => parse_iso8601_to_utc(value.as_str()),
        _ => {
            let local = match parse_naive_timestamp(value.as_str(), config) {
                Ok(l) => l,
                Err(e) => return Err(e),
            };
            localize_naive_to_utc(local, config)
        },
    }
}

} // verus!
