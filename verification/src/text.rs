//! Character-level text helpers shared by the parsers and normalizers.
//!
//! Text is reasoned about as `Seq<char>`, the view of `str` and `String`.
use vstd::prelude::*;

verus! {

/// Unicode `White_Space`, the set that `char::is_whitespace` tests for.
pub open spec fn is_ws(c: char) -> bool {
    ||| ('\u{9}' <= c && c <= '\u{d}')
    ||| c == ' '
    ||| c == '\u{85}'
    ||| c == '\u{a0}'
    ||| c == '\u{1680}'
    ||| ('\u{2000}' <= c && c <= '\u{200a}')
    ||| c == '\u{2028}'
    ||| c == '\u{2029}'
    ||| c == '\u{202f}'
    ||| c == '\u{205f}'
    ||| c == '\u{3000}'
}

pub fn is_ws_char(c: char) -> (b: bool)
    ensures
        b == is_ws(c),
{
    ('\u{9}' <= c && c <= '\u{d}') || c == ' ' || c == '\u{85}' || c == '\u{a0}' || c == '\u{1680}'
        || ('\u{2000}' <= c && c <= '\u{200a}') || c == '\u{2028}' || c == '\u{2029}' || c
        == '\u{202f}' || c == '\u{205f}' || c == '\u{3000}'
}

/// `s` without its leading whitespace.
pub open spec fn trim_start(s: Seq<char>) -> Seq<char>
    decreases s.len(),
{
    if s.len() > 0 && is_ws(s[0]) {
        trim_start(s.drop_first())
    } else {
        s
    }
}

/// `s` without its trailing whitespace.
pub open spec fn trim_end(s: Seq<char>) -> Seq<char>
    decreases s.len(),
{
    if s.len() > 0 && is_ws(s.last()) {
        trim_end(s.drop_last())
    } else {
        s
    }
}

/// What `str::trim` leaves of `s`.
pub open spec fn trim(s: Seq<char>) -> Seq<char> {
    trim_end(trim_start(s))
}

/// `s` without its trailing `c` characters (`str::trim_end_matches` with a char).
pub open spec fn trim_end_char(s: Seq<char>, c: char) -> Seq<char>
    decreases s.len(),
{
    if s.len() > 0 && s.last() == c {
        trim_end_char(s.drop_last(), c)
    } else {
        s
    }
}

/// `s` without its leading `c` characters (`str::trim_start_matches` with a char).
pub open spec fn trim_start_char(s: Seq<char>, c: char) -> Seq<char>
    decreases s.len(),
{
    if s.len() > 0 && s[0] == c {
        trim_start_char(s.drop_first(), c)
    } else {
        s
    }
}

pub proof fn lemma_trim_start_suffix(s: Seq<char>)
    ensures
        trim_start(s).len() <= s.len(),
        trim_start(s) == s.subrange(s.len() - trim_start(s).len(), s.len() as int),
        forall|k: int| 0 <= k < s.len() - trim_start(s).len() ==> is_ws(#[trigger] s[k]),
        trim_start(s).len() > 0 ==> !is_ws(trim_start(s)[0]),
    decreases s.len(),
{
    if s.len() > 0 && is_ws(s[0]) {
        lemma_trim_start_suffix(s.drop_first());
        assert forall|k: int| 0 <= k < s.len() - trim_start(s).len() implies is_ws(#[trigger] s[k]) by {
            if k > 0 {
                assert(s[k] == s.drop_first()[k - 1]);
            }
        }
        assert(s.drop_first().subrange(
            s.drop_first().len() - trim_start(s).len(),
            s.drop_first().len() as int,
        ) =~= s.subrange(s.len() - trim_start(s).len(), s.len() as int));
    } else {
        assert(s.subrange(0, s.len() as int) =~= s);
    }
}

pub proof fn lemma_trim_end_prefix(s: Seq<char>)
    ensures
        trim_end(s).len() <= s.len(),
        trim_end(s) == s.subrange(0, trim_end(s).len() as int),
        forall|k: int| trim_end(s).len() <= k < s.len() ==> is_ws(#[trigger] s[k]),
        trim_end(s).len() > 0 ==> !is_ws(trim_end(s).last()),
    decreases s.len(),
{
    if s.len() > 0 && is_ws(s.last()) {
        lemma_trim_end_prefix(s.drop_last());
        assert forall|k: int| trim_end(s).len() <= k < s.len() implies is_ws(#[trigger] s[k]) by {
            if k < s.len() - 1 {
                assert(s[k] == s.drop_last()[k]);
            }
        }
        assert(s.drop_last().subrange(0, trim_end(s).len() as int) =~= s.subrange(
            0,
            trim_end(s).len() as int,
        ));
    } else {
        assert(s.subrange(0, s.len() as int) =~= s);
    }
}

/// Trimming twice trims nothing more.
pub proof fn lemma_trim_idempotent(s: Seq<char>)
    ensures
        trim(trim(s)) == trim(s),
        trim_start(trim(s)) == trim(s),
        trim_end(trim(s)) == trim(s),
{
    let a = trim_start(s);
    lemma_trim_start_suffix(s);
    lemma_trim_end_prefix(a);
    let t = trim_end(a);
    if t.len() > 0 {
        assert(t[0] == a[0]);
    }
    assert(trim_start(t) == t);
    lemma_trim_end_prefix(t);
    if t.len() > 0 {
        assert(trim_end(t) == t);
    }
}

/// Characters of a trimmed sequence at its ends are not whitespace.
pub proof fn lemma_trim_ends(s: Seq<char>)
    ensures
        trim(s).len() > 0 ==> !is_ws(trim(s)[0]) && !is_ws(trim(s).last()),
        trim(s).len() <= s.len(),
{
    lemma_trim_idempotent(s);
    let t = trim(s);
    lemma_trim_start_suffix(t);
    lemma_trim_end_prefix(t);
    lemma_trim_start_suffix(s);
    lemma_trim_end_prefix(trim_start(s));
}

/// The characters of a string slice, in order.
pub fn chars_of(s: &str) -> (res: Vec<char>)
    ensures
        res@ == s@,
{
    let mut out: Vec<char> = Vec::new();
    for c in it: s.chars()
        invariant
            out@ == it.seq().take(it.index() as int),
            it.seq() == s@,
    {
        out.push(c);
    }
    out
}

/// Appends a character to a string (`String::push`).
#[verifier::external_body]
pub(crate) fn push_char(s: &mut String, c: char)
    ensures
        final(s)@ == old(s)@.push(c),
{
    s.push(c);
}

/// A string holding `chars`.
pub fn string_from(chars: &[char]) -> (res: String)
    ensures
        res@ == chars@,
{
    let mut out = String::new();
    let n = chars.len();
    for i in 0..n
        invariant
            n == chars@.len(),
            out@ == chars@.take(i as int),
    {
        push_char(&mut out, chars[i]);
        assert(chars@.take(i + 1) =~= chars@.take(i as int).push(chars@[i as int]));
    }
    assert(chars@.take(n as int) =~= chars@);
    out
}

/// Bounds `(start, end)` of the trimmed part of `s`.
pub fn trim_bounds(s: &[char]) -> (res: (usize, usize))
    ensures
        res.0 <= res.1 <= s@.len(),
        s@.subrange(res.0 as int, res.1 as int) == trim(s@),
{
    let n = s.len();
    let mut start: usize = 0;
    proof {
        lemma_trim_start_suffix(s@);
        assert(s@.subrange(0, n as int) =~= s@);
    }
    while start < n && is_ws_char(s[start])
        invariant
            start <= n == s@.len(),
            trim_start(s@) == trim_start(s@.subrange(start as int, n as int)),
        decreases n - start,
    {
        assert(s@.subrange(start as int, n as int).drop_first() =~= s@.subrange(
            start + 1,
            n as int,
        ));
        start = start + 1;
    }
    let ghost a = s@.subrange(start as int, n as int);
    assert(trim_start(a) == a);
    let mut end: usize = n;
    assert(a.subrange(0, (end - start) as int) =~= a);
    while end > start && is_ws_char(s[end - 1])
        invariant
            start <= end <= n == s@.len(),
            a == s@.subrange(start as int, n as int),
            trim_end(a) == trim_end(s@.subrange(start as int, end as int)),
        decreases end,
    {
        assert(s@.subrange(start as int, end as int).drop_last() =~= s@.subrange(
            start as int,
            end - 1,
        ));
        end = end - 1;
    }
    (start, end)
}

/// The trimmed characters of `s` (`str::trim`).
pub fn trim_chars(s: &[char]) -> (res: Vec<char>)
    ensures
        res@ == trim(s@),
{
    let (start, end) = trim_bounds(s);
    let mut out: Vec<char> = Vec::new();
    for i in start..end
        invariant
            start <= end <= s@.len(),
            out@ == s@.subrange(start as int, i as int),
    {
        out.push(s[i]);
        assert(s@.subrange(start as int, i + 1) =~= s@.subrange(start as int, i as int).push(
            s@[i as int],
        ));
    }
    out
}

/// `str::trim` followed by `to_string`.
pub fn trim_str(s: &str) -> (res: String)
    ensures
        res@ == trim(s@),
{
    let chars = chars_of(s);
    let t = trim_chars(chars.as_slice());
    string_from(t.as_slice())
}

/// Whether `str::trim` leaves nothing of `s`.
pub fn is_blank(s: &str) -> (b: bool)
    ensures
        b == (trim(s@).len() == 0),
{
    let chars = chars_of(s);
    let (start, end) = trim_bounds(chars.as_slice());
    start == end
}

/// Element-wise equality of two character slices.
pub fn chars_eq(a: &[char], b: &[char]) -> (res: bool)
    ensures
        res == (a@ == b@),
{
    if a.len() != b.len() {
        return false;
    }
    let n = a.len();
    for i in 0..n
        invariant
            n == a@.len() == b@.len(),
            forall|k: int| 0 <= k < i ==> a@[k] == b@[k],
    {
        if a[i] != b[i] {
            return false;
        }
    }
    assert(a@ =~= b@);
    true
}

/// Equality of two strings by their characters.
pub fn str_eq(a: &str, b: &str) -> (res: bool)
    ensures
        res == (a@ == b@),
{
    let x = chars_of(a);
    let y = chars_of(b);
    chars_eq(x.as_slice(), y.as_slice())
}

/// ASCII lower-casing of one character (`char::to_ascii_lowercase`).
pub open spec fn ascii_lower(c: char) -> char {
    if 'A' <= c && c <= 'Z' {
        ((c as u32) + 32) as char
    } else {
        c
    }
}

pub fn ascii_lower_char(c: char) -> (r: char)
    ensures
        r == ascii_lower(c),
{
    if 'A' <= c && c <= 'Z' {
        let v: u32 = (c as u32) + 32;
        assert(0x61 <= v <= 0x7a);
        char_from_ascii(v)
    } else {
        c
    }
}

/// The character with an ASCII code point.
pub fn char_from_ascii(v: u32) -> (c: char)
    requires
        v < 128,
    ensures
        c == v as char,
        c as u32 == v,
{
    let b: u8 = v as u8;
    b as char
}

/// Equality up to ASCII case (`str::eq_ignore_ascii_case`).
pub open spec fn eq_ignore_ascii_case(a: Seq<char>, b: Seq<char>) -> bool {
    a.len() == b.len() && forall|k: int| 0 <= k < a.len() ==> ascii_lower(#[trigger] a[k]) == ascii_lower(b[k])
}

pub fn chars_eq_ignore_ascii_case(a: &[char], b: &[char]) -> (res: bool)
    ensures
        res == eq_ignore_ascii_case(a@, b@),
{
    if a.len() != b.len() {
        return false;
    }
    let n = a.len();
    for i in 0..n
        invariant
            n == a@.len() == b@.len(),
            forall|k: int| 0 <= k < i ==> ascii_lower(#[trigger] a@[k]) == ascii_lower(b@[k]),
    {
        if ascii_lower_char(a[i]) != ascii_lower_char(b[i]) {
            return false;
        }
    }
    true
}

/// Whether `c` is an ASCII decimal digit.
pub open spec fn is_digit(c: char) -> bool {
    '0' <= c && c <= '9'
}

/// The value of an ASCII digit.
pub open spec fn digit_value(c: char) -> nat {
    ((c as u32) - ('0' as u32)) as nat
}

/// Whether every character of `s` is an ASCII digit.
pub open spec fn all_digits(s: Seq<char>) -> bool {
    forall|k: int| 0 <= k < s.len() ==> is_digit(#[trigger] s[k])
}

/// The number that the decimal digits of `s` spell.
pub open spec fn decimal_value(s: Seq<char>) -> nat
    decreases s.len(),
{
    if s.len() == 0 {
        0
    } else {
        decimal_value(s.drop_last()) * 10 + digit_value(s.last())
    }
}

/// The digits that an unsigned integer parse reads: one leading `+` is allowed.
pub open spec fn unsigned_digits(s: Seq<char>) -> Seq<char> {
    if s.len() > 0 && s[0] == '+' {
        s.drop_first()
    } else {
        s
    }
}

/// What `str::parse` for an unsigned integer type bounded by `max` gives.
pub open spec fn parse_unsigned(s: Seq<char>, max: int) -> Option<nat> {
    let d = unsigned_digits(s);
    if d.len() > 0 && all_digits(d) && decimal_value(d) <= max {
        Some(decimal_value(d))
    } else {
        None
    }
}

proof fn lemma_decimal_value_step(s: Seq<char>, i: int)
    requires
        0 <= i < s.len(),
    ensures
        decimal_value(s.take(i + 1)) == decimal_value(s.take(i)) * 10 + digit_value(s[i]),
{
    assert(s.take(i + 1).drop_last() =~= s.take(i));
}

proof fn lemma_decimal_value_monotone(s: Seq<char>, i: int, j: int)
    requires
        0 <= i <= j <= s.len(),
        all_digits(s),
    ensures
        decimal_value(s.take(i)) <= decimal_value(s.take(j)),
    decreases j - i,
{
    if i < j {
        lemma_decimal_value_monotone(s, i, j - 1);
        lemma_decimal_value_step(s, j - 1);
    }
}

/// Parses an unsigned decimal number no larger than `max` (Rust's `FromStr` for
/// unsigned integers).
pub fn parse_unsigned_chars(s: &[char], max: u64) -> (res: Option<u64>)
    ensures
        res matches Some(v) ==> parse_unsigned(s@, max as int) == Some(v as nat),
        res is None ==> parse_unsigned(s@, max as int) is None,
{
    let n = s.len();
    let start: usize = if n > 0 && s[0] == '+' {
        1
    } else {
        0
    };
    let ghost d = unsigned_digits(s@);
    assert(d =~= s@.subrange(start as int, n as int));
    if start >= n {
        return None;
    }
    let mut value: u64 = 0;
    let mut i = start;
    assert(d.take(0) =~= Seq::<char>::empty());
    while i < n
        invariant
            start <= i <= n == s@.len(),
            d == s@.subrange(start as int, n as int),
            d == unsigned_digits(s@),
            all_digits(d.take((i - start) as int)),
            value as nat == decimal_value(d.take((i - start) as int)),
            value <= max,
        decreases n - i,
    {
        let c = s[i];
        if !('0' <= c && c <= '9') {
            assert(d[(i - start) as int] == c);
            assert(!is_digit(d[(i - start) as int]));
            assert(!all_digits(d));
            return None;
        }
        let dv: u64 = ((c as u32) - ('0' as u32)) as u64;
        proof {
            lemma_decimal_value_step(d, (i - start) as int);
            assert(d.take((i - start) + 1) =~= d.take((i - start) as int).push(c));
        }
        let next: u128 = (value as u128) * 10 + (dv as u128);
        if next > max as u128 {
            proof {
                assert(forall|k: int| 0 <= k < (i - start) + 1 ==> is_digit(#[trigger] d.take((i - start) + 1)[k]));
                assert(decimal_value(d.take((i - start) + 1)) == next);
                if all_digits(d) {
                    lemma_decimal_value_monotone(d, (i - start) + 1, d.len() as int);
                    assert(d.take(d.len() as int) =~= d);
                    assert(decimal_value(d) > max);
                }
            }
            return None;
        }
        value = next as u64;
        i = i + 1;
    }
    assert(d.take(d.len() as int) =~= d);
    Some(value)
}

// ---------------------------------------------------------------------------
// Decimal rendering
// ---------------------------------------------------------------------------
/// The decimal digits of `n`, as `to_string` writes them.
pub open spec fn decimal_string(n: nat) -> Seq<char>
    decreases n,
{
    if n < 10 {
        seq![((n + ('0' as nat)) as u32) as char]
    } else {
        decimal_string(n / 10) + seq![(((n % 10) + ('0' as nat)) as u32) as char]
    }
}

/// `n.to_string()`.
pub fn u64_to_decimal(n: u64) -> (res: String)
    ensures
        res@ == decimal_string(n as nat),
{
    let mut digits: Vec<char> = Vec::new();
    let mut m = n;
    // Collect digits least significant first.
    while m >= 10
        invariant
            decimal_string(n as nat) == decimal_string(m as nat) + digits@.reverse(),
        decreases m,
    {
        let d: u32 = (m % 10) as u32;
        let c = char_from_ascii(d + 48);
        proof {
            assert(decimal_string(m as nat) == decimal_string((m / 10) as nat) + seq![c]);
            assert(digits@.push(c).reverse() =~= seq![c] + digits@.reverse());
        }
        digits.push(c);
        m = m / 10;
    }
    let c = char_from_ascii((m as u32) + 48);
    assert(decimal_string(m as nat) == seq![c]);
    let mut out = String::new();
    push_char(&mut out, c);
    let k = digits.len();
    let mut i = k;
    while i > 0
        invariant
            i <= k == digits@.len(),
            out@ + digits@.take(i as int).reverse() == decimal_string(n as nat),
        decreases i,
    {
        proof {
            assert(digits@.take(i as int).reverse() =~= seq![digits@[i - 1]] + digits@.take(
                i - 1,
            ).reverse());
        }
        push_char(&mut out, digits[i - 1]);
        i = i - 1;
    }
    assert(digits@.take(0).reverse() =~= Seq::<char>::empty());
    assert(out@ + Seq::<char>::empty() =~= out@);
    out
}

// ---------------------------------------------------------------------------
// Floating-point literals
// ---------------------------------------------------------------------------
/// `s` ASCII-lower-cased.
pub open spec fn lower_ascii(s: Seq<char>) -> Seq<char> {
    s.map_values(|c: char| ascii_lower(c))
}

/// `s` without one leading `+` or `-`.
pub open spec fn strip_sign(s: Seq<char>) -> Seq<char> {
    if s.len() > 0 && (s[0] == '+' || s[0] == '-') {
        s.drop_first()
    } else {
        s
    }
}

/// A mantissa: digits with at most one `.`, and at least one digit.
pub open spec fn is_mantissa(m: Seq<char>) -> bool {
    &&& forall|k: int| 0 <= k < m.len() ==> is_digit(#[trigger] m[k]) || m[k] == '.'
    &&& forall|i: int, j: int| 0 <= i < j < m.len() ==> !(#[trigger] m[i] == '.' && #[trigger] m[j] == '.')
    &&& exists|k: int| 0 <= k < m.len() && is_digit(#[trigger] m[k])
}

/// An exponent after its `e`: an optional sign and at least one digit.
pub open spec fn is_exponent(e: Seq<char>) -> bool {
    let d = strip_sign(e);
    d.len() > 0 && all_digits(d)
}

/// The index of the first `c` in `s`, or `s.len()` when there is none.
pub open spec fn find_char(s: Seq<char>, c: char) -> int
    decreases s.len(),
{
    if s.len() == 0 {
        0
    } else if s[0] == c {
        0
    } else {
        1 + find_char(s.drop_first(), c)
    }
}

pub proof fn lemma_find_char(s: Seq<char>, c: char)
    ensures
        0 <= find_char(s, c) <= s.len(),
        forall|k: int| 0 <= k < find_char(s, c) ==> s[k] != c,
        find_char(s, c) < s.len() ==> s[find_char(s, c)] == c,
    decreases s.len(),
{
    if s.len() > 0 && s[0] != c {
        lemma_find_char(s.drop_first(), c);
        assert forall|k: int| 0 <= k < find_char(s, c) implies s[k] != c by {
            if k > 0 {
                assert(s[k] == s.drop_first()[k - 1]);
            }
        }
    }
}

/// A decimal number: a mantissa and an optional exponent after the first `e`.
pub open spec fn is_decimal_number(b: Seq<char>) -> bool {
    let i = find_char(b, 'e');
    if i < b.len() {
        is_mantissa(b.subrange(0, i)) && is_exponent(b.subrange(i + 1, b.len() as int))
    } else {
        is_mantissa(b)
    }
}

/// Whether `str::parse::<f64>` accepts `s`: after ASCII lower-casing, an
/// optional sign followed by `inf`, `infinity`, `nan`, or a decimal number.
pub open spec fn is_float_text(s: Seq<char>) -> bool {
    let b = strip_sign(lower_ascii(s));
    b == "inf"@ || b == "infinity"@ || b == "nan"@ || is_decimal_number(b)
}

fn lower_chars(s: &[char]) -> (res: Vec<char>)
    ensures
        res@ == lower_ascii(s@),
{
    let mut out: Vec<char> = Vec::new();
    for i in 0..s.len()
        invariant
            out@.len() == i,
            i <= s@.len(),
            forall|k: int| 0 <= k < i ==> out@[k] == ascii_lower(s@[k]),
    {
        out.push(ascii_lower_char(s[i]));
    }
    assert(out@ =~= lower_ascii(s@));
    out
}

fn mantissa_ok(s: &[char], from: usize, to: usize) -> (res: bool)
    requires
        from <= to <= s@.len(),
    ensures
        res == is_mantissa(s@.subrange(from as int, to as int)),
{
    let ghost m = s@.subrange(from as int, to as int);
    let mut dots: usize = 0;
    let mut digits: usize = 0;
    let mut i = from;
    let ghost mut dot_at: int = -1;
    let ghost mut digit_at: int = -1;
    while i < to
        invariant
            from <= i <= to <= s@.len(),
            m == s@.subrange(from as int, to as int),
            forall|k: int| 0 <= k < i - from ==> is_digit(#[trigger] m[k]) || m[k] == '.',
            dots <= 1,
            dots == 0 ==> forall|k: int| 0 <= k < i - from ==> m[k] != '.',
            dots == 1 ==> 0 <= dot_at < i - from && m[dot_at] == '.' && forall|k: int|
                0 <= k < i - from && k != dot_at ==> m[k] != '.',
            digits == 0 ==> forall|k: int| 0 <= k < i - from ==> !is_digit(#[trigger] m[k]),
            digits > 0 ==> 0 <= digit_at < i - from && is_digit(m[digit_at]),
            digits <= i - from,
        decreases to - i,
    {
        let c = s[i];
        assert(m[i - from] == c);
        if c == '.' {
            if dots == 1 {
                assert(m[dot_at] == '.' && m[(i - from) as int] == '.');
                return false;
            }
            dots = 1;
            proof {
                dot_at = (i - from) as int;
            }
        } else if '0' <= c && c <= '9' {
            digits = digits + 1;
            proof {
                digit_at = (i - from) as int;
            }
        } else {
            assert(!(is_digit(m[(i - from) as int]) || m[(i - from) as int] == '.'));
            return false;
        }
        i = i + 1;
    }
    if digits == 0 {
        assert(forall|k: int| 0 <= k < m.len() ==> !is_digit(#[trigger] m[k]));
        return false;
    }
    assert(is_digit(m[digit_at]));
    true
}

fn exponent_ok(s: &[char], from: usize) -> (res: bool)
    requires
        from <= s@.len(),
    ensures
        res == is_exponent(s@.subrange(from as int, s@.len() as int)),
{
    let n = s.len();
    let ghost e = s@.subrange(from as int, n as int);
    let start = if from < n && (s[from] == '+' || s[from] == '-') {
        from + 1
    } else {
        from
    };
    let ghost d = strip_sign(e);
    assert(d =~= s@.subrange(start as int, n as int));
    if start >= n {
        return false;
    }
    for i in start..n
        invariant
            start <= n == s@.len(),
            from <= n,
            d == s@.subrange(start as int, n as int),
            d == strip_sign(s@.subrange(from as int, n as int)),
            forall|k: int| 0 <= k < i - start ==> is_digit(#[trigger] d[k]),
    {
        if !('0' <= s[i] && s[i] <= '9') {
            assert(d[i - start] == s@[i as int]);
            assert(!is_digit(d[(i - start) as int]));
            assert(!all_digits(d));
            return false;
        }
    }
    true
}

fn literal_eq(s: &[char], from: usize, lit: &str) -> (res: bool)
    requires
        from <= s@.len(),
    ensures
        res == (s@.subrange(from as int, s@.len() as int) == lit@),
{
    let l = chars_of(lit);
    let n = s.len();
    if n - from != l.len() {
        assert(s@.subrange(from as int, n as int).len() != l@.len());
        return false;
    }
    for i in 0..l.len()
        invariant
            n == s@.len(),
            from <= n,
            l@ == lit@,
            n - from == l@.len(),
            forall|k: int| 0 <= k < i ==> s@[from + k] == l@[k],
    {
        if s[from + i] != l[i] {
            assert(s@.subrange(from as int, n as int)[i as int] != l@[i as int]);
            return false;
        }
    }
    assert(s@.subrange(from as int, n as int) =~= l@);
    true
}

/// The index of the first `c` at or after `from`, or `s.len()`.
fn find_from(s: &[char], from: usize, c: char) -> (res: usize)
    requires
        from <= s@.len(),
    ensures
        from <= res <= s@.len(),
        res - from == find_char(s@.subrange(from as int, s@.len() as int), c),
{
    let n = s.len();
    let mut e = from;
    while e < n && s[e] != c
        invariant
            from <= e <= n == s@.len(),
            find_char(s@.subrange(from as int, n as int), c) == (e - from) + find_char(
                s@.subrange(e as int, n as int),
                c,
            ),
        decreases n - e,
    {
        assert(s@.subrange(e as int, n as int).drop_first() =~= s@.subrange(e + 1, n as int));
        e = e + 1;
    }
    e
}

proof fn lemma_lower_keeps_plain(s: Seq<char>)
    requires
        forall|k: int| 0 <= k < s.len() ==> !('A' <= #[trigger] s[k] && s[k] <= 'Z'),
    ensures
        lower_ascii(s) == s,
{
    assert(lower_ascii(s) =~= s);
}

proof fn lemma_no_char_found(s: Seq<char>, c: char)
    requires
        forall|k: int| 0 <= k < s.len() ==> #[trigger] s[k] != c,
    ensures
        find_char(s, c) == s.len(),
{
    lemma_find_char(s, c);
}

/// Digits with at most one `.` somewhere among them, and at least one digit,
/// read as a number, with or without a leading sign.
pub proof fn lemma_decimal_text_is_number(a: Seq<char>, b: Seq<char>)
    requires
        all_digits(a),
        all_digits(b),
        a.len() + b.len() > 0,
    ensures
        is_float_text(a + b),
        is_float_text(seq!['-'] + a + b),
        is_float_text(seq!['+'] + a + b),
        is_float_text(a + seq!['.'] + b),
        is_float_text(seq!['-'] + a + seq!['.'] + b),
        is_float_text(seq!['+'] + a + seq!['.'] + b),
{
    let plain = a + b;
    let dotted = a + seq!['.'] + b;
    assert forall|k: int| 0 <= k < plain.len() implies is_digit(#[trigger] plain[k]) by {
        if k < a.len() {
            assert(plain[k] == a[k]);
        } else {
            assert(plain[k] == b[k - a.len()]);
        }
    }
    assert forall|k: int| 0 <= k < dotted.len() implies is_digit(#[trigger] dotted[k]) || dotted[k]
        == '.' by {
        if k < a.len() {
            assert(dotted[k] == a[k]);
        } else if k > a.len() {
            assert(dotted[k] == b[k - a.len() - 1]);
        }
    }
    assert forall|i: int, j: int| 0 <= i < j < dotted.len() implies !(#[trigger] dotted[i] == '.'
        && #[trigger] dotted[j] == '.') by {
        if i < a.len() {
            assert(dotted[i] == a[i]);
        } else if i > a.len() {
            assert(dotted[i] == b[i - a.len() - 1]);
        }
        if j < a.len() {
            assert(dotted[j] == a[j]);
        } else if j > a.len() {
            assert(dotted[j] == b[j - a.len() - 1]);
        }
    }
    let w: int = if a.len() > 0 { 0 } else { 1 };
    assert(is_digit(plain[0]));
    assert(is_digit(dotted[w]));
    assert(is_mantissa(plain));
    assert(is_mantissa(dotted));
    assert(seq!['-'] + a + b =~= seq!['-'] + plain);
    assert(seq!['+'] + a + b =~= seq!['+'] + plain);
    assert(seq!['-'] + a + seq!['.'] + b =~= seq!['-'] + dotted);
    assert(seq!['+'] + a + seq!['.'] + b =~= seq!['+'] + dotted);
    lemma_number_with_sign(plain);
    lemma_number_with_sign(dotted);
}

proof fn lemma_number_with_sign(m: Seq<char>)
    requires
        is_mantissa(m),
    ensures
        is_float_text(m),
        is_float_text(seq!['-'] + m),
        is_float_text(seq!['+'] + m),
{
    assert(m.len() > 0);
    assert(m[0] != '+' && m[0] != '-');
    lemma_lower_keeps_plain(m);
    lemma_no_char_found(m, 'e');
    let neg = seq!['-'] + m;
    let pos = seq!['+'] + m;
    assert forall|k: int| 0 <= k < neg.len() implies !('A' <= #[trigger] neg[k] && neg[k] <= 'Z') by {
        if k > 0 {
            assert(neg[k] == m[k - 1]);
        }
    }
    assert forall|k: int| 0 <= k < pos.len() implies !('A' <= #[trigger] pos[k] && pos[k] <= 'Z') by {
        if k > 0 {
            assert(pos[k] == m[k - 1]);
        }
    }
    lemma_lower_keeps_plain(neg);
    lemma_lower_keeps_plain(pos);
    assert(strip_sign(neg) =~= m);
    assert(strip_sign(pos) =~= m);
}

/// A number followed by `e` or `E` and a run of digits, signed or not, is a
/// number too.
pub proof fn lemma_exponent_text_is_number(m: Seq<char>, sign: Seq<char>, x: Seq<char>, e: char)
    requires
        is_mantissa(m),
        sign == Seq::<char>::empty() || sign == seq!['-'] || sign == seq!['+'],
        x.len() > 0,
        all_digits(x),
        e == 'e' || e == 'E',
    ensures
        is_float_text(m + seq![e] + sign + x),
{
    let s = m + seq![e] + sign + x;
    assert(m.len() > 0);
    assert(s[0] == m[0]);
    assert(m[0] != '+' && m[0] != '-');
    let low = lower_ascii(s);
    let lm = m + seq!['e'] + sign + x;
    assert forall|k: int| 0 <= k < lm.len() implies !('A' <= #[trigger] lm[k] && lm[k] <= 'Z') by {
        if k < m.len() {
            assert(lm[k] == m[k]);
        } else if k > m.len() && k < m.len() + 1 + sign.len() {
            assert(lm[k] == sign[k - m.len() - 1]);
        } else if k >= m.len() + 1 + sign.len() {
            assert(lm[k] == x[k - m.len() - 1 - sign.len()]);
        }
    }
    assert forall|k: int| 0 <= k < s.len() implies #[trigger] low[k] == lm[k] by {
        if k < m.len() {
            assert(s[k] == m[k]);
            assert(lm[k] == m[k]);
        } else if k == m.len() {
        } else if k < m.len() + 1 + sign.len() {
            assert(s[k] == sign[k - m.len() - 1]);
            assert(lm[k] == sign[k - m.len() - 1]);
        } else {
            assert(s[k] == x[k - m.len() - 1 - sign.len()]);
            assert(lm[k] == x[k - m.len() - 1 - sign.len()]);
        }
    }
    assert(low =~= lm);
    assert(strip_sign(lm) == lm);
    assert forall|k: int| 0 <= k < m.len() implies #[trigger] lm[k] != 'e' by {
        assert(lm[k] == m[k]);
    }
    lemma_find_char(lm, 'e');
    let i = find_char(lm, 'e');
    assert(lm[m.len() as int] == 'e');
    assert(i == m.len()) by {
        if i < m.len() {
            assert(lm[i] == m[i]);
        }
    }
    assert(lm.subrange(0, i) =~= m);
    let rest = lm.subrange(i + 1, lm.len() as int);
    assert(rest =~= sign + x);
    assert(strip_sign(sign + x) =~= x) by {
        if sign.len() == 0 {
            assert(sign + x =~= x);
            assert(x[0] != '+' && x[0] != '-');
        }
    }
}

/// Text with a character that no number can hold (anything but digits, `.`,
/// signs, an exponent `e`, and the letters of `inf`, `infinity` and `nan`,
/// in either case) is not a number.
pub proof fn lemma_foreign_char_not_number(s: Seq<char>, k: int)
    requires
        0 <= k < s.len(),
        ({
            let d = ascii_lower(s[k]);
            !is_digit(d) && d != '.' && d != '+' && d != '-' && d != 'e' && d != 'i' && d != 'n' && d != 'f'
                && d != 't' && d != 'y' && d != 'a'
        }),
    ensures
        !is_float_text(s),
{
    let l = lower_ascii(s);
    let d = ascii_lower(s[k]);
    assert(l[k] == d);
    let b = strip_sign(l);
    let kb: int = if l.len() > 0 && (l[0] == '+' || l[0] == '-') {
        k - 1
    } else {
        k
    };
    assert(0 <= kb < b.len() && b[kb] == d);
    reveal_strlit("inf");
    reveal_strlit("infinity");
    reveal_strlit("nan");
    assert(b != "inf"@) by {
        if b == "inf"@ {
            assert(b[kb] == "inf"@[kb]);
        }
    }
    assert(b != "infinity"@) by {
        if b == "infinity"@ {
            assert(b[kb] == "infinity"@[kb]);
        }
    }
    assert(b != "nan"@) by {
        if b == "nan"@ {
            assert(b[kb] == "nan"@[kb]);
        }
    }
    lemma_find_char(b, 'e');
    let i = find_char(b, 'e');
    if i < b.len() {
        assert(kb != i);
        if kb < i {
            let m = b.subrange(0, i);
            assert(m[kb] == d);
            assert(!is_mantissa(m));
        } else {
            let e = b.subrange(i + 1, b.len() as int);
            let p = kb - i - 1;
            assert(e[p] == d);
            let x = strip_sign(e);
            let q: int = if e.len() > 0 && (e[0] == '+' || e[0] == '-') {
                p - 1
            } else {
                p
            };
            assert(x[q] == d);
            assert(!all_digits(x));
        }
    } else {
        assert(!is_mantissa(b)) by {
            assert(!(is_digit(b[kb]) || b[kb] == '.'));
        }
    }
}

/// Empty text is not a number.
pub proof fn lemma_empty_text_is_not_number()
    ensures
        !is_float_text(Seq::<char>::empty()),
{
    let s = Seq::<char>::empty();
    assert(lower_ascii(s) =~= s);
    assert(strip_sign(s) =~= s);
    reveal_strlit("inf");
    reveal_strlit("infinity");
    reveal_strlit("nan");
    assert(find_char(s, 'e') == 0);
}

/// Whether `str::parse::<f64>` would accept `s`.
pub fn is_float_literal(s: &str) -> (res: bool)
    ensures
        res == is_float_text(s@),
{
    let raw = chars_of(s);
    let lower = lower_chars(raw.as_slice());
    let n = lower.len();
    let from: usize = if n > 0 && (lower[0] == '+' || lower[0] == '-') {
        1
    } else {
        0
    };
    let ghost b = strip_sign(lower@);
    assert(b =~= lower@.subrange(from as int, n as int));
    if literal_eq(lower.as_slice(), from, "inf") || literal_eq(lower.as_slice(), from, "infinity")
        || literal_eq(lower.as_slice(), from, "nan") {
        return true;
    }
    let e = find_from(lower.as_slice(), from, 'e');
    proof {
        lemma_find_char(b, 'e');
    }
    if e < n {
        assert(b.subrange(0, (e - from) as int) =~= lower@.subrange(from as int, e as int));
        assert(b.subrange((e - from) + 1, b.len() as int) =~= lower@.subrange(e + 1, n as int));
        mantissa_ok(lower.as_slice(), from, e) && exponent_ok(lower.as_slice(), e + 1)
    } else {
        mantissa_ok(lower.as_slice(), from, n)
    }
}

// ---------------------------------------------------------------------------
// Lines
// ---------------------------------------------------------------------------
/// `line` without one trailing carriage return.
pub open spec fn strip_cr(line: Seq<char>) -> Seq<char> {
    if line.len() > 0 && line.last() == '\r' {
        line.drop_last()
    } else {
        line
    }
}

/// The lines of `s` as `str::lines` gives them: split at `\n`, a `\r` before
/// the `\n` dropped, no empty line after a final `\n`.
pub open spec fn split_lines(s: Seq<char>) -> Seq<Seq<char>>
    decreases s.len(),
{
    if s.len() == 0 {
        Seq::empty()
    } else {
        let i = find_char(s, '\n');
        if i < s.len() {
            proof {
                lemma_find_char(s, '\n');
            }
            seq![strip_cr(s.subrange(0, i))] + split_lines(s.subrange(i + 1, s.len() as int))
        } else {
            seq![s]
        }
    }
}

fn index_from(cs: &Vec<char>, from: usize, c: char) -> (res: usize)
    requires
        from <= cs@.len(),
    ensures
        from <= res <= cs@.len(),
        res - from == find_char(cs@.subrange(from as int, cs@.len() as int), c),
{
    let n = cs.len();
    let mut e = from;
    while e < n && cs[e] != c
        invariant
            from <= e <= n == cs@.len(),
            find_char(cs@.subrange(from as int, n as int), c) == (e - from) + find_char(
                cs@.subrange(e as int, n as int),
                c,
            ),
        decreases n - e,
    {
        assert(cs@.subrange(e as int, n as int).drop_first() =~= cs@.subrange(e + 1, n as int));
        e = e + 1;
    }
    e
}

/// The lines of `s` (`str::lines`).
pub fn lines_of(s: &str) -> (res: Vec<String>)
    ensures
        res@.map_values(|l: String| l@) == split_lines(s@),
{
    let cs = chars_of(s);
    let n = cs.len();
    let mut lines: Vec<String> = Vec::new();
    let mut start: usize = 0;
    assert(cs@.subrange(0, n as int) =~= cs@);
    assert(lines@.map_values(|l: String| l@) =~= Seq::<Seq<char>>::empty());
    while start < n
        invariant
            start <= n == cs@.len(),
            cs@ == s@,
            lines@.map_values(|l: String| l@) + split_lines(cs@.subrange(start as int, n as int)) == split_lines(cs@),
        decreases n - start,
    {
        let ghost rest = cs@.subrange(start as int, n as int);
        let e = index_from(&cs, start, '\n');
        let ghost before = lines@.map_values(|l: String| l@);
        let mut line: Vec<char> = Vec::new();
        let mut j = start;
        while j < e
            invariant
                start <= j <= e <= n == cs@.len(),
                line@ == cs@.subrange(start as int, j as int),
            decreases e - j,
        {
            line.push(cs[j]);
            assert(cs@.subrange(start as int, j + 1) =~= cs@.subrange(start as int, j as int).push(cs@[j as int]));
            j = j + 1;
        }
        assert(rest.subrange(0, (e - start) as int) =~= line@);
        if e < n {
            if line.len() > 0 && line[line.len() - 1] == '\r' {
                line.pop();
            }
            lines.push(string_from(line.as_slice()));
            assert(rest.subrange((e - start) + 1, rest.len() as int) =~= cs@.subrange(e + 1, n as int));
            assert(lines@.map_values(|l: String| l@) =~= before.push(strip_cr(rest.subrange(0, (e - start) as int))));
            assert(before.push(strip_cr(rest.subrange(0, (e - start) as int))) + split_lines(cs@.subrange(e + 1, n as int)) =~= before + split_lines(rest));
            start = e + 1;
        } else {
            lines.push(string_from(line.as_slice()));
            assert(lines@.map_values(|l: String| l@) =~= before.push(rest));
            assert(cs@.subrange(n as int, n as int) =~= Seq::<char>::empty());
            assert(before.push(rest) + split_lines(cs@.subrange(n as int, n as int)) =~= before + split_lines(rest));
            start = n;
        }
    }
    assert(cs@.subrange(n as int, n as int) =~= Seq::<char>::empty());
    assert(lines@.map_values(|l: String| l@) + Seq::<Seq<char>>::empty() =~= lines@.map_values(|l: String| l@));
    lines
}

} // verus!
