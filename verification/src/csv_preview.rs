//! Reading CSV text: decoding the bytes of a file, splitting lines into
//! cells, and guessing the delimiter, header row and first data row of a
//! file the user is about to configure.
use vstd::prelude::*;
use vstd::utf8::{decode_utf8, valid_utf8};

use crate::models::owned;
use crate::responses::CsvPreviewResponse;
use crate::text::{chars_of, is_float_literal, is_float_text, push_char, string_from};
use crate::timestamp::{naive_date_parse, naive_datetime_parse, spec_parse_naive_date, spec_parse_naive_datetime};

verus! {

// ---------------------------------------------------------------------------
// Decoding
// ---------------------------------------------------------------------------
/// `String::from_utf8`: the text that `bytes` encode in UTF-8, or `None` when
/// they are not valid UTF-8.
#[verifier::external_body]
fn utf8_decode(bytes: &[u8]) -> (res: Option<String>)
    ensures
        match res {
            Some(s) => valid_utf8(bytes@) && s@ == decode_utf8(bytes@),
            None => !valid_utf8(bytes@),
        },
{
    String::from_utf8(bytes.to_vec()).ok()
}

/// Each byte read as the character with that code (ISO-8859-1).
pub open spec fn latin1(bytes: Seq<u8>) -> Seq<char> {
    bytes.map_values(|b: u8| b as char)
}

pub open spec fn has_utf8_bom(bytes: Seq<u8>) -> bool {
    bytes.len() >= 3 && bytes[0] == 0xEF && bytes[1] == 0xBB && bytes[2] == 0xBF
}

pub open spec fn msg_bad_encoding() -> Seq<char> {
    "Couldn't read the file encoding. Try exporting as UTF-8."@
}

/// The text of a file and the name of its encoding: UTF-8 behind a byte-order
/// mark, plain UTF-8, or else Latin-1.
pub open spec fn decoded_text(bytes: Seq<u8>) -> Result<(Seq<char>, Seq<char>), Seq<char>> {
    if has_utf8_bom(bytes) {
        let rest = bytes.subrange(3, bytes.len() as int);
        if valid_utf8(rest) {
            Ok((decode_utf8(rest), "utf-8-sig"@))
        } else {
            Err(msg_bad_encoding())
        }
    } else if valid_utf8(bytes) {
        Ok((decode_utf8(bytes), "utf-8"@))
    } else {
        Ok((latin1(bytes), "latin-1"@))
    }
}

/// Decodes the bytes of a CSV file (see `decoded_text`).
pub fn decode_text(bytes: &[u8]) -> (res: Result<(String, String), String>)
    ensures
        match (res, decoded_text(bytes@)) {
            (Ok((t, e)), Ok((tv, ev))) => t@ == tv && e@ == ev,
            (Err(e), Err(m)) => e@ == m,
            _ => false,
        },
{
    if bytes.len() >= 3 && bytes[0] == 0xEF && bytes[1] == 0xBB && bytes[2] == 0xBF {
        let mut rest: Vec<u8> = Vec::new();
        let mut i: usize = 3;
        while i < bytes.len()
            invariant
                3 <= i <= bytes@.len(),
                rest@ == bytes@.subrange(3, i as int),
            decreases bytes@.len() - i,
        {
            rest.push(bytes[i]);
            assert(bytes@.subrange(3, i + 1) =~= bytes@.subrange(3, i as int).push(bytes@[i as int]));
            i = i + 1;
        }
        return match utf8_decode(rest.as_slice()) {
            Some(text) => Ok((text, owned("utf-8-sig"))),
            None => Err(owned("Couldn't read the file encoding. Try exporting as UTF-8.")),
        };
    }
    if let Some(text) = utf8_decode(bytes) {
        return Ok((text, owned("utf-8")));
    }
    let mut text = String::new();
    for i in 0..bytes.len()
        invariant
            text@ == latin1(bytes@.take(i as int)),
    {
        let ghost before = text@;
        push_char(&mut text, bytes[i] as char);
        assert(latin1(bytes@.take(i + 1)) =~= latin1(bytes@.take(i as int)).push(bytes@[i as int] as char));
    }
    assert(bytes@.take(bytes@.len() as int) =~= bytes@);
    Ok((text, owned("latin-1")))
}

// ---------------------------------------------------------------------------
// Lines
// ---------------------------------------------------------------------------
/// The first record the `csv` crate reads from `line` with `delimiter` (as a
/// byte) and no header row; `None` when there is none or it is malformed.
pub uninterp spec fn csv_first_record(line: Seq<char>, delimiter: char) -> Option<Seq<Seq<char>>>;

/// Reads the first record of `line` with the `csv` crate's `ReaderBuilder`
/// (no headers, `delimiter` as a byte); the contract claims only that the
/// result is the reader's, named `csv_first_record`.
#[verifier::external_body]
fn first_csv_record(line: &str, delimiter: char) -> (res: Option<Vec<String>>)
    ensures
        match res {
            Some(r) => csv_first_record(line@, delimiter) == Some(r@.map_values(|c: String| c@)),
            None => csv_first_record(line@, delimiter) is None,
        },
{
    let mut reader = csv::ReaderBuilder::new().has_headers(false).delimiter(delimiter as u8).from_reader(
        line.as_bytes(),
    );
    reader.records().next().transpose().ok().flatten().map(
        |record| record.iter().map(|value| value.to_string()).collect(),
    )
}

/// The cells of a line: its first CSV record, or the whole line as one cell
/// when it has none.
pub open spec fn line_cells(line: Seq<char>, delimiter: char) -> Seq<Seq<char>> {
    match csv_first_record(line, delimiter) {
        Some(r) => r,
        None => seq![line],
    }
}

pub fn parse_line(line: &str, delimiter: char) -> (res: Vec<String>)
    ensures
        res@.map_values(|c: String| c@) == line_cells(line@, delimiter),
{
    match first_csv_record(line, delimiter) {
        Some(r) => r,
        None => {
            let mut v: Vec<String> = Vec::new();
            v.push(owned(line));
            assert(v@.map_values(|c: String| c@) =~= seq![line@]);
            v
        },
    }
}

// ---------------------------------------------------------------------------
// Delimiter
// ---------------------------------------------------------------------------
/// The delimiters tried, in order of preference.
pub open spec fn delimiter_candidates() -> Seq<char> {
    seq![',', '\t', ';', '|', ' ']
}

/// How many of `counts` equal `c`.
pub open spec fn occurrences(counts: Seq<int>, c: int) -> int
    decreases counts.len(),
{
    if counts.len() == 0 {
        0
    } else {
        occurrences(counts.drop_last(), c) + if counts.last() == c {
            1int
        } else {
            0
        }
    }
}

/// The most frequent count, the larger count breaking ties, with its number
/// of occurrences, over the first `n` counts.
pub open spec fn mode_upto(counts: Seq<int>, n: int) -> (int, int)
    decreases n,
{
    if n <= 0 {
        (0, 0)
    } else {
        let p = mode_upto(counts, n - 1);
        let c = counts[n - 1];
        let o = occurrences(counts, c);
        if o > p.0 || (o == p.0 && c > p.1) {
            (o, c)
        } else {
            p
        }
    }
}

/// The score of a delimiter: how many lines share the most common cell count
/// times that count.
pub open spec fn delimiter_score(counts: Seq<int>) -> int {
    let m = mode_upto(counts, counts.len() as int);
    m.0 * m.1
}

/// The cell count of each line under `delimiter`.
pub open spec fn cell_counts(lines: Seq<Seq<char>>, delimiter: char) -> Seq<int> {
    lines.map_values(|l: Seq<char>| line_cells(l, delimiter).len() as int)
}

/// The non-blank lines.
pub open spec fn non_blank(lines: Seq<Seq<char>>) -> Seq<Seq<char>>
    decreases lines.len(),
{
    if lines.len() == 0 {
        lines
    } else if crate::text::trim(lines.last()).len() == 0 {
        non_blank(lines.drop_last())
    } else {
        non_blank(lines.drop_last()).push(lines.last())
    }
}

/// The best delimiter among the first `k` candidates and its score: a later
/// candidate wins only with a strictly higher score; `,` with score -1
/// before any.
pub open spec fn best_delimiter_upto(lines: Seq<Seq<char>>, k: int) -> (char, int)
    decreases k,
{
    if k <= 0 {
        (',', -1)
    } else {
        let prev = best_delimiter_upto(lines, k - 1);
        let d = delimiter_candidates()[k - 1];
        if lines.len() == 0 {
            prev
        } else {
            let score = delimiter_score(cell_counts(lines, d));
            if score > prev.1 {
                (d, score)
            } else {
                prev
            }
        }
    }
}

/// The delimiter that splits the non-blank lines into the most consistent
/// rows.
pub open spec fn detected_delimiter(lines: Seq<Seq<char>>) -> char {
    best_delimiter_upto(non_blank(lines), 5).0
}

fn count_occurrences(counts: &Vec<usize>, c: usize) -> (res: usize)
    ensures
        res == occurrences(counts@.map_values(|x: usize| x as int), c as int),
        res <= counts@.len(),
{
    let ghost cv = counts@.map_values(|x: usize| x as int);
    let mut n: usize = 0;
    for i in 0..counts.len()
        invariant
            cv == counts@.map_values(|x: usize| x as int),
            n == occurrences(cv.take(i as int), c as int),
            n <= i,
    {
        assert(cv.take(i + 1).drop_last() =~= cv.take(i as int));
        assert(cv.take(i + 1).last() == counts@[i as int] as int);
        if counts[i] == c {
            n = n + 1;
        }
    }
    assert(cv.take(counts@.len() as int) =~= cv);
    n
}

fn score_of(counts: &Vec<usize>) -> (res: u128)
    ensures
        res == delimiter_score(counts@.map_values(|x: usize| x as int)),
{
    let ghost cv = counts@.map_values(|x: usize| x as int);
    let mut best_occ: usize = 0;
    let mut best_count: usize = 0;
    for i in 0..counts.len()
        invariant
            cv == counts@.map_values(|x: usize| x as int),
            (best_occ as int, best_count as int) == mode_upto(cv, i as int),
    {
        let c = counts[i];
        let o = count_occurrences(counts, c);
        assert(cv[i as int] == c as int);
        if o > best_occ || (o == best_occ && c > best_count) {
            best_occ = o;
            best_count = c;
        }
    }
    assert(best_occ as u128 * best_count as u128 <= u64::MAX as u128 * u64::MAX as u128) by (nonlinear_arith)
        requires
            best_occ <= u64::MAX,
            best_count <= u64::MAX,
    ;
    (best_occ as u128) * (best_count as u128)
}

/// Guesses the delimiter of the sampled lines (see `detected_delimiter`).
pub fn detect_delimiter(lines: &Vec<String>) -> (res: char)
    ensures
        res == detected_delimiter(lines@.map_values(|l: String| l@)),
{
    let ghost lv = lines@.map_values(|l: String| l@);
    let mut sampled: Vec<&str> = Vec::new();
    assert(lv.take(0) =~= Seq::<Seq<char>>::empty());
    for i in 0..lines.len()
        invariant
            lv == lines@.map_values(|l: String| l@),
            sampled@.map_values(|l: &str| l@) == non_blank(lv.take(i as int)),
    {
        assert(lv.take(i + 1).drop_last() =~= lv.take(i as int));
        assert(lv.take(i + 1).last() == lines@[i as int]@);
        if !crate::text::is_blank(lines[i].as_str()) {
            let ghost before = sampled@.map_values(|l: &str| l@);
            sampled.push(lines[i].as_str());
            assert(sampled@.map_values(|l: &str| l@) =~= before.push(lines@[i as int]@));
        }
    }
    assert(lv.take(lines@.len() as int) =~= lv);
    let ghost sv = non_blank(lv);
    let candidates: [char; 5] = [',', '\t', ';', '|', ' '];
    assert(candidates@ =~= delimiter_candidates());
    let mut best: char = ',';
    let mut best_score: Option<u128> = None;
    let mut k: usize = 0;
    while k < 5
        invariant
            k <= 5,
            candidates@ == delimiter_candidates(),
            sv == sampled@.map_values(|l: &str| l@),
            (best, match best_score {
                Some(b) => b as int,
                None => -1,
            }) == best_delimiter_upto(sv, k as int),
        decreases 5 - k,
    {
        let d = candidates[k];
        if sampled.len() > 0 {
            let mut counts: Vec<usize> = Vec::new();
            for j in 0..sampled.len()
                invariant
                    counts@.map_values(|x: usize| x as int) == cell_counts(sv.take(j as int), d),
                    sv == sampled@.map_values(|l: &str| l@),
            {
                let cells = parse_line(sampled[j], d);
                let ghost before = counts@.map_values(|x: usize| x as int);
                counts.push(cells.len());
                assert(sv[j as int] == sampled@[j as int]@);
                assert(cells@.map_values(|c: String| c@).len() == cells@.len());
                assert(cells@.len() == line_cells(sv[j as int], d).len());
                assert(cell_counts(sv.take(j + 1), d) =~= cell_counts(sv.take(j as int), d).push(
                    line_cells(sv[j as int], d).len() as int,
                ));
                assert(counts@.map_values(|x: usize| x as int) =~= cell_counts(sv.take(j + 1), d));
            }
            assert(sv.take(sampled@.len() as int) =~= sv);
            let score = score_of(&counts);
            let better = match best_score {
                Some(b) => score > b,
                None => true,
            };
            if better {
                best = d;
                best_score = Some(score);
            }
        }
        k = k + 1;
    }
    best
}

// ---------------------------------------------------------------------------
// Header and data rows
// ---------------------------------------------------------------------------
/// Whether a cell reads as a number, or as a date or date-time in one of the
/// common layouts.
pub open spec fn looks_numeric_or_timestamp(value: Seq<char>) -> bool {
    let t = crate::text::trim(value);
    is_float_text(value) || (t.len() > 0 && (spec_parse_naive_datetime(t, "%Y-%m-%d %H:%M:%S"@) is Some
        || spec_parse_naive_datetime(t, "%Y-%m-%dT%H:%M:%S"@) is Some || spec_parse_naive_datetime(
        t,
        "%m/%d/%Y %H:%M"@,
    ) is Some || spec_parse_naive_date(t, "%Y-%m-%d"@) is Some))
}

pub fn looks_numeric_or_timestamp_exec(value: &str) -> (res: bool)
    ensures
        res == looks_numeric_or_timestamp(value@),
{
    if is_float_literal(value) {
        return true;
    }
    let t = crate::text::trim_str(value);
    if t.as_str().is_empty() {
        return false;
    }
    proof {
        reveal_strlit("%Y-%m-%d %H:%M:%S");
        reveal_strlit("%Y-%m-%dT%H:%M:%S");
        reveal_strlit("%m/%d/%Y %H:%M");
        reveal_strlit("%Y-%m-%d");
    }
    naive_datetime_parse(t.as_str(), "%Y-%m-%d %H:%M:%S").is_some() || naive_datetime_parse(
        t.as_str(),
        "%Y-%m-%dT%H:%M:%S",
    ).is_some() || naive_datetime_parse(t.as_str(), "%m/%d/%Y %H:%M").is_some()
        || naive_date_parse(t.as_str(), "%Y-%m-%d").is_some()
}

/// The trimmed cells of a row that are not empty, in order.
pub open spec fn cleaned(row: Seq<Seq<char>>) -> Seq<Seq<char>>
    decreases row.len(),
{
    if row.len() == 0 {
        Seq::empty()
    } else if crate::text::trim(row.last()).len() == 0 {
        cleaned(row.drop_last())
    } else {
        cleaned(row.drop_last()).push(crate::text::trim(row.last()))
    }
}

/// How many cells of `cells` look numeric or like timestamps.
pub open spec fn numeric_count(cells: Seq<Seq<char>>) -> int
    decreases cells.len(),
{
    if cells.len() == 0 {
        0
    } else {
        numeric_count(cells.drop_last()) + if looks_numeric_or_timestamp(cells.last()) {
            1int
        } else {
            0
        }
    }
}

/// A header row: at least three non-empty cells, none numeric or a timestamp.
pub open spec fn is_header_row(row: Seq<Seq<char>>) -> bool {
    cleaned(row).len() >= 3 && numeric_count(cleaned(row)) == 0
}

pub open spec fn first_header_from(rows: Seq<Seq<Seq<char>>>, i: int) -> Option<int>
    decreases rows.len() - i,
{
    if i < 0 || i >= rows.len() {
        None
    } else if is_header_row(rows[i]) {
        Some(i)
    } else {
        first_header_from(rows, i + 1)
    }
}

/// The header row: the first that looks like one, else the first row.
pub open spec fn detected_header(rows: Seq<Seq<Seq<char>>>) -> Option<int> {
    match first_header_from(rows, 0) {
        Some(i) => Some(i),
        None => if rows.len() == 0 {
            None
        } else {
            Some(0)
        },
    }
}

pub open spec fn cells_view(row: Vec<String>) -> Seq<Seq<char>> {
    row@.map_values(|c: String| c@)
}

pub open spec fn table_view(rows: Seq<Vec<String>>) -> Seq<Seq<Seq<char>>> {
    rows.map_values(|r: Vec<String>| cells_view(r))
}

/// The non-empty trimmed cells of a row and how many of them look numeric.
fn clean_row(row: &Vec<String>) -> (res: (usize, usize))
    ensures
        res.0 == cleaned(cells_view(*row)).len(),
        res.1 == numeric_count(cleaned(cells_view(*row))),
{
    let ghost rv = cells_view(*row);
    let mut n: usize = 0;
    let mut numeric: usize = 0;
    assert(rv.take(0) =~= Seq::<Seq<char>>::empty());
    for i in 0..row.len()
        invariant
            rv == cells_view(*row),
            n == cleaned(rv.take(i as int)).len(),
            numeric == numeric_count(cleaned(rv.take(i as int))),
            n <= i,
            numeric <= n,
    {
        assert(rv.take(i + 1).drop_last() =~= rv.take(i as int));
        assert(rv.take(i + 1).last() == row@[i as int]@);
        let t = crate::text::trim_str(row[i].as_str());
        if !t.as_str().is_empty() {
            let ghost c = cleaned(rv.take(i as int));
            assert(cleaned(rv.take(i + 1)).drop_last() =~= c);
            n = n + 1;
            if looks_numeric_or_timestamp_exec(t.as_str()) {
                numeric = numeric + 1;
            }
        }
    }
    assert(rv.take(row@.len() as int) =~= rv);
    (n, numeric)
}

/// Finds the header row of the sampled rows (see `detected_header`).
pub fn detect_header_row(rows: &Vec<Vec<String>>) -> (res: Option<usize>)
    ensures
        match (res, detected_header(table_view(rows@))) {
            (Some(i), Some(v)) => i == v,
            (None, None) => true,
            _ => false,
        },
{
    let ghost tv = table_view(rows@);
    let mut i: usize = 0;
    while i < rows.len()
        invariant
            i <= rows@.len(),
            tv == table_view(rows@),
            first_header_from(tv, 0) == first_header_from(tv, i as int),
        decreases rows@.len() - i,
    {
        assert(tv[i as int] == cells_view(rows@[i as int]));
        let (n, numeric) = clean_row(&rows[i]);
        if n >= 3 && numeric == 0 {
            return Some(i);
        }
        i = i + 1;
    }
    if rows.len() == 0 {
        None
    } else {
        Some(0)
    }
}

/// A first data row: as many cells as the header, at least two of them not
/// empty, and at least two (and at least half) of those numeric or
/// timestamps.
pub open spec fn is_data_row(row: Seq<Seq<char>>, expected_columns: int) -> bool {
    let m = cleaned(row);
    let need = if m.len() / 2 > 2 {
        m.len() / 2
    } else {
        2
    };
    row.len() == expected_columns && m.len() >= 2 && numeric_count(m) >= need
}

pub open spec fn first_data_from(rows: Seq<Seq<Seq<char>>>, i: int, expected: int) -> Option<int>
    decreases rows.len() - i,
{
    if i < 0 || i >= rows.len() {
        None
    } else if is_data_row(rows[i], expected) {
        Some(i)
    } else {
        first_data_from(rows, i + 1, expected)
    }
}

/// The first data row after the header.
pub open spec fn detected_data_start(rows: Seq<Seq<Seq<char>>>, header: Option<int>) -> Option<int> {
    match header {
        None => None,
        Some(h) => first_data_from(
            rows,
            h + 1,
            if 0 <= h < rows.len() {
                rows[h].len() as int
            } else {
                0
            },
        ),
    }
}

proof fn lemma_first_data_from(rows: Seq<Seq<Seq<char>>>, i: int, expected: int)
    requires
        0 <= i,
    ensures
        match first_data_from(rows, i, expected) {
            Some(k) => i <= k < rows.len() && is_data_row(rows[k], expected) && forall|j: int|
                i <= j < k ==> !is_data_row(#[trigger] rows[j], expected),
            None => forall|j: int| i <= j < rows.len() ==> !is_data_row(#[trigger] rows[j], expected),
        },
    decreases rows.len() - i,
{
    if i < rows.len() && !is_data_row(rows[i], expected) {
        lemma_first_data_from(rows, i + 1, expected);
    }
}

/// The first data row is the first row after the header that has the
/// header's width, at least two non-empty cells, and at least two of those,
/// and at least half of them (rounded down), reading as numbers or
/// timestamps; there is none when no later row has that shape.
pub proof fn lemma_data_start_is_first_data_row(rows: Seq<Seq<Seq<char>>>, h: int)
    requires
        0 <= h < rows.len(),
    ensures
        ({
            let width = rows[h].len();
            match detected_data_start(rows, Some(h)) {
                Some(i) => {
                    &&& h < i < rows.len()
                    &&& rows[i].len() == width
                    &&& cleaned(rows[i]).len() >= 2
                    &&& numeric_count(cleaned(rows[i])) >= 2
                    &&& numeric_count(cleaned(rows[i])) >= cleaned(rows[i]).len() / 2
                    &&& forall|j: int|
                        h < j < i ==> !(#[trigger] rows[j].len() == width && cleaned(rows[j]).len() >= 2
                            && numeric_count(cleaned(rows[j])) >= 2 && numeric_count(cleaned(rows[j]))
                            >= cleaned(rows[j]).len() / 2)
                },
                None => forall|j: int|
                    h < j < rows.len() ==> !(#[trigger] rows[j].len() == width && cleaned(rows[j]).len()
                        >= 2 && numeric_count(cleaned(rows[j])) >= 2 && numeric_count(cleaned(rows[j]))
                        >= cleaned(rows[j]).len() / 2),
            }
        }),
{
    let width = rows[h].len() as int;
    lemma_first_data_from(rows, h + 1, width);
    assert forall|j: int| 0 <= j < rows.len() implies is_data_row(#[trigger] rows[j], width) == (
    rows[j].len() == width && cleaned(rows[j]).len() >= 2 && numeric_count(cleaned(rows[j])) >= 2
        && numeric_count(cleaned(rows[j])) >= cleaned(rows[j]).len() / 2) by {}
}

pub fn detect_data_start_row(rows: &Vec<Vec<String>>, header_index: Option<usize>) -> (res: Option<usize>)
    ensures
        match (res, detected_data_start(table_view(rows@), match header_index {
            Some(h) => Some(h as int),
            None => None,
        })) {
            (Some(i), Some(v)) => i == v,
            (None, None) => true,
            _ => false,
        },
{
    let ghost tv = table_view(rows@);
    let h = match header_index {
        Some(h) => h,
        None => return None,
    };
    let expected: usize = if h < rows.len() {
        rows[h].len()
    } else {
        0
    };
    proof {
        if h < rows@.len() {
            assert(tv[h as int].len() == rows@[h as int]@.len());
        }
    }
    if h >= rows.len() {
        return None;
    }
    let mut i: usize = h + 1;
    while i < rows.len()
        invariant
            h < i <= rows@.len(),
            h < rows@.len(),
            header_index == Some(h),
            expected == tv[h as int].len(),
            tv == table_view(rows@),
            first_data_from(tv, h + 1, expected as int) == first_data_from(tv, i as int, expected as int),
        decreases rows@.len() - i,
    {
        assert(tv[i as int] == cells_view(rows@[i as int]));
        assert(tv[i as int].len() == rows@[i as int]@.len());
        if rows[i].len() == expected {
            let (n, numeric) = clean_row(&rows[i]);
            let need = if n / 2 > 2 {
                n / 2
            } else {
                2
            };
            if n >= 2 && numeric >= need {
                return Some(i);
            }
        }
        i = i + 1;
    }
    None
}

// ---------------------------------------------------------------------------
// Preview
// ---------------------------------------------------------------------------
pub open spec fn msg_choose_path() -> Seq<char> {
    "Choose a CSV file path."@
}

pub open spec fn msg_no_home() -> Seq<char> {
    "Couldn't resolve the home directory."@
}

/// The file a path names: trimmed, with a leading `~/` replaced by the home
/// folder.
pub open spec fn expanded_path(path: Seq<char>, home: Option<Seq<char>>, separator: char) -> Result<Seq<char>, Seq<char>> {
    let t = crate::text::trim(path);
    if t.len() == 0 {
        Err(msg_choose_path())
    } else if t.len() >= 2 && t[0] == '~' && t[1] == '/' {
        match home {
            Some(h) => Ok(crate::service_paths::joined(h, t.subrange(2, t.len() as int), separator)),
            None => Err(msg_no_home()),
        }
    } else {
        Ok(t)
    }
}

pub fn expand_path(path: &str, home: Option<String>, separator: char) -> (res: Result<String, String>)
    ensures
        match (res, expanded_path(path@, crate::models::opt_view(home), separator)) {
            (Ok(p), Ok(v)) => p@ == v,
            (Err(e), Err(m)) => e@ == m,
            _ => false,
        },
{
    let t = crate::text::trim_str(path);
    let cs = chars_of(t.as_str());
    if cs.len() == 0 {
        return Err(owned("Choose a CSV file path."));
    }
    if cs.len() >= 2 && cs[0] == '~' && cs[1] == '/' {
        return match home {
            Some(h) => {
                let mut rest: Vec<char> = Vec::new();
                let mut i: usize = 2;
                while i < cs.len()
                    invariant
                        2 <= i <= cs@.len(),
                        rest@ == cs@.subrange(2, i as int),
                    decreases cs@.len() - i,
                {
                    rest.push(cs[i]);
                    assert(cs@.subrange(2, i + 1) =~= cs@.subrange(2, i as int).push(cs@[i as int]));
                    i = i + 1;
                }
                let rest_str = string_from(rest.as_slice());
                Ok(crate::service_paths::join_path(h.as_str(), rest_str.as_str(), separator))
            },
            None => Err(owned("Couldn't resolve the home directory.")),
        };
    }
    Ok(t)
}

/// What the preview of a file shows, from its bytes and the number of lines
/// to sample.
pub fn preview_csv(bytes: &[u8], rows: usize) -> (res: Result<CsvPreviewResponse, String>)
    requires
        rows <= u32::MAX,
    ensures
        match decoded_text(bytes@) {
            Err(m) => res matches Err(e) && e@ == m,
            Ok((text, encoding)) => res matches Ok(r) && ({
                let lines = crate::text::split_lines(text);
                let first = lines.take(if rows <= lines.len() { rows as int } else { lines.len() as int });
                let d = detected_delimiter(first);
                let parsed = non_blank(first).map_values(|l: Seq<char>| line_cells(l, d));
                let header = detected_header(parsed);
                &&& r.raw_lines@.map_values(|l: String| l@) == first
                &&& r.detected_delimiter@ == seq![d]
                &&& r.total_lines == lines.len()
                &&& r.encoding@ == encoding
                &&& table_view(r.parsed_rows@) == match header {
                    Some(h) => parsed.subrange(h, parsed.len() as int),
                    None => parsed,
                }
                &&& r.detected_header_row == match header {
                    Some(h) => Some((h + 1) as u32),
                    None => None,
                }
                &&& r.detected_data_start_row == match detected_data_start(parsed, header) {
                    Some(s) => Some((s + 1) as u32),
                    None => None,
                }
            }),
        },
{
    let (text, encoding) = match decode_text(bytes) {
        Ok(decoded) => decoded,
        Err(e) => return Err(e),
    };
    let lines = crate::text::lines_of(text.as_str());
    let ghost lv = lines@.map_values(|l: String| l@);
    let take = if rows <= lines.len() {
        rows
    } else {
        lines.len()
    };
    let mut first: Vec<String> = Vec::new();
    for i in 0..take
        invariant
            take <= lines@.len(),
            lv == lines@.map_values(|l: String| l@),
            first@.map_values(|l: String| l@) == lv.take(i as int),
    {
        assert(lv[i as int] == lines@[i as int]@);
        let ghost before = first@.map_values(|l: String| l@);
        let line = lines[i].clone();
        assert(line@ == lv[i as int]);
        first.push(line);
        assert(first@.map_values(|l: String| l@) =~= before.push(lv[i as int]));
        assert(lv.take(i + 1) =~= lv.take(i as int).push(lv[i as int]));
    }
    let ghost fv = lv.take(take as int);
    let d = detect_delimiter(&first);
    let mut parsed: Vec<Vec<String>> = Vec::new();
    assert(fv.take(0) =~= Seq::<Seq<char>>::empty());
    for i in 0..first.len()
        invariant
            fv == first@.map_values(|l: String| l@),
            table_view(parsed@) == non_blank(fv.take(i as int)).map_values(|l: Seq<char>| line_cells(l, d)),
    {
        assert(fv.take(i + 1).drop_last() =~= fv.take(i as int));
        assert(fv.take(i + 1).last() == first@[i as int]@);
        if !crate::text::is_blank(first[i].as_str()) {
            let ghost before = table_view(parsed@);
            let cells = parse_line(first[i].as_str(), d);
            parsed.push(cells);
            assert(table_view(parsed@) =~= before.push(line_cells(first@[i as int]@, d)));
            assert(non_blank(fv.take(i + 1)).map_values(|l: Seq<char>| line_cells(l, d)) =~= non_blank(fv.take(i as int)).map_values(|l: Seq<char>| line_cells(l, d)).push(line_cells(first@[i as int]@, d)));
        }
    }
    assert(fv.take(first@.len() as int) =~= fv);
    let ghost pv = table_view(parsed@);
    proof {
        lemma_non_blank_len(fv);
    }
    let header = detect_header_row(&parsed);
    let data_start = detect_data_start_row(&parsed, header);
    proof {
        lemma_first_header_in_range(pv, 0);
        if let Some(h) = header {
            lemma_first_data_in_range(pv, h + 1, if h < pv.len() { pv[h as int].len() as int } else { 0 });
        }
        assert(pv.len() == parsed@.len());
    }
    let skip = match header {
        Some(h) => h,
        None => 0,
    };
    let shown = parsed.split_off(skip);
    assert(table_view(shown@) =~= pv.subrange(skip as int, pv.len() as int));
    let total_lines = lines.len();
    let mut delimiter_text = String::new();
    push_char(&mut delimiter_text, d);
    Ok(
        CsvPreviewResponse {
            raw_lines: first,
            parsed_rows: shown,
            detected_header_row: match header {
                Some(h) => Some((h + 1) as u32),
                None => None,
            },
            detected_data_start_row: match data_start {
                Some(s) => Some((s + 1) as u32),
                None => None,
            },
            detected_delimiter: delimiter_text,
            total_lines,
            encoding,
        },
    )
}

proof fn lemma_first_header_in_range(rows: Seq<Seq<Seq<char>>>, i: int)
    ensures
        first_header_from(rows, i) matches Some(k) ==> 0 <= k < rows.len(),
    decreases rows.len() - i,
{
    if 0 <= i < rows.len() && !is_header_row(rows[i]) {
        lemma_first_header_in_range(rows, i + 1);
    }
}

proof fn lemma_first_data_in_range(rows: Seq<Seq<Seq<char>>>, i: int, expected: int)
    ensures
        first_data_from(rows, i, expected) matches Some(k) ==> 0 <= k < rows.len(),
    decreases rows.len() - i,
{
    if 0 <= i < rows.len() && !is_data_row(rows[i], expected) {
        lemma_first_data_in_range(rows, i + 1, expected);
    }
}

proof fn lemma_non_blank_len(lines: Seq<Seq<char>>)
    ensures
        non_blank(lines).len() <= lines.len(),
    decreases lines.len(),
{
    if lines.len() > 0 {
        lemma_non_blank_len(lines.drop_last());
    }
}

/// How many lines a preview samples: 100 unless asked otherwise, and between
/// 1 and 500.
pub fn preview_rows(requested: Option<usize>) -> (res: usize)
    ensures
        res == match requested {
            Some(r) => if r < 1 {
                1
            } else if r > 500 {
                500
            } else {
                r
            },
            None => 100,
        },
{
    match requested {
        Some(r) => if r < 1 {
            1
        } else if r > 500 {
            500
        } else {
            r
        },
        None => 100,
    }
}

/// The refusal of a preview of a file that is not there.
pub fn missing_data_file_error() -> (res: String)
    ensures
        res@ == "Can't find the data file. It may have been moved or renamed."@,
{
    owned("Can't find the data file. It may have been moved or renamed.")
}

} // verus!
