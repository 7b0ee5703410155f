use streaming_data_loader::csv_preview::{
    decode_text, detect_data_start_row, detect_delimiter, detect_header_row, expand_path, missing_data_file_error,
    parse_line, preview_csv, preview_rows,
};

const SAMPLE: &str = "Station,Creek\nGenerated,2026\nTimestamp,Stage,Temp\n2026-04-03 08:00:00,2.41,7.8\n2026-04-03 08:05:00,2.45,7.9\n";

fn strings(cells: &[&str]) -> Vec<String> {
    cells.iter().map(|c| c.to_string()).collect()
}

#[test]
fn preview_detects_header_and_data_rows() {
    let preview = preview_csv(SAMPLE.as_bytes(), 10).expect("preview");
    assert_eq!(preview.raw_lines.len(), 5);
    assert_eq!(preview.detected_delimiter, ",");
    assert_eq!(preview.detected_header_row, Some(3));
    assert_eq!(preview.detected_data_start_row, Some(4));
    assert_eq!(preview.parsed_rows.len(), 3);
    assert_eq!(preview.parsed_rows[0], strings(&["Timestamp", "Stage", "Temp"]));
    assert_eq!(preview.total_lines, 5);
    assert_eq!(preview.encoding, "utf-8");
}

#[test]
fn preview_of_a_short_sample_falls_back_to_the_first_row() {
    let preview = preview_csv(SAMPLE.as_bytes(), 2).expect("preview");
    assert_eq!(preview.raw_lines, strings(&["Station,Creek", "Generated,2026"]));
    assert_eq!(preview.detected_header_row, Some(1));
    assert_eq!(preview.detected_data_start_row, None);
    assert_eq!(preview.total_lines, 5);
}

#[test]
fn decoding_handles_bom_utf8_and_latin1() {
    assert_eq!(
        decode_text(&[0xEF, 0xBB, 0xBF, b'a']),
        Ok(("a".to_string(), "utf-8-sig".to_string()))
    );
    assert_eq!(decode_text(b"abc"), Ok(("abc".to_string(), "utf-8".to_string())));
    assert_eq!(decode_text(&[b'a', 0xE9]), Ok(("a\u{e9}".to_string(), "latin-1".to_string())));
    assert_eq!(
        decode_text(&[0xEF, 0xBB, 0xBF, 0xFF]),
        Err("Couldn't read the file encoding. Try exporting as UTF-8.".to_string())
    );
}

#[test]
fn delimiter_detection_prefers_the_most_consistent_split() {
    let lines = strings(&["a;b;c", "1;2;3", "4;5;6"]);
    assert_eq!(detect_delimiter(&lines), ';');
    let tabs = strings(&["a\tb", "1\t2", ""]);
    assert_eq!(detect_delimiter(&tabs), '\t');
    let none: Vec<String> = Vec::new();
    assert_eq!(detect_delimiter(&none), ',');
}

#[test]
fn parse_line_keeps_quoted_delimiters() {
    assert_eq!(parse_line("\"a,b\",c", ','), strings(&["a,b", "c"]));
    assert_eq!(parse_line("x|y", '|'), strings(&["x", "y"]));
}

#[test]
fn header_and_data_rows_on_parsed_rows() {
    let rows = vec![
        strings(&["Logger", "1"]),
        strings(&["Time", "Stage", "Temp"]),
        strings(&["units", "ft", ""]),
        strings(&["2026-04-03", "2.41", "7.8"]),
    ];
    assert_eq!(detect_header_row(&rows), Some(1));
    assert_eq!(detect_data_start_row(&rows, Some(1)), Some(3));
    assert_eq!(detect_data_start_row(&rows, None), None);
    let empty: Vec<Vec<String>> = Vec::new();
    assert_eq!(detect_header_row(&empty), None);
}

#[test]
fn paths_expand_the_home_directory() {
    assert_eq!(
        expand_path(" ~/data/file.csv ", Some("/home/user".to_string()), '/'),
        Ok("/home/user/data/file.csv".to_string())
    );
    assert_eq!(expand_path("/tmp/a.csv", None, '/'), Ok("/tmp/a.csv".to_string()));
    assert_eq!(expand_path("   ", None, '/'), Err("Choose a CSV file path.".to_string()));
    assert_eq!(
        expand_path("~/a.csv", None, '/'),
        Err("Couldn't resolve the home directory.".to_string())
    );
}

#[test]
fn preview_samples_between_one_and_five_hundred_lines() {
    assert_eq!(preview_rows(None), 100);
    assert_eq!(preview_rows(Some(0)), 1);
    assert_eq!(preview_rows(Some(20)), 20);
    assert_eq!(preview_rows(Some(10_000)), 500);
    assert_eq!(missing_data_file_error(), "Can't find the data file. It may have been moved or renamed.");
}
