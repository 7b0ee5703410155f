use streaming_data_loader::models::{TimestampConfig, TimestampFormatType, TimezoneModeType, UtcDateTime};
use streaming_data_loader::timestamp::{normalize_iso8601, parse_timestamp_to_utc, validate_fixed_offset};

fn config(format: TimestampFormatType, mode: TimezoneModeType, timezone: Option<&str>) -> TimestampConfig {
    TimestampConfig {
        key: "timestamp".to_string(),
        format,
        custom_format: None,
        timezone_mode: mode,
        timezone: timezone.map(|t| t.to_string()),
    }
}

fn secs(s: i64) -> UtcDateTime {
    UtcDateTime { secs: s, nanos: 0 }
}

#[test]
fn iso8601_with_zulu_and_compact_offsets() {
    let iso = config(TimestampFormatType::Iso8601, TimezoneModeType::EmbeddedOffset, None);
    assert_eq!(parse_timestamp_to_utc("2026-04-03T08:00:00Z", &iso), Ok(secs(1_775_203_200)));
    assert_eq!(parse_timestamp_to_utc(" 2026-04-03 08:00:00+0530 ", &iso), Ok(secs(1_775_183_400)));
    assert_eq!(parse_timestamp_to_utc("2026-04-03 08:00:00", &iso), Ok(secs(1_775_203_200)));
    assert_eq!(
        parse_timestamp_to_utc("2026-04-03T08:00:00.250Z", &iso),
        Ok(UtcDateTime { secs: 1_775_203_200, nanos: 250_000_000 })
    );
    assert_eq!(
        parse_timestamp_to_utc("yesterday", &iso),
        Err("Couldn't parse timestamp 'yesterday' as ISO8601.".to_string())
    );
}

#[test]
fn empty_timestamp_is_an_error() {
    let iso = config(TimestampFormatType::Iso8601, TimezoneModeType::Utc, None);
    assert_eq!(parse_timestamp_to_utc("   ", &iso), Err("Timestamp value is empty.".to_string()));
}

#[test]
fn naive_timestamps_follow_the_timezone_mode() {
    let utc = config(TimestampFormatType::Naive, TimezoneModeType::Utc, None);
    assert_eq!(parse_timestamp_to_utc("04/03/2026 08:00", &utc), Ok(secs(1_775_203_200)));
    assert_eq!(parse_timestamp_to_utc("2026/01/15", &utc), Ok(secs(1_768_435_200)));

    let fixed = config(TimestampFormatType::Naive, TimezoneModeType::FixedOffset, Some("-07:00"));
    assert_eq!(parse_timestamp_to_utc("2026-04-03 08:00:00", &fixed), Ok(secs(1_775_228_400)));

    let missing = config(TimestampFormatType::Naive, TimezoneModeType::FixedOffset, None);
    assert_eq!(
        parse_timestamp_to_utc("2026-04-03 08:00:00", &missing),
        Err("Timezone is required when using fixedOffset or daylightSavings timestamp modes.".to_string())
    );
}

#[test]
fn daylight_savings_shifts_gaps_forward_and_takes_the_later_of_repeats() {
    let denver = config(TimestampFormatType::Naive, TimezoneModeType::DaylightSavings, Some("America/Denver"));
    assert_eq!(parse_timestamp_to_utc("2026-03-08 02:30:00", &denver), Ok(secs(1_772_960_400)));
    assert_eq!(parse_timestamp_to_utc("2026-11-01 01:30:00", &denver), Ok(secs(1_793_521_800)));

    let bad = config(TimestampFormatType::Naive, TimezoneModeType::DaylightSavings, Some("Mars/Base"));
    assert_eq!(
        parse_timestamp_to_utc("2026-03-08 02:30:00", &bad),
        Err("Invalid IANA timezone 'Mars/Base'.".to_string())
    );
}

#[test]
fn custom_formats_need_a_format_string() {
    let mut custom = config(TimestampFormatType::Custom, TimezoneModeType::Utc, None);
    assert_eq!(
        parse_timestamp_to_utc("03.04.2026 08:00", &custom),
        Err("Custom timestamp formats require a customFormat value.".to_string())
    );
    custom.custom_format = Some("%d.%m.%Y %H:%M".to_string());
    assert_eq!(parse_timestamp_to_utc("03.04.2026 08:00", &custom), Ok(secs(1_775_203_200)));
    assert_eq!(
        parse_timestamp_to_utc("2026-04-03", &custom),
        Err("Couldn't parse timestamp '2026-04-03' with format '%d.%m.%Y %H:%M'.".to_string())
    );
}

#[test]
fn fixed_offsets_are_validated() {
    assert_eq!(validate_fixed_offset("-0700"), Ok(-25_200));
    assert_eq!(validate_fixed_offset("+05:30"), Ok(19_800));
    assert_eq!(validate_fixed_offset("+14:00"), Ok(50_400));
    assert!(validate_fixed_offset("+14:30").is_err());
    assert!(validate_fixed_offset("0700").is_err());
    assert!(validate_fixed_offset("+07:60").is_err());
}

#[test]
fn iso8601_normalization() {
    assert_eq!(normalize_iso8601("2026-04-03 08:00:00"), "2026-04-03T08:00:00");
    assert_eq!(normalize_iso8601("2026-04-03T08:00:00-0700"), "2026-04-03T08:00:00-07:00");
    assert_eq!(normalize_iso8601(" 2026-04-03T08:00:00Z "), "2026-04-03T08:00:00Z");
}
