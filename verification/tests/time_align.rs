use event_finder::time::{format_partition_key, format_rfc3339, parse_instant_ms,
    round_datetime_modulo_minutes};

// 2024-01-01T00:00:00Z in milliseconds since the epoch.
const MIDNIGHT: i64 = 1_704_067_200_000;

#[test]
fn aligns_into_the_containing_ten_minute_window() {
    let t = MIDNIGHT + (6 * 3600 + 55 * 60) * 1000; // 06:55:00
    let (lower, upper) = round_datetime_modulo_minutes(t, 10).unwrap();
    assert_eq!(lower, MIDNIGHT + (6 * 3600 + 50 * 60) * 1000); // 06:50:00
    assert_eq!(upper, MIDNIGHT + 7 * 3600 * 1000); // 07:00:00
    assert!(lower <= t && t < upper);
    assert_eq!(lower % 60_000, 0);
    assert_eq!(upper % 60_000, 0);
}

#[test]
fn an_aligned_instant_is_its_own_lower_bound() {
    let t = MIDNIGHT + 7 * 3600 * 1000; // 07:00:00 exactly
    let (lower, upper) = round_datetime_modulo_minutes(t, 10).unwrap();
    assert_eq!(lower, t);
    assert_eq!(upper, t + 600_000);
}

#[test]
fn sub_minute_parts_are_zeroed() {
    let t = MIDNIGHT + (6 * 3600 + 53 * 60) * 1000 + 17_123; // 06:53:17.123
    let (lower, upper) = round_datetime_modulo_minutes(t, 5).unwrap();
    assert_eq!(lower, MIDNIGHT + (6 * 3600 + 50 * 60) * 1000);
    assert_eq!(upper, MIDNIGHT + (6 * 3600 + 55 * 60) * 1000);
}

#[test]
fn a_zero_modulo_is_rejected() {
    assert!(round_datetime_modulo_minutes(1_704_067_200_000, 0).is_none());
}

#[test]
fn parses_rfc3339_instants() {
    assert_eq!(
        parse_instant_ms("2024-01-01T06:55:00Z"),
        Some(MIDNIGHT + (6 * 3600 + 55 * 60) * 1000)
    );
    assert_eq!(parse_instant_ms("2024-01-01T06:55:00.250Z"),
        Some(MIDNIGHT + (6 * 3600 + 55 * 60) * 1000 + 250));
    assert_eq!(parse_instant_ms("not a date"), None);
}

#[test]
fn renders_partition_keys_that_sort_like_time() {
    let lower = MIDNIGHT + (6 * 3600 + 50 * 60) * 1000;
    let upper = MIDNIGHT + 7 * 3600 * 1000;
    let a = format_partition_key(lower);
    let b = format_partition_key(upper);
    assert_eq!(a, "2024-01-01-06-50");
    assert_eq!(b, "2024-01-01-07-00");
    assert!(a < b);
}

#[test]
fn renders_rfc3339_for_result_rows() {
    let t = MIDNIGHT + (6 * 3600 + 55 * 60) * 1000;
    assert_eq!(format_rfc3339(t), "2024-01-01T06:55:00+00:00");
}

#[test]
fn chrono_round_trips_through_the_wrappers() {
    let text = "2024-06-30T23:59:59Z";
    let ms = parse_instant_ms(text).unwrap();
    let direct: chrono::DateTime<chrono::Utc> = text.parse().unwrap();
    assert_eq!(ms, direct.timestamp_millis());
}
