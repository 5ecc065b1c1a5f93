use std::time::Duration;
use surrealmcp::text::{
    contains_char, decimal_pad3_string, decimal_string, first_field_of, is_space_char,
    lower_hex_string, trim_str,
};
use surrealmcp::utils::{
    connection_id, format_duration, format_duration_parts, generate_connection_id,
};

#[test]
fn durations_below_a_second_read_in_milliseconds() {
    assert_eq!(format_duration(Duration::from_millis(0)), "0ms");
    assert_eq!(format_duration(Duration::from_millis(250)), "250ms");
    assert_eq!(format_duration(Duration::from_micros(999_999)), "999ms");
}

#[test]
fn durations_below_a_minute_read_in_seconds_with_three_decimals() {
    assert_eq!(format_duration(Duration::from_millis(1_005)), "1.005s");
    assert_eq!(format_duration(Duration::from_millis(59_999)), "59.999s");
    assert_eq!(format_duration(Duration::from_secs(7)), "7.000s");
    assert_eq!(format_duration(Duration::from_millis(5_040)), "5.040s");
}

#[test]
fn durations_below_an_hour_read_in_minutes_and_seconds() {
    assert_eq!(format_duration(Duration::from_secs(60)), "1m 0s");
    assert_eq!(format_duration(Duration::from_millis(125_900)), "2m 5s");
    assert_eq!(format_duration(Duration::from_secs(3_599)), "59m 59s");
}

#[test]
fn longer_durations_read_in_hours_minutes_and_seconds() {
    assert_eq!(format_duration(Duration::from_secs(3_600)), "1h 0m 0s");
    assert_eq!(format_duration(Duration::from_secs(3_725)), "1h 2m 5s");
    assert_eq!(format_duration(Duration::from_secs(360_000)), "100h 0m 0s");
    assert_eq!(format_duration(Duration::MAX), "5124095576030431h 0m 15s");
}

#[test]
fn duration_parts_agree_with_the_duration() {
    assert_eq!(format_duration_parts(0, 7), "7ms");
    assert_eq!(format_duration_parts(12, 34), "12.034s");
    assert_eq!(format_duration_parts(61, 999), "1m 1s");
    assert_eq!(format_duration_parts(7_322, 0), "2h 2m 2s");
}

#[test]
fn numerals_are_written_without_leading_zeros() {
    assert_eq!(decimal_string(0), "0");
    assert_eq!(decimal_string(1_234_567_890), "1234567890");
    assert_eq!(decimal_string(u128::MAX), u128::MAX.to_string());
    assert_eq!(lower_hex_string(0), "0");
    assert_eq!(lower_hex_string(0xdead_beef), "deadbeef");
    assert_eq!(lower_hex_string(u128::MAX), format!("{:x}", u128::MAX));
    assert_eq!(decimal_pad3_string(5), "005");
    assert_eq!(decimal_pad3_string(45), "045");
    assert_eq!(decimal_pad3_string(345), "345");
    assert_eq!(decimal_pad3_string(2345), "2345");
}

#[test]
fn connection_id_holds_both_numbers_in_hex() {
    assert_eq!(connection_id(0x18f3_a2b4_c5d, 0xfeed_f00d), "conn_18f3a2b4c5d_feedf00d");
    assert_eq!(connection_id(0, 0), "conn_0_0");
    assert_eq!(connection_id(255, 16), "conn_ff_10");
}

#[test]
fn generated_connection_id_has_the_shape() {
    let id = generate_connection_id();
    let parts: Vec<&str> = id.split('_').collect();
    assert_eq!(parts.len(), 3);
    assert_eq!(parts[0], "conn");
    let stamp = u128::from_str_radix(parts[1], 16).unwrap();
    assert!(stamp > 1_500_000_000_000);
    assert_eq!(format!("{:x}", stamp), parts[1]);
    let random = u32::from_str_radix(parts[2], 16).unwrap();
    assert_eq!(format!("{:x}", random), parts[2]);
}

#[test]
fn generated_connection_ids_differ() {
    let ids: Vec<String> = (0..8).map(|_| generate_connection_id()).collect();
    assert!(ids.iter().any(|id| *id != ids[0]));
}

#[test]
fn white_space_is_what_unicode_says() {
    for c in ['\0', 'a', '_', '\u{200b}', '\u{feff}', '\u{1f}'] {
        assert!(!is_space_char(c));
        assert_eq!(is_space_char(c), c.is_whitespace());
    }
    let mut n: u32 = 0;
    while n < 0x3100 {
        if let Some(c) = char::from_u32(n) {
            assert_eq!(is_space_char(c), c.is_whitespace(), "at {:x}", n);
        }
        n += 1;
    }
}

#[test]
fn trimming_agrees_with_the_standard_library() {
    for s in ["", " ", "  a  ", "a", "\t a b \n", "\u{2003}x\u{3000}", " \u{85} ", "x \u{1680}"] {
        assert_eq!(trim_str(s), s.trim());
    }
}

#[test]
fn first_field_stops_at_the_separator() {
    assert_eq!(first_field_of("a,b,c", ','), "a");
    assert_eq!(first_field_of(",b", ','), "");
    assert_eq!(first_field_of("abc", ','), "abc");
    assert_eq!(first_field_of("", ','), "");
    assert_eq!(first_field_of("世界,x", ','), "世界");
    assert!(contains_char("a:b", ':'));
    assert!(!contains_char("ab", ':'));
}

#[test]
fn health_goes_by_the_version_line() {
    assert_eq!(
        surrealmcp::utils::health_from_version("3.0.1".to_string()),
        (true, "3.0.1".to_string())
    );
    assert_eq!(
        surrealmcp::utils::health_from_version("2.3.7".to_string()),
        (false, "Unsupported SurrealDB version: 2.3.7. Expected 3.x".to_string())
    );
    assert_eq!(
        surrealmcp::utils::health_from_version(String::new()),
        (false, "Unsupported SurrealDB version: . Expected 3.x".to_string())
    );
}
