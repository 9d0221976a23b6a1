use deck_counter::render::{render_number, render_time_hhmmss, render_time_mmss};

#[test]
fn numbers_in_decimal() {
    assert_eq!(render_number(0), "0");
    assert_eq!(render_number(7), "7");
    assert_eq!(render_number(-7), "-7");
    assert_eq!(render_number(1234567890), "1234567890");
    assert_eq!(render_number(i64::MAX), "9223372036854775807");
    assert_eq!(render_number(i64::MIN), "-9223372036854775808");
}

#[test]
fn minutes_and_seconds() {
    assert_eq!(render_time_mmss(0), "00:00");
    assert_eq!(render_time_mmss(9), "00:09");
    assert_eq!(render_time_mmss(60), "01:00");
    assert_eq!(render_time_mmss(61), "01:01");
    assert_eq!(render_time_mmss(5_999), "99:59");
}

#[test]
fn minutes_stop_at_99() {
    assert_eq!(render_time_mmss(6_000), "99:00");
    assert_eq!(render_time_mmss(6_059), "99:59");
    assert_eq!(render_time_mmss(u64::MAX), "99:15");
}

#[test]
fn hours_appear_from_one_hour_on() {
    assert_eq!(render_time_hhmmss(0), "00:00");
    assert_eq!(render_time_hhmmss(3_599), "59:59");
    assert_eq!(render_time_hhmmss(3_600), "01:00:00");
    assert_eq!(render_time_hhmmss(3_661), "01:01:01");
    assert_eq!(render_time_hhmmss(360_000), "100:00:00");
}
