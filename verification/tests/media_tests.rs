use reve::media::{
    duration_frame_estimate, duration_ms_or_zero, export_start_millis, frames_from_duration,
    parse_duration_ms, parse_frame_count, parse_frame_rate, parse_u64_digits,
    resolve_frame_count, trim_str, FrameRate,
};

#[test]
fn probe_counts_parse_with_surrounding_whitespace() {
    assert_eq!(parse_frame_count(" 2500\n"), 2500);
    assert_eq!(parse_frame_count("2500"), 2500);
    assert_eq!(parse_frame_count("N/A\n"), 0);
    assert_eq!(parse_frame_count(""), 0);
    assert_eq!(parse_frame_count("-3"), 0);
    assert_eq!(parse_frame_count("99999999999"), 0);
}

#[test]
fn digit_strings_parse_exactly() {
    assert_eq!(parse_u64_digits("0"), Some(0));
    assert_eq!(parse_u64_digits("18446744073709551615"), Some(u64::MAX));
    assert_eq!(parse_u64_digits("18446744073709551616"), None);
    assert_eq!(parse_u64_digits("12a"), None);
    assert_eq!(parse_u64_digits(""), None);
}

#[test]
fn trimming_strips_ascii_whitespace() {
    assert_eq!(trim_str("  30000/1001\r\n"), "30000/1001");
    assert_eq!(trim_str("\t\n "), "");
    assert_eq!(trim_str("x"), "x");
}

#[test]
fn frame_rates_parse_as_rationals() {
    assert_eq!(
        parse_frame_rate("30000/1001\n"),
        Some(FrameRate { num: 30000, den: 1001 })
    );
    assert_eq!(parse_frame_rate("25/1"), Some(FrameRate { num: 25, den: 1 }));
    assert_eq!(parse_frame_rate("0/0"), None);
    assert_eq!(parse_frame_rate("25"), None);
    assert_eq!(parse_frame_rate("a/b"), None);
}

#[test]
fn durations_parse_to_milliseconds() {
    assert_eq!(parse_duration_ms("12.5"), Some(12500));
    assert_eq!(parse_duration_ms("3"), Some(3000));
    assert_eq!(parse_duration_ms(" 7.041000\n"), Some(7041));
    assert_eq!(parse_duration_ms("0.0"), Some(0));
    assert_eq!(parse_duration_ms("N/A"), None);
    assert_eq!(parse_duration_ms(""), None);
    assert_eq!(duration_ms_or_zero("7.041000"), 7041);
    assert_eq!(duration_ms_or_zero("N/A"), 0);
}

#[test]
fn duration_estimate_assumes_the_fixed_rate() {
    // Ten seconds at the assumed twenty-five frames per second.
    assert_eq!(duration_frame_estimate("10.0"), 250);
    assert_eq!(duration_frame_estimate("N/A"), 0);
    assert_eq!(frames_from_duration(10_000), 250);
    assert_eq!(frames_from_duration(0), 0);
}

#[test]
fn frame_count_fallback_takes_first_nonzero_tier() {
    assert_eq!(resolve_frame_count(2500, 2400, 100), 2500);
    assert_eq!(resolve_frame_count(0, 2400, 100), 2400);
    assert_eq!(resolve_frame_count(0, 0, 100), 100);
    assert_eq!(resolve_frame_count(0, 0, 0), 0);
}

#[test]
fn export_seek_times_come_from_the_rational_rate() {
    let rate = FrameRate { num: 25, den: 1 };
    assert_eq!(export_start_millis(0, 1000, rate), Some(0));
    // Segment one starts a frame early: frame 999 at 25 fps is 39.96 s.
    assert_eq!(export_start_millis(1, 1000, rate), Some(39_960));
    let ntsc = FrameRate { num: 30000, den: 1001 };
    // Frame 999 at 30000/1001 fps: 999 * 1000 * 1001 / 30000 ms.
    assert_eq!(export_start_millis(1, 1000, ntsc), Some(33_333));
}
