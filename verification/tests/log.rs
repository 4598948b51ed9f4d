use gettype::log::{format_line, level_from_str, timestamp, Level};

#[test]
fn timestamp_is_utc_time_of_day() {
    assert_eq!(timestamp(0), "00:00:00.000");
    // 01:23:45.678 on some day.
    let ms = 19_000u128 * 86_400_000 + ((1 * 3600 + 23 * 60 + 45) * 1000 + 678);
    assert_eq!(timestamp(ms), "01:23:45.678");
    assert_eq!(timestamp(86_399_999), "23:59:59.999");
    assert_eq!(timestamp(86_400_000 + 5), "00:00:00.005");
}

#[test]
fn line_formats() {
    assert_eq!(
        format_line("01:23:45.678", Level::Info, "audio", "start ok=true"),
        "[01:23:45.678] [audio] start ok=true"
    );
    assert_eq!(
        format_line("00:00:00.000", Level::Warn, "tray", "x"),
        "[00:00:00.000] [tray] WARN x"
    );
    assert_eq!(
        format_line("00:00:00.000", Level::Error, "stt", "boom"),
        "[00:00:00.000] [stt] ERROR boom"
    );
}

#[test]
fn frontend_levels() {
    assert_eq!(level_from_str("warn"), Level::Warn);
    assert_eq!(level_from_str("error"), Level::Error);
    assert_eq!(level_from_str("debug"), Level::Info);
    assert_eq!(level_from_str("WARN"), Level::Info);
}
