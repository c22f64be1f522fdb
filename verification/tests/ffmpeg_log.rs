use scuffle_media::ffmpeg::log::LogLevel;

#[test]
fn log_levels_from_numbers() {
    let cases = [
        (-8, LogLevel::Quiet, "quiet"),
        (0, LogLevel::Panic, "panic"),
        (8, LogLevel::Fatal, "fatal"),
        (16, LogLevel::Error, "error"),
        (24, LogLevel::Warning, "warning"),
        (32, LogLevel::Info, "info"),
        (40, LogLevel::Verbose, "verbose"),
        (48, LogLevel::Debug, "debug"),
        (56, LogLevel::Trace, "trace"),
    ];
    for (n, level, name) in cases {
        assert_eq!(LogLevel::from_i32(n), level);
        assert_eq!(level.value(), n);
        assert_eq!(level.as_str(), name);
    }
}

#[test]
fn unknown_log_level_is_info() {
    assert_eq!(LogLevel::from_i32(7), LogLevel::Info);
    assert_eq!(LogLevel::from_i32(-1), LogLevel::Info);
    assert_eq!(LogLevel::from_i32(1000), LogLevel::Info);
}
