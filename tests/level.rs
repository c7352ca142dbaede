use hephaestus::LogLevel;

const ALL: [LogLevel; 6] = [
    LogLevel::Off,
    LogLevel::Error,
    LogLevel::Warn,
    LogLevel::Info,
    LogLevel::Debug,
    LogLevel::Trace,
];

#[test]
fn info_debug() {
    let configured_log_level: LogLevel = LogLevel::Info;
    assert_eq!(LogLevel::Debug.is_enabled(configured_log_level), false);
}

#[test]
fn info_info() {
    let configured_log_level: LogLevel = LogLevel::Info;
    assert_eq!(LogLevel::Info.is_enabled(configured_log_level), true);
}

#[test]
fn info_warn() {
    let configured_log_level: LogLevel = LogLevel::Info;
    assert_eq!(LogLevel::Warn.is_enabled(configured_log_level), true);
}

#[test]
fn increase() {
    assert_eq!(LogLevel::Off.increase(), LogLevel::Error);
    assert_eq!(LogLevel::Error.increase(), LogLevel::Warn);
    assert_eq!(LogLevel::Warn.increase(), LogLevel::Info);
    assert_eq!(LogLevel::Info.increase(), LogLevel::Debug);
    assert_eq!(LogLevel::Debug.increase(), LogLevel::Trace);
    assert_eq!(LogLevel::Trace.increase(), LogLevel::Trace);
}

#[test]
fn decrease() {
    assert_eq!(LogLevel::Off.decrease(), LogLevel::Off);
    assert_eq!(LogLevel::Error.decrease(), LogLevel::Off);
    assert_eq!(LogLevel::Warn.decrease(), LogLevel::Error);
    assert_eq!(LogLevel::Info.decrease(), LogLevel::Warn);
    assert_eq!(LogLevel::Debug.decrease(), LogLevel::Info);
    assert_eq!(LogLevel::Trace.decrease(), LogLevel::Debug);
}

#[test]
fn increase_then_decrease_never_ends_more_verbose() {
    for x in ALL {
        let round_trip: LogLevel = x.increase().decrease();
        assert!(round_trip == x || round_trip == x.decrease());
        assert!(round_trip.ordinal() <= x.ordinal());
    }
    assert_eq!(LogLevel::Trace.increase().decrease(), LogLevel::Debug);
    assert_eq!(LogLevel::Off.increase().decrease(), LogLevel::Off);
}

#[test]
fn warn_is_enabled_from_warn_upwards() {
    assert!(LogLevel::Warn.is_enabled(LogLevel::Info));
    assert!(LogLevel::Warn.is_enabled(LogLevel::Debug));
    assert!(LogLevel::Warn.is_enabled(LogLevel::Trace));
    assert!(LogLevel::Warn.is_enabled(LogLevel::Warn));
    assert!(!LogLevel::Warn.is_enabled(LogLevel::Off));
    assert!(!LogLevel::Warn.is_enabled(LogLevel::Error));
}

#[test]
fn off_configuration_disables_every_message_level() {
    for x in [LogLevel::Error, LogLevel::Warn, LogLevel::Info, LogLevel::Debug, LogLevel::Trace] {
        assert!(!x.is_enabled(LogLevel::Off));
        assert!(x.is_enabled(LogLevel::Trace));
    }
}

#[test]
fn ordinals_follow_the_order() {
    for (i, x) in ALL.iter().enumerate() {
        assert_eq!(x.ordinal() as usize, i);
    }
}
