use std::cell::Cell;
use std::rc::Rc;

use hephaestus::line::{compose_line, level_tag, render_line};
use hephaestus::{
    clear_escape_codes_from_str, AppConfig, AppLogger, HasAppConfig, HasLogger, LogLevel,
    LogMessages, Logger, SinkError,
};

fn no_logging() -> AppLogger<LogMessages> {
    let app_config: Rc<AppConfig> = AppConfig::builder().without_logging().build();
    AppLogger::new(app_config, LogMessages::new())
}

fn enable_logging(log_level: LogLevel) -> AppLogger<LogMessages> {
    let app_config: Rc<AppConfig> = AppConfig::builder().with_log_level(log_level).build();
    AppLogger::new(app_config, LogMessages::new())
}

#[test]
fn stdout() {
    let app_config: Rc<AppConfig> = Rc::new(AppConfig::default());
    let mut app_logger: AppLogger<LogMessages> = AppLogger::new(app_config, LogMessages::new());
    app_logger.stdout("The message");
    let log_messages: Vec<String> = app_logger.log_messages();
    assert_eq!(1, log_messages.len());
    let expected: &str = "The message";
    let actual: &str = log_messages.get(0).unwrap();
    assert_eq!(expected, actual);
}

#[test]
fn stdout_ignores_the_level() {
    let mut app_logger: AppLogger<LogMessages> = no_logging();
    app_logger.stdout("The message");
    assert_eq!(app_logger.log_messages(), vec!["The message".to_string()]);
}

#[test]
fn has_logger_off() {
    let mut app_logger: AppLogger<LogMessages> = no_logging();
    if app_logger.is_enabled(LogLevel::Trace) {
        app_logger.trace("the message");
    }
    let log_messages: Vec<String> = app_logger.log_messages();
    assert_eq!(0, log_messages.len());
}

#[test]
fn has_logger_on() {
    let mut app_logger: AppLogger<LogMessages> = enable_logging(LogLevel::Trace);
    if app_logger.is_enabled(LogLevel::Trace) {
        app_logger.trace("the message");
    }
    let log_messages: Vec<String> = app_logger.log_messages();
    assert_eq!(1, log_messages.len());
    let expected: &str = "TRACE the message\n";
    let actual: &str = log_messages.get(0).unwrap();
    assert_eq!(expected, actual);
}

#[test]
fn debug_off() {
    let mut app_logger: AppLogger<LogMessages> = no_logging();
    if app_logger.is_enabled(LogLevel::Debug) {
        app_logger.debug("the message");
    }
    assert_eq!(0, app_logger.log_messages().len());
}

#[test]
fn debug_on() {
    let mut app_logger: AppLogger<LogMessages> = enable_logging(LogLevel::Debug);
    if app_logger.is_enabled(LogLevel::Debug) {
        app_logger.debug("the message");
    }
    let log_messages: Vec<String> = app_logger.log_messages();
    assert_eq!(1, log_messages.len());
    assert_eq!("DEBUG the message\n", log_messages.get(0).unwrap());
}

#[test]
fn info_off() {
    let mut app_logger: AppLogger<LogMessages> = no_logging();
    if app_logger.is_enabled(LogLevel::Info) {
        app_logger.info("the message");
    }
    assert_eq!(0, app_logger.log_messages().len());
}

#[test]
fn info_on() {
    let mut app_logger: AppLogger<LogMessages> = enable_logging(LogLevel::Info);
    if app_logger.is_enabled(LogLevel::Info) {
        app_logger.info("the message");
    }
    let log_messages: Vec<String> = app_logger.log_messages();
    assert_eq!(1, log_messages.len());
    assert_eq!("INFO  the message\n", log_messages.get(0).unwrap());
}

#[test]
fn warn_off() {
    let mut app_logger: AppLogger<LogMessages> = no_logging();
    if app_logger.is_enabled(LogLevel::Warn) {
        app_logger.warn("the message");
    }
    assert_eq!(0, app_logger.log_messages().len());
}

#[test]
fn warn_on() {
    let mut app_logger: AppLogger<LogMessages> = enable_logging(LogLevel::Warn);
    if app_logger.is_enabled(LogLevel::Warn) {
        app_logger.warn("the message");
    }
    let log_messages: Vec<String> = app_logger.log_messages();
    assert_eq!(1, log_messages.len());
    assert_eq!("WARN  the message\n", log_messages.get(0).unwrap());
}

#[test]
fn error_off() {
    let mut app_logger: AppLogger<LogMessages> = no_logging();
    if app_logger.is_enabled(LogLevel::Error) {
        app_logger.error("the message");
    }
    assert_eq!(0, app_logger.log_messages().len());
}

#[test]
fn error_on() {
    let mut app_logger: AppLogger<LogMessages> = enable_logging(LogLevel::Error);
    if app_logger.is_enabled(LogLevel::Error) {
        app_logger.error("the message");
    }
    let log_messages: Vec<String> = app_logger.log_messages();
    assert_eq!(1, log_messages.len());
    assert_eq!("ERROR the message\n", log_messages.get(0).unwrap());
}

#[test]
fn disabled_levels_write_nothing_without_a_guard() {
    let mut app_logger: AppLogger<LogMessages> = enable_logging(LogLevel::Warn);
    app_logger.info("not written");
    app_logger.debug("not written");
    app_logger.trace("not written");
    app_logger.error("first");
    app_logger.warn("second");
    assert_eq!(
        app_logger.log_messages(),
        vec!["ERROR first\n".to_string(), "WARN  second\n".to_string()]
    );
}

#[test]
fn test_logger_captures_lines() {
    let app_config: Rc<AppConfig> = AppConfig::builder().build();
    let mut app_logger: AppLogger<LogMessages> = AppLogger::test_logger(app_config, LogMessages::new());
    app_logger.debug("one");
    app_logger.stdout("two");
    assert_eq!(app_logger.log_messages(), vec!["DEBUG one\n".to_string(), "two".to_string()]);
}

#[test]
fn standard_timestamp_precedes_the_tag() {
    let mut app_logger: AppLogger<LogMessages> =
        AppLogger::new(Rc::new(AppConfig::default()), LogMessages::new());
    app_logger.info("started");
    let log_messages: Vec<String> = app_logger.log_messages();
    assert_eq!(1, log_messages.len());
    let line: &str = &log_messages[0];
    assert_eq!(line.len(), 24 + "INFO  started\n".len());
    assert!(line.ends_with("INFO  started\n"));
    assert_eq!(&line[10..11], "T");
}

#[test]
fn log_stamped_uses_the_given_stamp() {
    let mut app_logger: AppLogger<LogMessages> = enable_logging(LogLevel::Info);
    app_logger.log_stamped(LogLevel::Info, Some("2025-01-02T03:04:05.006 ".to_string()), "hello");
    app_logger.log_stamped(LogLevel::Warn, None, "lost");
    app_logger.log_stamped(LogLevel::Debug, Some("x ".to_string()), "disabled");
    assert_eq!(
        app_logger.log_messages(),
        vec!["2025-01-02T03:04:05.006 INFO  hello\n".to_string()]
    );
}

#[test]
fn refused_time_format_loses_the_line() {
    let app_config: Rc<AppConfig> = AppConfig::builder()
        .with_time_format(hephaestus::TimeFormat::parse("[nonsense]"))
        .build();
    let mut app_logger: AppLogger<LogMessages> = AppLogger::new(app_config, LogMessages::new());
    app_logger.error("lost");
    app_logger.stdout("kept");
    assert_eq!(app_logger.log_messages(), vec!["kept".to_string()]);
}

#[test]
fn capture_sink_strips_escape_codes() {
    let mut log_messages: LogMessages = LogMessages::new();
    assert_eq!(log_messages.write("\x1b[31mred\x1b[0m and plain"), Ok(()));
    assert_eq!(log_messages.flush(), Ok(()));
    assert_eq!(log_messages.log_messages(), vec!["red and plain".to_string()]);
    assert_eq!(log_messages.0, vec!["red and plain".to_string()]);
}

#[test]
fn level_tags_are_five_characters() {
    assert_eq!(level_tag(LogLevel::Trace), "TRACE");
    assert_eq!(level_tag(LogLevel::Debug), "DEBUG");
    assert_eq!(level_tag(LogLevel::Info), "INFO ");
    assert_eq!(level_tag(LogLevel::Warn), "WARN ");
    assert_eq!(level_tag(LogLevel::Error), "ERROR");
}

#[test]
fn compose_line_joins_the_parts() {
    assert_eq!(compose_line("S ", "TAG", "msg"), "S TAG msg\n");
    assert_eq!(compose_line("", "", ""), " \n");
}

#[test]
fn rendered_line_strips_to_plain_text() {
    let line: String = render_line("2025-01-02T03:04:05.006 ", LogLevel::Warn, "disk full");
    assert_eq!(
        clear_escape_codes_from_str(&line),
        "2025-01-02T03:04:05.006 WARN  disk full\n"
    );
}

#[test]
fn facade_exposes_its_configuration() {
    let app_config: Rc<AppConfig> = AppConfig::builder().with_log_level(LogLevel::Debug).build();
    let app_logger: AppLogger<LogMessages> = AppLogger::new(app_config, LogMessages::new());
    assert_eq!(app_logger.app_config().log_level(), LogLevel::Debug);
    assert!(app_logger.is_enabled(LogLevel::Debug));
    assert!(!app_logger.is_enabled(LogLevel::Trace));
}

struct CountingSink {
    writes: Rc<Cell<usize>>,
}

impl Logger for CountingSink {
    fn write(&mut self, _text: &str) -> Result<(), SinkError> {
        self.writes.set(self.writes.get() + 1);
        Ok(())
    }

    fn flush(&mut self) -> Result<(), SinkError> {
        Ok(())
    }

    fn log_messages(&self) -> Vec<String> {
        Vec::new()
    }
}

#[test]
fn disabled_levels_never_call_the_sink() {
    let writes: Rc<Cell<usize>> = Rc::new(Cell::new(0));
    let app_config: Rc<AppConfig> = AppConfig::builder().without_logging().build();
    let mut app_logger: AppLogger<CountingSink> =
        AppLogger::new(app_config, CountingSink { writes: Rc::clone(&writes) });
    app_logger.trace("a");
    app_logger.debug("b");
    app_logger.info("c");
    app_logger.warn("d");
    app_logger.error("e");
    assert_eq!(writes.get(), 0);
    app_logger.stdout("f");
    assert_eq!(writes.get(), 1);
}

#[test]
fn enabled_level_calls_the_sink_once() {
    let writes: Rc<Cell<usize>> = Rc::new(Cell::new(0));
    let app_config: Rc<AppConfig> = AppConfig::builder().with_log_level(LogLevel::Info).build();
    let mut app_logger: AppLogger<CountingSink> =
        AppLogger::new(app_config, CountingSink { writes: Rc::clone(&writes) });
    app_logger.info("a");
    app_logger.debug("b");
    assert_eq!(writes.get(), 1);
}

#[test]
fn escape_codes_in_the_message_are_not_captured() {
    let mut app_logger: AppLogger<LogMessages> = enable_logging(LogLevel::Trace);
    app_logger.trace("a\x1b[31mb\x1b[0m");
    assert_eq!(app_logger.log_messages(), vec!["TRACE ab\n".to_string()]);
}
