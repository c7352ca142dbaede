use std::rc::Rc;

use vstd::prelude::*;

use crate::clock::{TimeFormat, STANDARD_DESCRIPTION, description_accepted};
use crate::level::LogLevel;
use crate::verbosity::{Cli, make_log_level, resolved_level};

verus! {

/// The settings of one run, made once at startup and only read after that:
/// the root directory (for display), the resolved log level and the parsed
/// timestamp format.
#[derive(Debug)]
pub struct AppConfig {
    root_directory: String,
    log_level: LogLevel,
    time_format: TimeFormat,
}

impl AppConfig {
    pub closed spec fn root(&self) -> Seq<char> {
        self.root_directory@
    }

    pub closed spec fn level(&self) -> LogLevel {
        self.log_level
    }

    pub closed spec fn format(&self) -> &TimeFormat {
        &self.time_format
    }

    pub fn root_directory(&self) -> (r: &str)
        ensures
            r@ == self.root(),
    {
        self.root_directory.as_str()
    }

    pub fn log_level(&self) -> (r: LogLevel)
        ensures
            r == self.level(),
    {
        self.log_level
    }

    pub fn time_format(&self) -> (r: &TimeFormat)
        ensures
            r == self.format(),
    {
        &self.time_format
    }

    pub fn builder() -> (r: AppConfigBuilder)
        ensures
            r.root() == seq!['.'],
            r.level() == LogLevel::Trace,
            r.format().text() == Seq::<char>::empty(),
            r.format().usable() == description_accepted(Seq::<char>::empty()),
    {
        AppConfigBuilder::new()
    }

    /// The configuration of a run in `root_directory` with the verbosity
    /// flags of `cli`, timestamps in the standard format.
    pub fn new(root_directory: &str, cli: &Cli) -> (r: Rc<AppConfig>)
        ensures
            r.root() == root_directory@,
            r.level() == resolved_level(cli.quiet as int, cli.verbose as int),
            r.format().text() == STANDARD_DESCRIPTION@,
            r.format().usable() == description_accepted(STANDARD_DESCRIPTION@),
    {
        let app_config: AppConfig = AppConfig {
            root_directory: root_directory.to_owned(),
            log_level: make_log_level(cli),
            time_format: TimeFormat::standard(),
        };
        Rc::new(app_config)
    }
}

impl Default for AppConfig {
    /// The configuration of a run in `.` without verbosity flags: level
    /// `Info`, timestamps in the standard format.
    fn default() -> (r: AppConfig)
        ensures
            r.root() == seq!['.'],
            r.level() == LogLevel::Info,
            r.format().text() == STANDARD_DESCRIPTION@,
            r.format().usable() == description_accepted(STANDARD_DESCRIPTION@),
    {
        let root_directory: &str = ".";
        proof {
            reveal_strlit(".");
        }
        AppConfig {
            root_directory: root_directory.to_owned(),
            log_level: LogLevel::Info,
            time_format: TimeFormat::standard(),
        }
    }
}

impl PartialEq for AppConfig {
    fn eq(&self, other: &AppConfig) -> (r: bool) {
        self.root_directory == other.root_directory && self.log_level == other.log_level
            && self.time_format.same_as(&other.time_format)
    }
}

impl vstd::std_specs::cmp::PartialEqSpecImpl for AppConfig {
    open spec fn obeys_eq_spec() -> bool {
        true
    }

    open spec fn eq_spec(&self, other: &AppConfig) -> bool {
        &&& self.root() == other.root()
        &&& self.level() == other.level()
        &&& self.format().text() == other.format().text()
    }
}

/// Gives access to the configuration a component was made with.
pub trait HasAppConfig {
    fn app_config(&self) -> &AppConfig;
}

/// Builds an `AppConfig` field by field; it starts from the root `.`, level
/// `Trace` and an empty timestamp format.
#[derive(Debug)]
pub struct AppConfigBuilder {
    root_directory: String,
    log_level: LogLevel,
    time_format: TimeFormat,
}

impl AppConfigBuilder {
    pub closed spec fn root(&self) -> Seq<char> {
        self.root_directory@
    }

    pub closed spec fn level(&self) -> LogLevel {
        self.log_level
    }

    pub closed spec fn format(&self) -> &TimeFormat {
        &self.time_format
    }

    pub fn new() -> (r: AppConfigBuilder)
        ensures
            r.root() == seq!['.'],
            r.level() == LogLevel::Trace,
            r.format().text() == Seq::<char>::empty(),
            r.format().usable() == description_accepted(Seq::<char>::empty()),
    {
        let root_directory: &str = ".";
        proof {
            reveal_strlit(".");
        }
        AppConfigBuilder {
            root_directory: root_directory.to_owned(),
            log_level: LogLevel::Trace,
            time_format: TimeFormat::empty(),
        }
    }

    pub fn with_root_directory(self, root_directory: &str) -> (r: AppConfigBuilder)
        ensures
            r.root() == root_directory@,
            r.level() == self.level(),
            r.format() == self.format(),
    {
        AppConfigBuilder { root_directory: root_directory.to_owned(), ..self }
    }

    pub fn without_logging(self) -> (r: AppConfigBuilder)
        ensures
            r.root() == self.root(),
            r.level() == LogLevel::Off,
            r.format() == self.format(),
    {
        AppConfigBuilder { log_level: LogLevel::Off, ..self }
    }

    pub fn with_log_level(self, log_level: LogLevel) -> (r: AppConfigBuilder)
        ensures
            r.root() == self.root(),
            r.level() == log_level,
            r.format() == self.format(),
    {
        AppConfigBuilder { log_level, ..self }
    }

    pub fn with_time_format(self, time_format: TimeFormat) -> (r: AppConfigBuilder)
        ensures
            r.root() == self.root(),
            r.level() == self.level(),
            *r.format() == time_format,
    {
        AppConfigBuilder { time_format, ..self }
    }

    pub fn build(self) -> (r: Rc<AppConfig>)
        ensures
            r.root() == self.root(),
            r.level() == self.level(),
            r.format() == self.format(),
    {
        let app_config: AppConfig = AppConfig {
            root_directory: self.root_directory,
            log_level: self.log_level,
            time_format: self.time_format,
        };
        Rc::new(app_config)
    }
}

} // verus!
