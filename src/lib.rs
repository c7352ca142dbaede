//! Leveled, configuration-driven logging for a command-line tool: verbosity
//! flags resolve to a `LogLevel`, which gates the lines a logger renders and
//! hands to its sink.

pub mod clock;
pub mod config;
pub mod escape;
pub mod files;
pub mod level;
pub mod line;
pub mod logger;
pub mod paint;
pub mod stat;
pub mod verbosity;

pub use clock::TimeFormat;
pub use config::{AppConfig, AppConfigBuilder, HasAppConfig};
pub use escape::{clear_escape_codes, clear_escape_codes_from_str};
pub use level::LogLevel;
pub use verbosity::{make_log_level, Cli};
pub use logger::{AppLogger, HasLogger, LogMessages, Logger, SinkError};
pub use files::{FileSet, FileSetGlob};
pub use stat::{FileMode, FileSize};
