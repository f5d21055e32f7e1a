//! The typed configuration value the engine is built from. Loading it from
//! a configuration text is a caller's concern; the engine only requires the
//! populated value.

use vstd::prelude::*;

pub mod appender;
pub mod encoder;
pub mod logger;
pub mod util;

pub use appender::AppenderCommonProperties;
pub use appender::AppenderConfig;
pub use appender::ConsoleAppenderConfig;
pub use appender::FileAppenderConfig;
pub use appender::default_stderr_level;
pub use encoder::EncoderConfig;
pub use encoder::JsonEncoderConfig;
pub use encoder::PatternEncoderConfig;
pub use encoder::default_pattern;
pub use logger::LoggerConfig;
pub use logger::LoggerTargetMatcher;
pub use logger::default_level;

verus! {

/// A complete configuration: named destinations in declaration order, the
/// root routing rule, and the further rules in declaration order.
#[derive(Clone, Debug)]
pub struct Config {
    pub appenders: Vec<(String, AppenderConfig)>,
    pub root: LoggerConfig,
    pub loggers: Vec<LoggerConfig>,
}

} // verus!
