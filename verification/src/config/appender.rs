//! Configuration of the destinations: console and size-rotated file.

use vstd::prelude::*;
use crate::config::encoder::EncoderConfig;
use crate::level::LevelFilter;

verus! {

/// Selects and configures one destination.
#[derive(Clone, Debug)]
pub enum AppenderConfig {
    Console(ConsoleAppenderConfig),
    File(FileAppenderConfig),
}

/// What every destination carries: its encoder.
#[derive(Clone, Debug)]
pub struct AppenderCommonProperties {
    pub encoder: EncoderConfig,
}

/// A console destination. Events at or below `stderr_level` go to standard
/// error, the rest to standard output.
#[derive(Clone, Debug)]
pub struct ConsoleAppenderConfig {
    pub common: AppenderCommonProperties,
    pub stderr_level: LevelFilter,
}

/// A file destination with size-triggered rotation. A `max_file_size` of 0
/// disables rotation.
#[derive(Clone, Debug)]
pub struct FileAppenderConfig {
    pub common: AppenderCommonProperties,
    pub path: String,
    pub max_file_size: u64,
    pub max_backup_index: usize,
}

/// The standard-error threshold used when a console configuration names
/// none: standard error is never used.
pub fn default_stderr_level() -> (r: LevelFilter)
    ensures
        r == LevelFilter::Off,
{
    LevelFilter::Off
}

} // verus!
