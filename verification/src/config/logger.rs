//! Configuration of one routing rule: a target pattern, how it is matched,
//! a level threshold, and the names of the destinations it feeds.

use vstd::prelude::*;
use crate::level::LevelFilter;

verus! {

/// One routing rule as configured. An empty `appenders` list means the
/// rule inherits the root rule's appenders when the engine is built.
#[derive(Clone, Debug)]
pub struct LoggerConfig {
    pub target: String,
    pub target_matcher: LoggerTargetMatcher,
    pub level: LevelFilter,
    pub appenders: Vec<String>,
}

/// How a rule's target pattern is held against an event's target.
#[derive(Clone, Copy, PartialEq, Eq, Structural, Debug)]
pub enum LoggerTargetMatcher {
    /// The event's target starts with the pattern.
    Prefix,
    /// The event's target does not start with the pattern.
    PrefixInverse,
    /// The event's target equals the pattern.
    Exact,
}

impl Default for LoggerTargetMatcher {
    fn default() -> (r: Self)
        ensures
            r == LoggerTargetMatcher::Prefix,
    {
        LoggerTargetMatcher::Prefix
    }
}

/// The level threshold used when a rule names none.
pub fn default_level() -> (r: LevelFilter)
    ensures
        r == LevelFilter::Info,
{
    LevelFilter::Info
}

} // verus!
