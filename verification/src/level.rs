//! Severity levels of events and level thresholds of rules and appenders,
//! ordered as the `log` facade orders them: `Error` is the most severe and
//! compares lowest, `Trace` the most verbose and compares highest, and the
//! filter value `Off` sits below every level.

use vstd::prelude::*;
use vstd::string::*;

verus! {

/// The severity of one event.
#[derive(Clone, Copy, PartialEq, Eq, Structural, Debug)]
pub enum Level {
    Error,
    Warn,
    Info,
    Debug,
    Trace,
}

/// A verbosity threshold: `Off` admits nothing, `Trace` admits everything.
#[derive(Clone, Copy, PartialEq, Eq, Structural, Debug)]
pub enum LevelFilter {
    Off,
    Error,
    Warn,
    Info,
    Debug,
    Trace,
}

/// The rank of a level: 1 for `Error` up to 5 for `Trace`.
pub open spec fn level_rank(l: Level) -> int {
    match l {
        Level::Error => 1,
        Level::Warn => 2,
        Level::Info => 3,
        Level::Debug => 4,
        Level::Trace => 5,
    }
}

/// The rank of a filter: 0 for `Off` up to 5 for `Trace`.
pub open spec fn filter_rank(f: LevelFilter) -> int {
    match f {
        LevelFilter::Off => 0,
        LevelFilter::Error => 1,
        LevelFilter::Warn => 2,
        LevelFilter::Info => 3,
        LevelFilter::Debug => 4,
        LevelFilter::Trace => 5,
    }
}

/// Does the filter `f` admit events of level `l`?
pub open spec fn level_admitted(l: Level, f: LevelFilter) -> bool {
    level_rank(l) <= filter_rank(f)
}

/// The display name of a level, as the `log` facade prints it.
pub open spec fn spec_level_name(l: Level) -> Seq<char> {
    match l {
        Level::Error => "ERROR"@,
        Level::Warn => "WARN"@,
        Level::Info => "INFO"@,
        Level::Debug => "DEBUG"@,
        Level::Trace => "TRACE"@,
    }
}

impl Level {
    /// The rank of this level; smaller means more severe.
    pub fn rank(&self) -> (r: u8)
        ensures
            r as int == level_rank(*self),
    {
        match self {
            Level::Error => 1,
            Level::Warn => 2,
            Level::Info => 3,
            Level::Debug => 4,
            Level::Trace => 5,
        }
    }

    /// Does the threshold `f` admit events of this level?
    pub fn admitted_by(&self, f: LevelFilter) -> (r: bool)
        ensures
            r == level_admitted(*self, f),
    {
        self.rank() <= f.rank()
    }

    /// The display name of this level.
    pub fn name(&self) -> (r: &'static str)
        ensures
            r@ == spec_level_name(*self),
    {
        match self {
            Level::Error => "ERROR",
            Level::Warn => "WARN",
            Level::Info => "INFO",
            Level::Debug => "DEBUG",
            Level::Trace => "TRACE",
        }
    }
}

impl LevelFilter {
    /// The rank of this threshold; 0 admits nothing.
    pub fn rank(&self) -> (r: u8)
        ensures
            r as int == filter_rank(*self),
    {
        match self {
            LevelFilter::Off => 0,
            LevelFilter::Error => 1,
            LevelFilter::Warn => 2,
            LevelFilter::Info => 3,
            LevelFilter::Debug => 4,
            LevelFilter::Trace => 5,
        }
    }

    /// The more verbose of the two thresholds.
    pub fn max(self, other: LevelFilter) -> (r: LevelFilter)
        ensures
            filter_rank(r) == if filter_rank(self) >= filter_rank(other) {
                filter_rank(self)
            } else {
                filter_rank(other)
            },
            r == self || r == other,
    {
        if self.rank() >= other.rank() {
            self
        } else {
            other
        }
    }
}

} // verus!
