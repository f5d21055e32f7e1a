//! The console destination: each line goes to standard error when the
//! event's level is at or below the configured threshold, otherwise to
//! standard output. A broken standard stream is reported to the caller;
//! the write itself is the only unverified step.

use vstd::prelude::*;
use std::io::Write;
use crate::Error;
use crate::config::ConsoleAppenderConfig;
use crate::encoder::{encodes, encoder_config_ok, encoder_matches_config, from_config, Encoder};
use crate::level::{level_admitted, Level, LevelFilter};
use crate::snapshot::Snapshot;

verus! {

/// Relies on std's `Stdout`: writes the line and a newline to standard
/// output, reporting success.
#[verifier::external_body]
fn write_stdout_line(s: &str) -> (r: bool) {
    let mut out = std::io::stdout();
    writeln!(out, "{}", s).is_ok()
}

/// Relies on std's `Stderr`: writes the line and a newline to standard
/// error, reporting success.
#[verifier::external_body]
fn write_stderr_line(s: &str) -> (r: bool) {
    let mut out = std::io::stderr();
    writeln!(out, "{}", s).is_ok()
}

/// Relies on std's `Stdout::flush`: flushes standard output, reporting
/// success.
#[verifier::external_body]
fn flush_stdout() -> (r: bool) {
    std::io::stdout().flush().is_ok()
}

/// Relies on std's `Stderr::flush`: flushes standard error, reporting
/// success.
#[verifier::external_body]
fn flush_stderr() -> (r: bool) {
    std::io::stderr().flush().is_ok()
}

/// The console destination: an encoder and the standard-error threshold.
#[derive(Debug)]
pub struct ConsoleAppender {
    /// The encoder every line goes through.
    pub encoder: Encoder,
    /// Events at or below this level go to standard error.
    pub stderr_level: LevelFilter,
}

impl ConsoleAppender {
    /// Builds the appender from its configuration; only a malformed
    /// encoder pattern can fail.
    pub fn from_config(config: &ConsoleAppenderConfig) -> (r: Result<ConsoleAppender, Error>)
        ensures
            r is Ok <==> encoder_config_ok(config.common.encoder),
            r matches Ok(a) ==> encoder_matches_config(a.encoder, config.common.encoder)
                && a.stderr_level == config.stderr_level,
    {
        match from_config(&config.common.encoder) {
            Ok(encoder) => Ok(ConsoleAppender { encoder, stderr_level: config.stderr_level }),
            Err(e) => Err(e.concat("failed to create encoder")),
        }
    }

    /// Does an event of this level go to standard error?
    pub fn uses_stderr(&self, level: Level) -> (r: bool)
        ensures
            r == level_admitted(level, self.stderr_level),
    {
        level.admitted_by(self.stderr_level)
    }

    /// Encodes the snapshot and writes one line to the device its level
    /// selects. Returns whether the write succeeded, and the line that
    /// was written.
    pub fn append(&self, snap: &Snapshot) -> (r: (bool, String))
        ensures
            encodes(self.encoder, *snap, r.1@),
    {
        let line = self.encoder.encode(snap);
        let ok = if self.uses_stderr(snap.level) {
            write_stderr_line(line.as_str())
        } else {
            write_stdout_line(line.as_str())
        };
        (ok, line)
    }

    /// Flushes standard output, and standard error when its threshold is
    /// enabled. Returns whether every flush succeeded.
    pub fn flush(&self) -> (r: bool) {
        let out_ok = flush_stdout();
        if self.stderr_level.rank() > 0 {
            let err_ok = flush_stderr();
            out_ok && err_ok
        } else {
            out_ok
        }
    }
}

} // verus!
