//! The destinations, as a closed set dispatched by matching: the console
//! appender writes its lines itself, the file appender plans operations
//! the runner performs.

use vstd::prelude::*;

pub mod console;
pub mod file;

pub use console::ConsoleAppender;
pub use file::{FileAppender, FileOp, FileOpView};

use crate::Error;
use crate::config::AppenderConfig;
use crate::encoder::{encodes, encoder_config_ok, encoder_matches_config};
use crate::appender::file::{file_append_effect, file_name_of, ops_of, spec_file_active};
use crate::snapshot::Snapshot;

verus! {

/// One destination.
#[derive(Debug)]
pub enum Appender {
    Console(ConsoleAppender),
    File(FileAppender),
}

/// What one append produced.
pub enum AppendOutcome {
    /// The console already wrote this line; `ok` reports the write.
    Console { ok: bool, line: String },
    /// The file appender planned these operations and this line for the
    /// runner to perform, in order: operations first, then the line.
    FileWrite { ops: Vec<FileOp>, line: String },
    /// The file appender is cooling down after a failure; the event is
    /// dropped for this destination.
    Skipped,
}

/// Is this appender configuration well formed?
pub open spec fn appender_config_ok(config: AppenderConfig) -> bool {
    match config {
        AppenderConfig::Console(c) => encoder_config_ok(c.common.encoder),
        AppenderConfig::File(c) => encoder_config_ok(c.common.encoder) && file_name_of(
            c.path@,
        ).len() > 0,
    }
}

/// Is `a` the appender that `config` describes?
pub open spec fn appender_matches_config(a: Appender, config: AppenderConfig) -> bool {
    match (a, config) {
        (Appender::Console(ca), AppenderConfig::Console(c)) => encoder_matches_config(
            ca.encoder,
            c.common.encoder,
        ) && ca.stderr_level == c.stderr_level,
        (Appender::File(fa), AppenderConfig::File(c)) => {
            &&& encoder_matches_config(fa.encoder, c.common.encoder)
            &&& fa.path@ == c.path@
            &&& fa.file_len == 0
            &&& fa.max_file_size == c.max_file_size
            &&& fa.max_backup_index == c.max_backup_index
        },
        _ => false,
    }
}

/// Builds the configured appender. A malformed encoder pattern or an
/// unusable file path is a configuration error.
pub fn from_config(config: &AppenderConfig) -> (r: Result<Appender, Error>)
    ensures
        r is Ok <==> appender_config_ok(*config),
        r matches Ok(a) ==> appender_matches_config(a, *config),
{
    match config {
        AppenderConfig::Console(c) => match ConsoleAppender::from_config(c) {
            Ok(a) => Ok(Appender::Console(a)),
            Err(e) => Err(e),
        },
        AppenderConfig::File(c) => match FileAppender::from_config(c) {
            Ok(a) => Ok(Appender::File(a)),
            Err(e) => Err(e),
        },
    }
}

/// The encoder a destination renders with.
pub open spec fn appender_encoder(a: Appender) -> crate::encoder::Encoder {
    match a {
        Appender::Console(c) => c.encoder,
        Appender::File(f) => f.encoder,
    }
}

/// The time before which a destination drops events; a console never
/// cools down.
pub open spec fn appender_cooldown(a: Appender) -> int {
    match a {
        Appender::Console(_) => i64::MIN as int,
        Appender::File(f) => f.disabled_until_millis as int,
    }
}

/// The effect of one append on one appender: a console appender is
/// unchanged and has written an encoding of the snapshot; an active file
/// appender accounts for its line and plans its operations; a
/// cooling-down file appender drops the event unchanged.
pub open spec fn append_effect(
    pre: Appender,
    post: Appender,
    snap: Snapshot,
    now_millis: i64,
    r: AppendOutcome,
) -> bool {
    match pre {
        Appender::Console(c) => post == pre && (r matches AppendOutcome::Console { ok, line }
            && encodes(c.encoder, snap, line@)),
        Appender::File(f) => if spec_file_active(f, now_millis) {
            match r {
                AppendOutcome::FileWrite { ops, line } => post matches Appender::File(f2)
                    && file_append_effect(f, f2, snap, ops_of(ops@), line@),
                _ => false,
            }
        } else {
            post == pre && (r matches AppendOutcome::Skipped)
        },
    }
}

impl Appender {
    /// Delivers one snapshot to this destination, as `append_effect`
    /// describes it.
    pub fn append(&mut self, snap: &Snapshot, now_millis: i64) -> (r: AppendOutcome)
        ensures
            append_effect(*old(self), *final(self), *snap, now_millis, r),
            appender_encoder(*final(self)) == appender_encoder(*old(self)),
            appender_cooldown(*final(self)) == appender_cooldown(*old(self)),
            (*final(self) matches Appender::File(_)) == (*old(self) matches Appender::File(_)),
            (r matches AppendOutcome::FileWrite { .. }) == ((*old(self) matches Appender::File(
                _,
            )) && appender_cooldown(*old(self)) <= now_millis),
    {
        match self {
            Appender::Console(c) => {
                let (ok, line) = c.append(snap);
                AppendOutcome::Console { ok, line }
            },
            Appender::File(f) => {
                if f.is_active(now_millis) {
                    let (ops, line) = f.append(snap);
                    AppendOutcome::FileWrite { ops, line }
                } else {
                    AppendOutcome::Skipped
                }
            },
        }
    }

    /// Flushes a console appender in place; for a file appender the
    /// runner must flush, so `true` is returned and the runner learns of
    /// the need through `is_file`.
    pub fn flush(&self) -> (r: bool) {
        match self {
            Appender::Console(c) => c.flush(),
            Appender::File(_) => true,
        }
    }

    /// Is this a file appender, whose device the runner owns?
    pub fn is_file(&self) -> (r: bool)
        ensures
            r == (self matches Appender::File(_)),
    {
        match self {
            Appender::File(_) => true,
            Appender::Console(_) => false,
        }
    }
}

} // verus!
