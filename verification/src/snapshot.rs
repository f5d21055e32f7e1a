//! The owned, immutable copy of one event: everything the writer needs after
//! the event has left its call site. Field values are kept as plain data;
//! a value that only its producer can render arrives already serialized.

use vstd::prelude::*;
use crate::level::Level;

verus! {

/// One key/value payload of an event.
///
/// `Str` renders quoted, `Int` and `Bool` render bare, and `Serialized`
/// carries text that is already a serialized literal and is emitted as is.
#[derive(Debug)]
pub enum FieldValue {
    Str(String),
    Int(i64),
    Bool(bool),
    Serialized(String),
}

impl Clone for FieldValue {
    fn clone(&self) -> (r: Self)
        ensures
            r == *self,
    {
        match self {
            FieldValue::Str(s) => FieldValue::Str(s.clone()),
            FieldValue::Int(n) => FieldValue::Int(*n),
            FieldValue::Bool(b) => FieldValue::Bool(*b),
            FieldValue::Serialized(s) => FieldValue::Serialized(s.clone()),
        }
    }
}

/// The owned copy of one event, safe to hand across a thread boundary:
/// no field borrows caller data.
#[derive(Clone, Debug)]
pub struct Snapshot {
    /// Milliseconds since the Unix epoch at which the event was emitted.
    pub timestamp_millis: i64,
    /// The event's severity.
    pub level: Level,
    /// The hierarchical target string, e.g. `"app::db"`.
    pub target: String,
    /// The emitting module path, when known.
    pub module: Option<String>,
    /// The emitting source file, when known.
    pub file: Option<String>,
    /// The emitting source line, when known.
    pub line: Option<u32>,
    /// The rendered message.
    pub message: String,
    /// The key/value fields in emission order; duplicate keys are retained.
    pub fields: Vec<(String, FieldValue)>,
}

impl Snapshot {
    /// Captures an event into an owned snapshot. The constructor only takes
    /// ownership: every part of the event was materialized by the caller.
    pub fn new(
        timestamp_millis: i64,
        level: Level,
        target: String,
        module: Option<String>,
        file: Option<String>,
        line: Option<u32>,
        message: String,
        fields: Vec<(String, FieldValue)>,
    ) -> (r: Snapshot)
        ensures
            r.timestamp_millis == timestamp_millis,
            r.level == level,
            r.target == target,
            r.module == module,
            r.file == file,
            r.line == line,
            r.message == message,
            r.fields == fields,
    {
        Snapshot { timestamp_millis, level, target, module, file, line, message, fields }
    }
}

} // verus!
