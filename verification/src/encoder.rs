//! The two encoders: the template encoder and the structured encoder.
//! Both are pure transforms from a snapshot to one line of output text.

use vstd::prelude::*;

pub mod json;
pub mod pattern;

pub use json::JsonEncoder;
pub use pattern::level2color;
pub use pattern::parse_placeholders;
pub use pattern::PatternEncoder;
pub use pattern::Placeholder;

use crate::Error;
use crate::config::EncoderConfig;
use crate::encoder::json::json_record;
use crate::encoder::pattern::{datetime_count, nodes_of, pattern_nodes, rendered};
use crate::snapshot::Snapshot;

verus! {

/// One of the two encoders, dispatched by matching.
#[derive(Debug)]
pub enum Encoder {
    Pattern(PatternEncoder),
    Json(JsonEncoder),
}

/// Does `out` encode `snap` under encoder `e`? For the structured encoder
/// the output is pinned exactly; for the template encoder everything but
/// the timestamp renderings is pinned, since those depend on the
/// machine's time zone.
pub open spec fn encodes(e: Encoder, snap: Snapshot, out: Seq<char>) -> bool {
    match e {
        Encoder::Pattern(p) => exists|dts: Seq<Seq<char>>|
            dts.len() == datetime_count(
                nodes_of(p.placeholders@),
                p.placeholders@.len() as int,
            ) && out == rendered(nodes_of(p.placeholders@), snap, dts),
        Encoder::Json(_) => out == json_record(snap),
    }
}

/// Is this encoder configuration well formed: does a pattern compile?
pub open spec fn encoder_config_ok(config: EncoderConfig) -> bool {
    match config {
        EncoderConfig::Pattern(c) => pattern_nodes(c.pattern@) is Some,
        EncoderConfig::Json(_) => true,
    }
}

/// Is `e` the encoder that `config` describes?
pub open spec fn encoder_matches_config(e: Encoder, config: EncoderConfig) -> bool {
    match (e, config) {
        (Encoder::Pattern(enc), EncoderConfig::Pattern(c)) => pattern_nodes(c.pattern@) == Some(
            nodes_of(enc.placeholders@),
        ),
        (Encoder::Json(_), EncoderConfig::Json(_)) => true,
        _ => false,
    }
}

/// Builds the configured encoder. A malformed pattern is a configuration
/// error.
pub fn from_config(config: &EncoderConfig) -> (r: Result<Encoder, Error>)
    ensures
        r is Ok <==> encoder_config_ok(*config),
        r matches Ok(e) ==> encoder_matches_config(e, *config),
{
    match config {
        EncoderConfig::Pattern(c) => match PatternEncoder::from_config(c) {
            Ok(e) => Ok(Encoder::Pattern(e)),
            Err(e) => Err(e),
        },
        EncoderConfig::Json(c) => match JsonEncoder::from_config(c) {
            Ok(e) => Ok(Encoder::Json(e)),
            Err(e) => Err(e),
        },
    }
}

impl Encoder {
    /// Renders one snapshot with this encoder.
    pub fn encode(&self, snap: &Snapshot) -> (r: String)
        ensures
            encodes(*self, *snap, r@),
    {
        match self {
            Encoder::Pattern(p) => p.encode(snap),
            Encoder::Json(j) => j.encode(snap),
        }
    }
}

} // verus!
