//! Configuration of an encoder: a template pattern or the structured form.

use vstd::prelude::*;
use vstd::string::*;

verus! {

/// Selects and configures the encoder of one appender.
#[derive(Clone, Debug)]
pub enum EncoderConfig {
    Pattern(PatternEncoderConfig),
    Json(JsonEncoderConfig),
}

/// Configuration of the template encoder: the pattern source text.
#[derive(Clone, Debug)]
pub struct PatternEncoderConfig {
    pub pattern: String,
}

/// Configuration of the structured encoder; it has no options.
#[derive(Clone, Debug)]
pub struct JsonEncoderConfig;

/// The pattern used when a configuration names none.
pub fn default_pattern() -> (r: String)
    ensures
        r@ == "{datetime}|{level}|{target}|{message}{kv(|)(=)}"@,
{
    String::from_str("{datetime}|{level}|{target}|{message}{kv(|)(=)}")
}

} // verus!
