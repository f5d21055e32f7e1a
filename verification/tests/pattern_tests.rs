//! Tests of the template encoder: placeholder compilation, pattern
//! compilation, and evaluation over a snapshot.

use naive_logger::config::{default_pattern, PatternEncoderConfig};
use naive_logger::encoder::pattern::{level2color, parse_placeholders, Placeholder, PatternEncoder};
use naive_logger::level::Level;
use naive_logger::snapshot::{FieldValue, Snapshot};

const TEST_TIMESTAMP: i64 = 1722400496789;
const TEST_LEVEL: Level = Level::Debug;
const TEST_TARGET: &str = "naive_logger::tests";
const TEST_MODULE: &str = "naive_logger::tests";
const TEST_FILE: &str = "tests/pattern_tests.rs";
const TEST_LINE: u32 = 41;
const TEST_MESSAGE: &str = "a string with \"quotes\"";

fn no_args() -> Vec<String> {
    Vec::new()
}

fn args(list: &[&str]) -> Vec<String> {
    list.iter().map(|s| s.to_string()).collect()
}

fn test_snapshot() -> Snapshot {
    Snapshot::new(
        TEST_TIMESTAMP,
        TEST_LEVEL,
        TEST_TARGET.to_string(),
        Some(TEST_MODULE.to_string()),
        Some(TEST_FILE.to_string()),
        Some(TEST_LINE),
        TEST_MESSAGE.to_string(),
        vec![
            ("number".to_string(), FieldValue::Int(42)),
            ("string".to_string(), FieldValue::Str("hello".to_string())),
            ("boolean".to_string(), FieldValue::Bool(true)),
            (
                "vec".to_string(),
                FieldValue::Serialized(serde_json::to_string(&[0, 1, 2, 3]).unwrap()),
            ),
        ],
    )
}

#[test]
fn test_parse_placeholder() {
    let result = Placeholder::try_parse("invalid", &no_args());
    assert!(result.is_err());

    let placeholder = Placeholder::try_parse("datetime", &no_args()).unwrap();
    assert!(
        matches!(placeholder, Placeholder::Datetime { format } if format == "%Y-%m-%dT%H:%M:%S%.3f%z")
    );
    let datetime_format = "%Y-%m-%d %H:%M:%S%.3f";
    let placeholder = Placeholder::try_parse("datetime", &args(&[datetime_format])).unwrap();
    assert!(matches!(placeholder, Placeholder::Datetime { format } if format == datetime_format));
    let result = Placeholder::try_parse("datetime", &args(&["", ""]));
    assert!(result.is_err());

    let placeholder = Placeholder::try_parse("level", &no_args()).unwrap();
    assert!(matches!(placeholder, Placeholder::Level));
    let result = Placeholder::try_parse("level", &args(&[""]));
    assert!(result.is_err());

    let placeholder = Placeholder::try_parse("target", &no_args()).unwrap();
    assert!(matches!(placeholder, Placeholder::Target));
    let result = Placeholder::try_parse("target", &args(&[""]));
    assert!(result.is_err());

    let placeholder = Placeholder::try_parse("module", &no_args()).unwrap();
    assert!(matches!(placeholder, Placeholder::Module));
    let result = Placeholder::try_parse("module", &args(&[""]));
    assert!(result.is_err());

    let placeholder = Placeholder::try_parse("file", &no_args()).unwrap();
    assert!(matches!(placeholder, Placeholder::File));
    let result = Placeholder::try_parse("file", &args(&[""]));
    assert!(result.is_err());

    let placeholder = Placeholder::try_parse("line", &no_args()).unwrap();
    assert!(matches!(placeholder, Placeholder::Line));
    let result = Placeholder::try_parse("line", &args(&[""]));
    assert!(result.is_err());

    let placeholder = Placeholder::try_parse("message", &no_args()).unwrap();
    assert!(matches!(placeholder, Placeholder::Message));
    let result = Placeholder::try_parse("message", &args(&[""]));
    assert!(result.is_err());

    let placeholder = Placeholder::try_parse("kv", &args(&["|", "="])).unwrap();
    assert!(
        matches!(placeholder, Placeholder::KeyValuePairs { pair_separator, kv_separator } if pair_separator == "|" && kv_separator == "=")
    );
    let result = Placeholder::try_parse("kv", &no_args());
    assert!(result.is_err());
}

#[test]
fn test_parse_placeholders() {
    let pattern = "-- {datetime(%Y-%m-%d %H:%M:%S%.3f)}|{colorStart}{level}{colorEnd}|{target}|{module}|{file}:{line}|{message}{kv(|)(=)} --";
    let result = parse_placeholders(pattern).unwrap();
    assert!(matches!(&result[0], Placeholder::Literal { content } if content == "-- "));
    assert!(
        matches!(&result[1], Placeholder::Datetime { format } if format == "%Y-%m-%d %H:%M:%S%.3f")
    );
    assert!(matches!(&result[2], Placeholder::Literal { content } if content == "|"));
    assert!(matches!(&result[3], Placeholder::ColorStart));
    assert!(matches!(&result[4], Placeholder::Level));
    assert!(matches!(&result[5], Placeholder::ColorEnd));
    assert!(matches!(&result[6], Placeholder::Literal { content } if content == "|"));
    assert!(matches!(&result[7], Placeholder::Target));
    assert!(matches!(&result[8], Placeholder::Literal { content } if content == "|"));
    assert!(matches!(&result[9], Placeholder::Module));
    assert!(matches!(&result[10], Placeholder::Literal { content } if content == "|"));
    assert!(matches!(&result[11], Placeholder::File));
    assert!(matches!(&result[12], Placeholder::Literal { content } if content == ":"));
    assert!(matches!(&result[13], Placeholder::Line));
    assert!(matches!(&result[14], Placeholder::Literal { content } if content == "|"));
    assert!(matches!(&result[15], Placeholder::Message));
    assert!(
        matches!(&result[16], Placeholder::KeyValuePairs { pair_separator, kv_separator } if pair_separator == "|" && kv_separator == "=")
    );
    assert!(matches!(&result[17], Placeholder::Literal { content } if content == " --"));

    let pattern = "{invalid_placeholder}";
    let result = parse_placeholders(pattern);
    assert!(result.is_err());

    let pattern = "{datetime";
    let result = parse_placeholders(pattern);
    assert!(result.is_err());

    let pattern = "{datetime(";
    let result = parse_placeholders(pattern);
    assert!(result.is_err());

    let pattern = "{datetime(%+)(";
    let result = parse_placeholders(pattern);
    assert!(result.is_err());

    let pattern = "{datetime(%+)(}";
    let result = parse_placeholders(pattern);
    assert!(result.is_err());

    let pattern = "{datetime(%+)x";
    let result = parse_placeholders(pattern);
    assert!(result.is_err());

    let pattern = "{datetime(%+)x}";
    let result = parse_placeholders(pattern);
    assert!(result.is_err());
}

#[test]
fn pattern_test_encode() {
    let datetime: chrono::DateTime<chrono::Local> =
        chrono::DateTime::from_timestamp_millis(TEST_TIMESTAMP).unwrap().into();
    let encoder = PatternEncoder {
        placeholders: vec![
            Placeholder::Datetime { format: "%Y-%m-%d %H:%M:%S%.3f".to_string() },
            Placeholder::Literal { content: "|".to_string() },
            Placeholder::ColorStart,
            Placeholder::Level,
            Placeholder::ColorEnd,
            Placeholder::Literal { content: "|".to_string() },
            Placeholder::Target,
            Placeholder::Literal { content: "|".to_string() },
            Placeholder::Module,
            Placeholder::Literal { content: "|".to_string() },
            Placeholder::File,
            Placeholder::Literal { content: ":".to_string() },
            Placeholder::Line,
            Placeholder::Literal { content: "|".to_string() },
            Placeholder::Message,
            Placeholder::KeyValuePairs {
                pair_separator: "|".to_string(),
                kv_separator: "=".to_string(),
            },
        ],
    };
    let snapshot = test_snapshot();
    let datetime_text = datetime.format("%Y-%m-%d %H:%M:%S%.3f").to_string();
    let result = encoder.encode_with(&snapshot, &vec![datetime_text.clone()]);

    assert_eq!(
        result,
        format!(
            "{}|{}{}{}|{}|{}|{}:{}|{}|{}={}|{}={}|{}={}|{}={}",
            datetime_text,
            level2color(TEST_LEVEL),
            "DEBUG",
            "\u{1b}[0m",
            TEST_TARGET,
            TEST_MODULE,
            TEST_FILE,
            TEST_LINE,
            TEST_MESSAGE,
            "number",
            serde_json::to_string(&42).unwrap(),
            "string",
            serde_json::to_string(&"hello").unwrap(),
            "boolean",
            serde_json::to_string(&true).unwrap(),
            "vec",
            serde_json::to_string(&[0, 1, 2, 3]).unwrap(),
        )
    );
}

#[test]
fn kv_round_trip_quotes_strings_and_leaves_numbers_bare() {
    let encoder = PatternEncoder {
        placeholders: vec![Placeholder::KeyValuePairs {
            pair_separator: ";".to_string(),
            kv_separator: ":".to_string(),
        }],
    };
    let snapshot = Snapshot::new(
        0,
        Level::Info,
        "t".to_string(),
        None,
        None,
        None,
        "m".to_string(),
        vec![
            ("a".to_string(), FieldValue::Int(1)),
            ("b".to_string(), FieldValue::Str("x".to_string())),
        ],
    );
    let result = encoder.encode_with(&snapshot, &Vec::new());
    assert_eq!(result, ";a:1;b:\"x\"");
}

#[test]
fn kv_compiles_with_two_arguments_and_fails_otherwise() {
    let nodes = parse_placeholders("{kv(|)(=)}").unwrap();
    assert_eq!(nodes.len(), 1);
    assert!(
        matches!(&nodes[0], Placeholder::KeyValuePairs { pair_separator, kv_separator } if pair_separator == "|" && kv_separator == "=")
    );
    assert!(parse_placeholders("{kv}").is_err());
    assert!(parse_placeholders("{datetime").is_err());
}

#[test]
fn missing_source_fields_render_sentinels() {
    let encoder = PatternEncoder {
        placeholders: vec![
            Placeholder::Module,
            Placeholder::Literal { content: "|".to_string() },
            Placeholder::File,
            Placeholder::Literal { content: "|".to_string() },
            Placeholder::Line,
        ],
    };
    let snapshot = Snapshot::new(
        0,
        Level::Info,
        "t".to_string(),
        None,
        None,
        None,
        "m".to_string(),
        Vec::new(),
    );
    let result = encoder.encode_with(&snapshot, &Vec::new());
    assert_eq!(result, "<unknown>|<unknown>|0");
}

#[test]
fn encode_without_datetime_needs_no_clock() {
    let encoder = PatternEncoder::from_config(&PatternEncoderConfig {
        pattern: "{level}|{message}".to_string(),
    })
    .unwrap();
    let snapshot = Snapshot::new(
        0,
        Level::Info,
        "t".to_string(),
        None,
        None,
        None,
        "hi".to_string(),
        Vec::new(),
    );
    assert_eq!(encoder.encode(&snapshot), "INFO|hi");
}

#[test]
fn encode_formats_the_timestamp_through_the_local_clock() {
    let encoder = PatternEncoder::from_config(&PatternEncoderConfig {
        pattern: "{datetime(%Y-%m-%d)}".to_string(),
    })
    .unwrap();
    let snapshot = test_snapshot();
    let datetime: chrono::DateTime<chrono::Local> =
        chrono::DateTime::from_timestamp_millis(TEST_TIMESTAMP).unwrap().into();
    assert_eq!(encoder.encode(&snapshot), datetime.format("%Y-%m-%d").to_string());
}

#[test]
fn the_default_pattern_compiles() {
    let pattern = default_pattern();
    let nodes = parse_placeholders(pattern.as_str()).unwrap();
    assert_eq!(nodes.len(), 8);
    assert!(matches!(&nodes[0], Placeholder::Datetime { .. }));
    assert!(
        matches!(&nodes[7], Placeholder::KeyValuePairs { pair_separator, kv_separator } if pair_separator == "|" && kv_separator == "=")
    );
}

#[test]
fn kv_emits_every_occurrence_of_a_repeated_key() {
    let encoder = PatternEncoder {
        placeholders: vec![Placeholder::KeyValuePairs {
            pair_separator: ";".to_string(),
            kv_separator: "=".to_string(),
        }],
    };
    let snapshot = Snapshot::new(
        0,
        Level::Info,
        "t".to_string(),
        None,
        None,
        None,
        "m".to_string(),
        vec![
            ("k".to_string(), FieldValue::Int(1)),
            ("other".to_string(), FieldValue::Bool(false)),
            ("k".to_string(), FieldValue::Int(2)),
        ],
    );
    let result = encoder.encode_with(&snapshot, &Vec::new());
    assert_eq!(result, ";k=1;other=false;k=2");
}
