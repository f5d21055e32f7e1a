//! Tests of the structured encoder: the complete record, absent source
//! coordinates, and the duplicate-key mapping rule.

use naive_logger::encoder::json::JsonEncoder;
use naive_logger::level::Level;
use naive_logger::snapshot::{FieldValue, Snapshot};

const TEST_TIMESTAMP: i64 = 1722400496789;
const TEST_LEVEL: Level = Level::Debug;
const TEST_TARGET: &str = "naive_logger::tests";
const TEST_MODULE: &str = "naive_logger::tests";
const TEST_FILE: &str = "tests/json_tests.rs";
const TEST_LINE: u32 = 41;
const TEST_MESSAGE: &str = "a string with \"quotes\"";

fn test_snapshot() -> Snapshot {
    Snapshot::new(
        TEST_TIMESTAMP,
        TEST_LEVEL,
        TEST_TARGET.to_string(),
        Some(TEST_MODULE.to_string()),
        Some(TEST_FILE.to_string()),
        Some(TEST_LINE),
        TEST_MESSAGE.to_string(),
        vec![
            ("number".to_string(), FieldValue::Int(42)),
            ("string".to_string(), FieldValue::Str("hello".to_string())),
            ("boolean".to_string(), FieldValue::Bool(true)),
            (
                "vec".to_string(),
                FieldValue::Serialized(serde_json::to_string(&[0, 1, 2, 3]).unwrap()),
            ),
        ],
    )
}

#[test]
fn json_test_encode() {
    let encoder = JsonEncoder;
    let result = encoder.encode(&test_snapshot());

    let mut expected = serde_json::Map::new();
    expected.insert("timestamp".to_string(), TEST_TIMESTAMP.into());
    expected.insert("level".to_string(), "DEBUG".to_string().into());
    expected.insert("target".to_string(), TEST_TARGET.into());
    expected.insert("module".to_string(), TEST_MODULE.into());
    expected.insert("file".to_string(), TEST_FILE.into());
    expected.insert("line".to_string(), TEST_LINE.into());
    expected.insert("message".to_string(), TEST_MESSAGE.into());
    let mut expected_kvs = serde_json::Map::new();
    expected_kvs.insert("number".to_string(), 42.into());
    expected_kvs.insert("string".to_string(), "hello".into());
    expected_kvs.insert("boolean".to_string(), true.into());
    expected_kvs.insert("vec".to_string(), vec![0, 1, 2, 3].into());
    expected.insert("args".to_string(), serde_json::Value::Object(expected_kvs));

    let parsed: serde_json::Value = serde_json::from_str(&result).unwrap();
    assert_eq!(parsed, serde_json::Value::Object(expected));
}

#[test]
fn json_record_has_exact_shape_and_field_order() {
    let encoder = JsonEncoder;
    let snapshot = Snapshot::new(
        5,
        Level::Error,
        "app".to_string(),
        None,
        None,
        None,
        "boom".to_string(),
        vec![("a".to_string(), FieldValue::Int(1))],
    );
    let result = encoder.encode(&snapshot);
    assert_eq!(
        result,
        "{\"timestamp\":5,\"level\":\"ERROR\",\"target\":\"app\",\"module\":null,\"file\":null,\"line\":null,\"message\":\"boom\",\"args\":{\"a\":1}}"
    );
}

#[test]
fn json_escapes_quotes_backslashes_and_control_characters() {
    let encoder = JsonEncoder;
    let snapshot = Snapshot::new(
        0,
        Level::Info,
        "t".to_string(),
        None,
        None,
        None,
        "a\"b\\c\nd\u{1}e".to_string(),
        Vec::new(),
    );
    let result = encoder.encode(&snapshot);
    let expected_message = serde_json::to_string(&"a\"b\\c\nd\u{1}e").unwrap();
    assert!(result.contains(&format!("\"message\":{}", expected_message)));
}

#[test]
fn structured_mapping_keeps_last_occurrence_of_a_repeated_key() {
    let encoder = JsonEncoder;
    let snapshot = Snapshot::new(
        0,
        Level::Info,
        "t".to_string(),
        None,
        None,
        None,
        "m".to_string(),
        vec![
            ("k".to_string(), FieldValue::Int(1)),
            ("other".to_string(), FieldValue::Bool(false)),
            ("k".to_string(), FieldValue::Int(2)),
        ],
    );
    let result = encoder.encode(&snapshot);
    assert!(result.ends_with("\"args\":{\"k\":2,\"other\":false}}"));
}

#[test]
fn negative_timestamp_renders_with_sign() {
    let encoder = JsonEncoder;
    let snapshot = Snapshot::new(
        -12,
        Level::Warn,
        "t".to_string(),
        None,
        None,
        None,
        "m".to_string(),
        Vec::new(),
    );
    let result = encoder.encode(&snapshot);
    assert!(result.starts_with("{\"timestamp\":-12,"));
}
