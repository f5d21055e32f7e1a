//! Tests of the configuration parsers: size strings, path templates with
//! variable markers, and the compact form's defaults.

use naive_logger::config::util::{
    parse_env_template, parse_file_size, parse_u64, substitute_template, TemplatePart,
};
use naive_logger::simple_config::{parse_rotate_size, Config, FileConfig, StdoutConfig};
use naive_logger::level::{Level, LevelFilter};

#[test]
fn test_deserialize_file_size() {
    let cases: Vec<(&str, u64)> = vec![
        ("0", 0),
        ("1", 1),
        ("1k", 1024),
        ("1K", 1024),
        ("1m", 1024 * 1024),
        ("1M", 1024 * 1024),
        ("1g", 1024 * 1024 * 1024),
        ("1G", 1024 * 1024 * 1024),
    ];
    for (input, expected) in cases {
        assert_eq!(parse_file_size(input).unwrap(), expected);
    }

    assert!(parse_file_size("-1").is_err());
    assert!(parse_file_size("1b").is_err());
    assert!(parse_file_size("").is_err());
    assert!(parse_file_size("k").is_err());
}

#[test]
fn test_deserialize_str_with_env_var() {
    let parts = parse_env_template("$$${CARGO_PKG_NAME}${CARGO_PKG_VERSION}$$").unwrap();
    assert_eq!(parts.len(), 4);
    assert!(matches!(&parts[0], TemplatePart::Literal(s) if s == "$"));
    assert!(matches!(&parts[1], TemplatePart::Var(s) if s == "CARGO_PKG_NAME"));
    assert!(matches!(&parts[2], TemplatePart::Var(s) if s == "CARGO_PKG_VERSION"));
    assert!(matches!(&parts[3], TemplatePart::Literal(s) if s == "$"));

    let values = vec!["naive_logger".to_string(), "0.1.0".to_string()];
    let result = substitute_template(&parts, &values);
    assert_eq!(result, format!("${}{}$", "naive_logger", "0.1.0"));
}

#[test]
fn env_template_rejects_a_bare_dollar() {
    assert!(parse_env_template("a$b").is_err());
    let parts = parse_env_template("plain/path.log").unwrap();
    assert_eq!(parts.len(), 1);
    assert!(matches!(&parts[0], TemplatePart::Literal(s) if s == "plain/path.log"));
}

#[test]
fn parse_u64_accepts_plus_and_rejects_junk() {
    assert_eq!(parse_u64("123").unwrap(), 123);
    assert_eq!(parse_u64("+7").unwrap(), 7);
    assert_eq!(parse_u64("18446744073709551615").unwrap(), u64::MAX);
    assert!(parse_u64("18446744073709551616").is_err());
    assert!(parse_u64("+").is_err());
    assert!(parse_u64("12a").is_err());
    assert!(parse_u64("").is_err());
}

#[test]
fn rotate_size_trims_whitespace() {
    assert_eq!(parse_rotate_size(" 4k ").unwrap(), 4096);
    assert_eq!(parse_rotate_size("\t2M\n").unwrap(), 2 * 1024 * 1024);
    assert!(parse_rotate_size("  ").is_err());
}

#[test]
fn compact_config_defaults() {
    let config = Config::default();
    assert_eq!(config.level, LevelFilter::Info);
    let stdout = StdoutConfig::default();
    assert!(stdout.enable);
    assert!(stdout.use_color);
    let file = FileConfig::default();
    assert!(!file.enable);
    assert_eq!(file.filename, "");
    assert_eq!(file.rotate_size, 128 << 20);
    assert_eq!(file.max_rotated_num, 1);
}

#[test]
fn huge_size_with_suffix_is_rejected_not_wrapped() {
    assert!(parse_file_size("18446744073709551615k").is_err());
}

#[test]
fn error_concat_prefixes_the_description() {
    let err = naive_logger::err_msg("inner fault");
    let err = err.concat("outer context");
    assert_eq!(err.message().as_str(), "outer context: inner fault");
}

#[test]
fn levels_order_and_names() {
    assert_eq!(Level::Error.name(), "ERROR");
    assert_eq!(Level::Trace.name(), "TRACE");
    assert!(Level::Error.admitted_by(LevelFilter::Error));
    assert!(Level::Warn.admitted_by(LevelFilter::Info));
    assert!(!Level::Debug.admitted_by(LevelFilter::Info));
    assert!(!Level::Error.admitted_by(LevelFilter::Off));
    assert_eq!(LevelFilter::Warn.max(LevelFilter::Debug), LevelFilter::Debug);
}
