//! Tests of the routing table: first-match resolution, root fallback,
//! inheritance, the global level, and the configuration errors that stop
//! the engine from being built.

use naive_logger::config::{
    AppenderCommonProperties, AppenderConfig, Config, ConsoleAppenderConfig, EncoderConfig,
    FileAppenderConfig, JsonEncoderConfig, LoggerConfig, LoggerTargetMatcher,
    PatternEncoderConfig,
};
use naive_logger::level::{Level, LevelFilter};
use naive_logger::logger::{get_global_level, Logger};
use naive_logger::init_from_config;

fn json_console() -> AppenderConfig {
    AppenderConfig::Console(ConsoleAppenderConfig {
        common: AppenderCommonProperties { encoder: EncoderConfig::Json(JsonEncoderConfig) },
        stderr_level: LevelFilter::Off,
    })
}

fn json_file(path: &str) -> AppenderConfig {
    AppenderConfig::File(FileAppenderConfig {
        common: AppenderCommonProperties { encoder: EncoderConfig::Json(JsonEncoderConfig) },
        path: path.to_string(),
        max_file_size: 0,
        max_backup_index: 0,
    })
}

fn rule(
    target: &str,
    matcher: LoggerTargetMatcher,
    level: LevelFilter,
    appenders: &[&str],
) -> LoggerConfig {
    LoggerConfig {
        target: target.to_string(),
        target_matcher: matcher,
        level,
        appenders: appenders.iter().map(|s| s.to_string()).collect(),
    }
}

/// The two-rule table of the routing contract: an exact rule for
/// `app::db` at `Warn` feeding A, and the root at `Info` feeding B.
fn two_rule_engine() -> naive_logger::Engine {
    let config = Config {
        appenders: vec![
            ("A".to_string(), json_file("logs/a.log")),
            ("B".to_string(), json_file("logs/b.log")),
        ],
        root: rule("", LoggerTargetMatcher::Prefix, LevelFilter::Info, &["B"]),
        loggers: vec![rule("app::db", LoggerTargetMatcher::Exact, LevelFilter::Warn, &["A"])],
    };
    init_from_config(&config).unwrap()
}

#[test]
fn router_first_match_wins_and_root_is_fallback() {
    let engine = two_rule_engine();
    // The exact rule takes the severe event: appender A (index 0).
    assert_eq!(engine.route("app::db", Level::Error), Some(vec![0]));
    // The exact rule's level is too strict for Info, so the event falls
    // through to the root, which matches everything: appender B.
    assert_eq!(engine.route("app::db", Level::Info), Some(vec![1]));
    // Another target skips the exact rule and lands on the root.
    assert_eq!(engine.route("app::other", Level::Info), Some(vec![1]));
    // An event below every threshold is dropped.
    assert_eq!(engine.route("app::other", Level::Debug), None);
}

#[test]
fn disabled_events_resolve_to_nothing_before_any_work() {
    let config = Config {
        appenders: vec![("c".to_string(), json_console())],
        root: rule("", LoggerTargetMatcher::Prefix, LevelFilter::Off, &["c"]),
        loggers: Vec::new(),
    };
    let engine = init_from_config(&config).unwrap();
    assert!(!engine.enabled(Level::Error));
    assert_eq!(engine.route("anything", Level::Error), None);
}

#[test]
fn logger_handle_matches_by_prefix_inverse_and_exact() {
    let names = vec!["c".to_string()];
    let prefix = Logger::new(
        &rule("app::", LoggerTargetMatcher::Prefix, LevelFilter::Info, &["c"]),
        &names,
        None,
    )
    .unwrap();
    assert!(prefix.handle("app::db", Level::Info));
    assert!(!prefix.handle("other", Level::Info));
    assert!(!prefix.handle("app::db", Level::Debug));

    let inverse = Logger::new(
        &rule("app::", LoggerTargetMatcher::PrefixInverse, LevelFilter::Info, &["c"]),
        &names,
        None,
    )
    .unwrap();
    assert!(!inverse.handle("app::db", Level::Info));
    assert!(inverse.handle("other", Level::Info));

    let exact = Logger::new(
        &rule("app::db", LoggerTargetMatcher::Exact, LevelFilter::Info, &["c"]),
        &names,
        None,
    )
    .unwrap();
    assert!(exact.handle("app::db", Level::Info));
    assert!(!exact.handle("app::db::inner", Level::Info));
}

#[test]
fn empty_rule_inherits_root_appenders() {
    let names = vec!["a".to_string(), "b".to_string()];
    let root = Logger::new(
        &rule("", LoggerTargetMatcher::Prefix, LevelFilter::Info, &["b", "a"]),
        &names,
        None,
    )
    .unwrap();
    let child = Logger::new(
        &rule("app", LoggerTargetMatcher::Prefix, LevelFilter::Debug, &[]),
        &names,
        Some(&root),
    )
    .unwrap();
    assert_eq!(child.appenders, vec![1, 0]);
}

#[test]
fn root_without_appenders_is_rejected() {
    let names = vec!["a".to_string()];
    let result = Logger::new(
        &rule("", LoggerTargetMatcher::Prefix, LevelFilter::Info, &[]),
        &names,
        None,
    );
    assert!(result.is_err());
}

#[test]
fn unknown_appender_name_is_rejected() {
    let config = Config {
        appenders: vec![("c".to_string(), json_console())],
        root: rule("", LoggerTargetMatcher::Prefix, LevelFilter::Info, &["missing"]),
        loggers: Vec::new(),
    };
    let err = init_from_config(&config).unwrap_err();
    assert!(err.message().contains("no appender"));
}

#[test]
fn duplicate_file_path_is_rejected() {
    let config = Config {
        appenders: vec![
            ("one".to_string(), json_file("logs/same.log")),
            ("two".to_string(), json_file("logs/same.log")),
        ],
        root: rule("", LoggerTargetMatcher::Prefix, LevelFilter::Info, &["one"]),
        loggers: Vec::new(),
    };
    let err = init_from_config(&config).unwrap_err();
    assert!(err.message().contains("used by multiple appenders"));
}

#[test]
fn malformed_pattern_is_rejected_at_build_time() {
    let config = Config {
        appenders: vec![(
            "c".to_string(),
            AppenderConfig::Console(ConsoleAppenderConfig {
                common: AppenderCommonProperties {
                    encoder: EncoderConfig::Pattern(PatternEncoderConfig {
                        pattern: "{datetime".to_string(),
                    }),
                },
                stderr_level: LevelFilter::Off,
            }),
        )],
        root: rule("", LoggerTargetMatcher::Prefix, LevelFilter::Info, &["c"]),
        loggers: Vec::new(),
    };
    assert!(init_from_config(&config).is_err());
}

#[test]
fn global_level_is_the_most_verbose_threshold() {
    let root = rule("", LoggerTargetMatcher::Prefix, LevelFilter::Info, &["c"]);
    let loggers = vec![
        rule("a", LoggerTargetMatcher::Prefix, LevelFilter::Error, &["c"]),
        rule("b", LoggerTargetMatcher::Prefix, LevelFilter::Trace, &["c"]),
    ];
    assert_eq!(get_global_level(&root, &loggers), LevelFilter::Trace);
    assert_eq!(get_global_level(&root, &Vec::new()), LevelFilter::Info);
}
