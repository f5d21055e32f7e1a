//! Tests of the file appender's rotation state machine: when it rotates,
//! which operations a rotation plans, how the tracked size evolves, and
//! the failure cooldown.

use naive_logger::appender::file::{FileAppender, FileOp};
use naive_logger::appender::{from_config, Appender, AppendOutcome};
use naive_logger::config::{
    AppenderCommonProperties, AppenderConfig, EncoderConfig, FileAppenderConfig,
    JsonEncoderConfig,
};
use naive_logger::level::Level;
use naive_logger::snapshot::Snapshot;

fn file_config(path: &str, max_size: u64, backups: usize) -> FileAppenderConfig {
    FileAppenderConfig {
        common: AppenderCommonProperties { encoder: EncoderConfig::Json(JsonEncoderConfig) },
        path: path.to_string(),
        max_file_size: max_size,
        max_backup_index: backups,
    }
}

fn snapshot(message: &str) -> Snapshot {
    Snapshot::new(
        0,
        Level::Info,
        "t".to_string(),
        None,
        None,
        None,
        message.to_string(),
        Vec::new(),
    )
}

#[test]
fn construction_splits_the_file_name_off_the_path() {
    let appender = FileAppender::from_config(&file_config("logs/app/test.log", 100, 2)).unwrap();
    assert_eq!(appender.path, "logs/app/test.log");
    assert_eq!(appender.filename, "test.log");
    assert_eq!(appender.file_len, 0);
    assert_eq!(appender.max_file_size, 100);
    assert_eq!(appender.max_backup_index, 2);

    assert!(FileAppender::from_config(&file_config("logs/dir/", 100, 2)).is_err());
    assert!(FileAppender::from_config(&file_config("", 100, 2)).is_err());
}

#[test]
fn backup_paths_append_the_index() {
    let appender = FileAppender::from_config(&file_config("logs/test.log", 100, 3)).unwrap();
    assert_eq!(appender.backup_file_path(0), "logs/test.log.0");
    assert_eq!(appender.backup_file_path(12), "logs/test.log.12");
}

#[test]
fn rotation_triggers_exactly_when_the_bound_would_be_passed() {
    let mut appender = FileAppender::from_config(&file_config("logs/test.log", 100, 2)).unwrap();
    appender.set_file_len(90);
    // 9 content bytes + 1 separator fit exactly.
    assert!(!appender.needs_rotation(10));
    // One more byte passes the bound.
    assert!(appender.needs_rotation(11));
    // A size of 0 disables rotation entirely.
    let mut unbounded = FileAppender::from_config(&file_config("logs/test.log", 0, 2)).unwrap();
    unbounded.set_file_len(u64::MAX - 1);
    assert!(!unbounded.needs_rotation(1));
}

#[test]
fn rotation_plans_the_index_chain_shift() {
    let appender = FileAppender::from_config(&file_config("logs/test.log", 100, 2)).unwrap();
    let ops = appender.rotation_ops();
    assert_eq!(ops.len(), 5);
    assert!(matches!(&ops[0], FileOp::DeleteIfExists { path } if path == "logs/test.log.2"));
    assert!(
        matches!(&ops[1], FileOp::RenameIfExists { from, to } if from == "logs/test.log.1" && to == "logs/test.log.2")
    );
    assert!(
        matches!(&ops[2], FileOp::RenameIfExists { from, to } if from == "logs/test.log.0" && to == "logs/test.log.1")
    );
    assert!(
        matches!(&ops[3], FileOp::Rename { from, to } if from == "logs/test.log" && to == "logs/test.log.0")
    );
    assert!(matches!(&ops[4], FileOp::CreateFresh { path } if path == "logs/test.log"));
}

#[test]
fn append_tracks_size_and_rotates_per_threshold_crossing() {
    let mut appender = FileAppender::from_config(&file_config("logs/test.log", 1000, 2)).unwrap();
    let line = appender.append(&snapshot("first")).1;
    let expected_len = line.len() as u64 + 1;
    assert_eq!(appender.file_len, expected_len);

    // Push the tracked size to the edge: the next append must rotate.
    appender.set_file_len(1000);
    let (ops, line) = appender.append(&snapshot("second"));
    assert_eq!(ops.len(), 5);
    assert_eq!(appender.file_len, line.len() as u64 + 1);

    // Right after a rotation the next append does not rotate again.
    let (ops, _line) = appender.append(&snapshot("third"));
    assert!(ops.is_empty());
}

#[test]
fn cooldown_disables_and_reenables_the_appender() {
    let config = AppenderConfig::File(file_config("logs/test.log", 0, 1));
    let mut appender = from_config(&config).unwrap();
    match appender.append(&snapshot("before"), 1000) {
        AppendOutcome::FileWrite { .. } => {},
        _ => panic!("an active file appender plans a write"),
    }
    if let Appender::File(f) = &mut appender {
        f.on_io_error(1000);
        assert!(!f.is_active(1000));
        assert!(!f.is_active(10999));
        assert!(f.is_active(11000));
    } else {
        panic!("a file configuration builds a file appender");
    }
    assert!(matches!(appender.append(&snapshot("during"), 5000), AppendOutcome::Skipped));
    assert!(matches!(
        appender.append(&snapshot("after"), 11000),
        AppendOutcome::FileWrite { .. }
    ));
}
