//! Tests of the delivery pipeline's verified core: FIFO order,
//! backpressure on a full queue, drain-on-shutdown, and the writer step.

use naive_logger::config::{
    AppenderCommonProperties, AppenderConfig, Config, EncoderConfig, FileAppenderConfig,
    JsonEncoderConfig, LoggerConfig, LoggerTargetMatcher,
};
use naive_logger::level::{Level, LevelFilter};
use naive_logger::pipeline::{BoundedQueue, Message};
use naive_logger::snapshot::{FieldValue, Snapshot};
use naive_logger::{init_from_config, IoTask};

fn tagged(producer: i64, seq: i64) -> Message {
    Message::Entry {
        appenders: vec![0],
        snapshot: Snapshot::new(
            seq,
            Level::Info,
            format!("producer::{}", producer),
            None,
            None,
            None,
            format!("event {}", seq),
            Vec::new(),
        ),
    }
}

fn tag_of(m: &Message) -> Option<(String, i64)> {
    match m {
        Message::Entry { snapshot, .. } => Some((snapshot.target.clone(), snapshot.timestamp_millis)),
        _ => None,
    }
}

#[test]
fn queue_delivers_in_enqueue_order() {
    let mut q = BoundedQueue::new(16);
    // Two producers' events, interleaved as some race resolved them.
    assert!(q.try_push(tagged(1, 0)).is_none());
    assert!(q.try_push(tagged(2, 0)).is_none());
    assert!(q.try_push(tagged(1, 1)).is_none());
    assert!(q.try_push(tagged(1, 2)).is_none());
    assert!(q.try_push(tagged(2, 1)).is_none());

    let mut order: Vec<(String, i64)> = Vec::new();
    while let Some(m) = q.pop() {
        order.push(tag_of(&m).unwrap());
    }
    // Each producer's own order is preserved in what the writer sees.
    let p1: Vec<i64> = order.iter().filter(|t| t.0 == "producer::1").map(|t| t.1).collect();
    let p2: Vec<i64> = order.iter().filter(|t| t.0 == "producer::2").map(|t| t.1).collect();
    assert_eq!(p1, vec![0, 1, 2]);
    assert_eq!(p2, vec![0, 1]);
    // And the total order is exactly the enqueue order.
    assert_eq!(order.len(), 5);
    assert_eq!(order[0], ("producer::1".to_string(), 0));
    assert_eq!(order[1], ("producer::2".to_string(), 0));
}

#[test]
fn full_queue_rejects_and_keeps_contents() {
    let mut q = BoundedQueue::new(2);
    assert!(q.try_push(tagged(1, 0)).is_none());
    assert!(q.try_push(tagged(1, 1)).is_none());
    assert!(q.try_push(tagged(1, 2)).is_some());
    assert_eq!(q.len(), 2);
    let first = q.pop().unwrap();
    assert_eq!(tag_of(&first).unwrap().1, 0);
    assert!(q.try_push(tagged(1, 2)).is_none());
    assert_eq!(q.len(), 2);
}

#[test]
fn drain_hands_back_everything_in_order_and_empties_the_queue() {
    let mut q = BoundedQueue::new(8);
    for i in 0..5 {
        assert!(q.try_push(tagged(1, i)).is_none());
    }
    let drained = q.drain();
    assert_eq!(drained.len(), 5);
    for (i, m) in drained.iter().enumerate() {
        assert_eq!(tag_of(m).unwrap().1, i as i64);
    }
    assert_eq!(q.len(), 0);
    assert!(q.pop().is_none());
}

fn file_engine() -> naive_logger::Engine {
    let config = Config {
        appenders: vec![(
            "f".to_string(),
            AppenderConfig::File(FileAppenderConfig {
                common: AppenderCommonProperties {
                    encoder: EncoderConfig::Json(JsonEncoderConfig),
                },
                path: "logs/out.log".to_string(),
                max_file_size: 0,
                max_backup_index: 2,
            }),
        )],
        root: LoggerConfig {
            target: String::new(),
            target_matcher: LoggerTargetMatcher::Prefix,
            level: LevelFilter::Info,
            appenders: vec!["f".to_string()],
        },
        loggers: Vec::new(),
    };
    init_from_config(&config).unwrap()
}

#[test]
fn writer_step_encodes_entries_and_stops_on_shutdown() {
    let mut engine = file_engine();
    let ids = engine.route("app", Level::Info).unwrap();
    let snapshot = Snapshot::new(
        7,
        Level::Info,
        "app".to_string(),
        None,
        None,
        None,
        "hello".to_string(),
        vec![("k".to_string(), FieldValue::Int(1))],
    );
    let (go_on, tasks) = engine.handle_message(
        Message::Entry { appenders: ids, snapshot },
        0,
    );
    assert!(go_on);
    assert_eq!(tasks.len(), 1);
    match &tasks[0] {
        IoTask::WriteFile { appender, ops, line } => {
            assert_eq!(*appender, 0);
            assert!(ops.is_empty());
            assert!(line.starts_with("{\"timestamp\":7,"));
            assert!(line.ends_with("\"args\":{\"k\":1}}"));
        },
        _ => panic!("expected a write task"),
    }

    let (go_on, tasks) = engine.handle_message(Message::Flush, 0);
    assert!(go_on);
    assert_eq!(tasks.len(), 1);
    assert!(matches!(&tasks[0], IoTask::FlushFile { appender } if *appender == 0));

    let (go_on, _tasks) = engine.handle_message(Message::Shutdown, 0);
    assert!(!go_on);
}

#[test]
fn shutdown_durability_at_the_model_level() {
    // Enqueue a batch, then shut down: the drain returns every message,
    // and the writer stops only on the shutdown message itself.
    let mut engine = file_engine();
    let mut q = BoundedQueue::new(8);
    for i in 0..4 {
        assert!(q.try_push(tagged(1, i)).is_none());
    }
    assert!(q.try_push(Message::Shutdown).is_none());
    let mut delivered = 0;
    let mut running = true;
    while running {
        let m = q.pop().expect("the writer never starves before shutdown");
        let (go_on, _tasks) = engine.handle_message(m, 0);
        if go_on {
            delivered += 1;
        }
        running = go_on;
    }
    assert_eq!(delivered, 4);
    assert_eq!(q.len(), 0);
}
