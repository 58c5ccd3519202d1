use aevum::common::error::Error;
use aevum::common::json::JsonValue;
use aevum::common::models::{DataPoint, Pipeline, Timestamp};
use aevum::storage::config::{
    default_client_id, default_connect_timeout, default_group_id, default_max_connections, default_migration_config,
    default_migration_path, default_min_connections, default_run_migrations, DatabaseConfig, KafkaConfig, KafkaTopics,
};
use aevum::storage::consumer::{KafkaConsumer, MessageKind};
use aevum::storage::repository::{metadata_action, DummyPipelineRepository, StoreAction};

fn point(id: u128) -> DataPoint {
    DataPoint { stream_id: 1, id, timestamp: Timestamp { secs: 0, nanos: 0 }, payload: JsonValue::Null }
}

fn consumer() -> KafkaConsumer {
    let topics = KafkaTopics {
        raw_data: "raw".to_string(),
        processed_data: "processed".to_string(),
        stream_metadata: "meta".to_string(),
    };
    KafkaConsumer::new(KafkaConfig::new("localhost:9092".to_string(), topics))
}

#[test]
fn storage_consumer_writes_full_batches() {
    let mut c = consumer();
    c.start(0);
    assert!(c.running);
    for i in 0..99 {
        assert!(c.add_point(point(i)).is_none());
    }
    let written = c.add_point(point(99)).unwrap();
    assert_eq!(written.len(), 100);
    let ids: Vec<u128> = written.iter().map(|p| p.id).collect();
    assert_eq!(ids, (0..100).collect::<Vec<u128>>());
    assert!(c.batch.is_empty());
    assert_eq!(c.last_commit_ms, 0);
}

#[test]
fn storage_consumer_writes_on_a_timer() {
    let mut c = consumer();
    c.start(1_000);
    assert!(c.on_idle(7_000).is_none());
    c.add_point(point(1));
    c.add_point(point(2));
    assert!(c.on_idle(5_999).is_none());
    let written = c.on_idle(6_000).unwrap();
    assert_eq!(written.iter().map(|p| p.id).collect::<Vec<_>>(), vec![1, 2]);
    assert_eq!(c.last_commit_ms, 6_000);
    c.add_point(point(3));
    assert!(c.on_idle(10_999).is_none());
    assert_eq!(c.on_idle(11_000).unwrap().len(), 1);
}

#[test]
fn storage_consumer_writes_what_is_left_when_stopping() {
    let mut c = consumer();
    c.start(0);
    assert!(c.finish().is_none());
    c.add_point(point(5));
    c.stop();
    assert!(!c.running);
    let written = c.finish().unwrap();
    assert_eq!(written.len(), 1);
    assert!(c.batch.is_empty());
}

#[test]
fn storage_consumer_loses_no_point() {
    let mut c = consumer();
    c.start(0);
    let mut written: Vec<u128> = Vec::new();
    for i in 0..250u128 {
        if let Some(w) = c.add_point(point(i)) {
            written.extend(w.iter().map(|p| p.id));
        }
        if i % 70 == 0 {
            if let Some(w) = c.on_idle((i as u64) * 100) {
                written.extend(w.iter().map(|p| p.id));
            }
        }
    }
    if let Some(w) = c.finish() {
        written.extend(w.iter().map(|p| p.id));
    }
    assert_eq!(written, (0..250).collect::<Vec<u128>>());
}

#[test]
fn storage_consumer_classifies_messages() {
    let c = consumer();
    assert_eq!(c.topics(), vec!["raw", "processed", "meta"]);
    assert_eq!(c.classify("raw", true), MessageKind::DataPoint);
    assert_eq!(c.classify("processed", true), MessageKind::DataPoint);
    assert_eq!(c.classify("meta", true), MessageKind::StreamMetadata);
    assert_eq!(c.classify("other", true), MessageKind::Ignored);
    assert_eq!(c.classify("raw", false), MessageKind::Ignored);
}

#[test]
fn stream_metadata_updates_or_creates() {
    assert_eq!(metadata_action(true), StoreAction::Update);
    assert_eq!(metadata_action(false), StoreAction::Create);
}

fn pipeline() -> Pipeline {
    Pipeline {
        id: 1,
        name: "p".to_string(),
        description: None,
        source_stream_id: 1,
        destination_stream_id: None,
        operations: vec![],
        created_at: Timestamp { secs: 0, nanos: 0 },
        updated_at: Timestamp { secs: 0, nanos: 0 },
    }
}

fn unexpected(e: Error) -> String {
    match e {
        Error::Unexpected(m) => m,
        other => panic!("unexpected error {:?}", other),
    }
}

#[test]
fn pipeline_repository_is_not_provided() {
    let repo = DummyPipelineRepository;
    let msg = "Pipeline repository not implemented for MVP";
    assert_eq!(unexpected(repo.create(&pipeline()).unwrap_err()), msg);
    assert_eq!(unexpected(repo.get(1).unwrap_err()), msg);
    assert_eq!(unexpected(repo.update(&pipeline()).unwrap_err()), msg);
    assert_eq!(unexpected(repo.delete(1).unwrap_err()), msg);
    assert!(repo.list().unwrap().is_empty());
    assert!(repo.list_for_stream(1).unwrap().is_empty());
}

#[test]
fn storage_config_defaults() {
    assert_eq!(default_max_connections(), 10);
    assert_eq!(default_min_connections(), 2);
    assert_eq!(default_connect_timeout(), 10);
    assert!(default_run_migrations());
    assert_eq!(default_migration_path(), "./migrations");
    let m = default_migration_config();
    assert!(m.run_migrations);
    assert_eq!(m.migration_path, "./migrations");
    assert_eq!(default_client_id(), "aevum-storage");
    assert_eq!(default_group_id(), "aevum-storage-group");
    let db = DatabaseConfig::new("postgres://x".to_string());
    assert_eq!(db.max_connections, 10);
    assert_eq!(db.min_connections, 2);
    assert_eq!(db.migrations.migration_path, "./migrations");
}
