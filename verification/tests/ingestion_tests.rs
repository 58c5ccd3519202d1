use aevum::common::error::Error;
use aevum::common::format::uuid_string;
use aevum::common::json::{JsonNumber, JsonValue};
use aevum::common::models::{DataPoint, RetentionConfig, Stream, Timestamp};
use aevum::ingestion::config::{
    default_client_id, default_host, default_pool_size, default_port, Config, KafkaConfig, KafkaTopics, RedisConfig,
    ServerConfig,
};
use aevum::ingestion::handlers::health::check;
use aevum::ingestion::handlers::ingest::{
    ingest_batch, ingest_data, parse_timestamp, timestamp_from_parse, BatchIngestRequest, IngestRequest,
};
use aevum::ingestion::handlers::streams::{
    create_stream, delete_stream, get_stream, list_streams, stream_from_request, update_stream, CreateStreamRequest,
    RetentionRequest, UpdateStreamRequest,
};
use aevum::ingestion::producer::KafkaProducer;
use aevum::ingestion::validation::{DataValidator, StreamValidator};

fn obj(entries: Vec<(&str, JsonValue)>) -> JsonValue {
    JsonValue::Object(entries.into_iter().map(|(k, v)| (k.to_string(), v)).collect())
}

fn s(t: &str) -> JsonValue {
    JsonValue::String(t.to_string())
}

fn sensor_schema() -> JsonValue {
    obj(vec![
        ("type", s("object")),
        (
            "properties",
            obj(vec![
                ("sensor_id", obj(vec![("type", s("string"))])),
                ("temperature", obj(vec![("type", s("number"))])),
                ("humidity", obj(vec![("type", s("number"))])),
                ("location", obj(vec![("type", s("string"))])),
            ]),
        ),
        ("required", JsonValue::Array(vec![s("sensor_id"), s("temperature")])),
    ])
}

fn stream(name: &str, schema: JsonValue, days: u32) -> Stream {
    Stream {
        id: 1,
        name: name.to_string(),
        description: None,
        schema,
        retention: RetentionConfig { days, max_records: None },
        created_at: Timestamp { secs: 0, nanos: 0 },
        updated_at: Timestamp { secs: 0, nanos: 0 },
    }
}

fn validation_message(e: Error) -> String {
    match e {
        Error::Validation(m) => m,
        other => panic!("expected a validation error, got {:?}", other),
    }
}

#[test]
fn stream_validator_accepts_a_valid_stream() {
    assert!(StreamValidator::validate(&stream("temperature_sensors", sensor_schema(), 30)).is_ok());
}

#[test]
fn stream_validator_refuses_a_blank_name() {
    let e = StreamValidator::validate(&stream("   ", sensor_schema(), 30)).unwrap_err();
    assert_eq!(validation_message(e), "Stream name cannot be empty");
    let e = StreamValidator::validate(&stream("", JsonValue::Null, 0)).unwrap_err();
    assert_eq!(validation_message(e), "Stream name cannot be empty");
}

#[test]
fn stream_validator_refuses_a_non_object_schema() {
    let e = StreamValidator::validate(&stream("s", JsonValue::Array(vec![]), 30)).unwrap_err();
    assert_eq!(validation_message(e), "Stream schema must be a JSON object");
}

#[test]
fn stream_validator_refuses_zero_retention() {
    let e = StreamValidator::validate(&stream("s", obj(vec![]), 0)).unwrap_err();
    assert_eq!(validation_message(e), "Retention days must be greater than 0");
}

#[test]
fn data_validator_checks_data_against_the_schema() {
    let st = stream("s", sensor_schema(), 30);
    let good = obj(vec![("sensor_id", s("a")), ("temperature", JsonValue::Number(JsonNumber::PosInt(22)))]);
    assert!(DataValidator::validate(&good, &st).is_ok());
    let e = DataValidator::validate(&obj(vec![("sensor_id", s("a"))]), &st).unwrap_err();
    assert_eq!(validation_message(e), "Data validation failed: missing required property: temperature");
    let e = DataValidator::validate(&JsonValue::Null, &st).unwrap_err();
    assert_eq!(validation_message(e), "Data validation failed: value is not of type object");
}

#[test]
fn data_validator_reports_the_first_invalid_item() {
    let st = stream("s", sensor_schema(), 30);
    let good = || obj(vec![("sensor_id", s("a")), ("temperature", JsonValue::Number(JsonNumber::PosInt(22)))]);
    assert!(DataValidator::validate_batch(&[good(), good()], &st).is_ok());
    assert!(DataValidator::validate_batch(&[], &st).is_ok());
    let batch = vec![good(), obj(vec![("temperature", JsonValue::Number(JsonNumber::PosInt(1)))]), s("x")];
    let e = DataValidator::validate_batch(&batch, &st).unwrap_err();
    assert_eq!(
        validation_message(e),
        "Validation failed for item 1 in batch: Validation error: Data validation failed: missing required property: sensor_id"
    );
}

#[test]
fn parse_timestamp_reads_rfc3339_in_utc() {
    let t = parse_timestamp(Some("2023-01-01T00:00:00Z".to_string())).unwrap();
    assert_eq!(t, Timestamp { secs: 1_672_531_200, nanos: 0 });
    let t = parse_timestamp(Some("2023-01-01T02:00:00.5+02:00".to_string())).unwrap();
    assert_eq!(t, Timestamp { secs: 1_672_531_200, nanos: 500_000_000 });
}

#[test]
fn parse_timestamp_defaults_to_now() {
    let t = parse_timestamp(None).unwrap();
    assert!(t.secs > 1_600_000_000);
}

#[test]
fn parse_timestamp_refuses_bad_text() {
    let e = parse_timestamp(Some("yesterday".to_string())).unwrap_err();
    let m = validation_message(e);
    assert!(m.starts_with("Invalid timestamp format: "));
    assert!(m.len() > "Invalid timestamp format: ".len());
}

#[test]
fn timestamp_from_parse_maps_the_error() {
    let ok = timestamp_from_parse(Ok(Timestamp { secs: 5, nanos: 6 })).unwrap();
    assert_eq!(ok, Timestamp { secs: 5, nanos: 6 });
    let e = timestamp_from_parse(Err("premature end of input".to_string())).unwrap_err();
    assert_eq!(validation_message(e), "Invalid timestamp format: premature end of input");
}

#[test]
fn ingest_data_builds_one_point() {
    let req = IngestRequest {
        data: obj(vec![("temperature", JsonValue::Number(JsonNumber::PosInt(22)))]),
        timestamp: Some("2023-01-01T00:00:00Z".to_string()),
    };
    let (dp, resp) = ingest_data(42, req).unwrap();
    assert_eq!(dp.stream_id, 42);
    assert_eq!(dp.timestamp, Timestamp { secs: 1_672_531_200, nanos: 0 });
    assert_eq!(resp.ingested, 1);
    assert_eq!(resp.ids, vec![dp.id]);
    assert!(matches!(dp.payload.get("temperature"), Some(JsonValue::Number(JsonNumber::PosInt(22)))));
}

#[test]
fn ingest_data_refuses_a_bad_timestamp() {
    let req = IngestRequest { data: JsonValue::Null, timestamp: Some("not a time".to_string()) };
    let e = ingest_data(1, req).unwrap_err();
    assert!(validation_message(e).starts_with("Invalid timestamp format: "));
}

#[test]
fn ingest_batch_refuses_an_empty_batch() {
    let req = BatchIngestRequest { data: vec![], timestamp: None };
    let e = ingest_batch(1, req).unwrap_err();
    assert_eq!(validation_message(e), "Batch cannot be empty");
}

#[test]
fn ingest_batch_builds_one_point_per_payload() {
    let req = BatchIngestRequest {
        data: vec![s("a"), s("b"), s("c")],
        timestamp: Some("2023-01-02T00:00:00Z".to_string()),
    };
    let (points, resp) = ingest_batch(9, req).unwrap();
    assert_eq!(points.len(), 3);
    assert_eq!(resp.ingested, 3);
    assert_eq!(resp.ids.len(), 3);
    let names = ["a", "b", "c"];
    for (i, p) in points.iter().enumerate() {
        assert_eq!(p.stream_id, 9);
        assert_eq!(p.id, resp.ids[i]);
        assert_eq!(p.timestamp, Timestamp { secs: 1_672_617_600, nanos: 0 });
        assert!(matches!(&p.payload, JsonValue::String(t) if t == names[i]));
    }
}

#[test]
fn ingest_batch_refuses_a_bad_timestamp() {
    let req = BatchIngestRequest { data: vec![s("a")], timestamp: Some("2023-13-01T00:00:00Z".to_string()) };
    let e = ingest_batch(1, req).unwrap_err();
    assert!(validation_message(e).starts_with("Invalid timestamp format: "));
}

fn create_request(name: &str, retention: Option<RetentionRequest>) -> CreateStreamRequest {
    CreateStreamRequest {
        name: name.to_string(),
        description: Some("Temperature readings from IoT sensors".to_string()),
        schema: sensor_schema(),
        retention,
    }
}

#[test]
fn create_stream_builds_a_validated_stream() {
    let st = create_stream(create_request("temperature_sensors", None)).unwrap();
    assert_eq!(st.name, "temperature_sensors");
    assert_eq!(st.description.as_deref(), Some("Temperature readings from IoT sensors"));
    assert_eq!(st.retention, RetentionConfig { days: 30, max_records: None });
    assert!(st.schema.is_object());
    assert_eq!((st.id >> 76) & 0xf, 4);
    assert!(st.created_at.secs > 1_600_000_000);
}

#[test]
fn stream_from_request_uses_the_requested_retention() {
    let created = Timestamp { secs: 100, nanos: 0 };
    let updated = Timestamp { secs: 101, nanos: 0 };
    let req = create_request("s", Some(RetentionRequest { days: 7, max_records: Some(1000) }));
    let st = stream_from_request(req, 77, created, updated).unwrap();
    assert_eq!(st.id, 77);
    assert_eq!(st.retention, RetentionConfig { days: 7, max_records: Some(1000) });
    assert_eq!(st.created_at, created);
    assert_eq!(st.updated_at, updated);
}

#[test]
fn create_stream_refuses_invalid_requests() {
    let e = create_stream(create_request(" ", None)).unwrap_err();
    assert_eq!(validation_message(e), "Stream name cannot be empty");
    let req = create_request("s", Some(RetentionRequest { days: 0, max_records: None }));
    let e = create_stream(req).unwrap_err();
    assert_eq!(validation_message(e), "Retention days must be greater than 0");
    let mut req = create_request("s", None);
    req.schema = s("object");
    let e = create_stream(req).unwrap_err();
    assert_eq!(validation_message(e), "Stream schema must be a JSON object");
}

fn not_found_message(e: Error) -> String {
    match e {
        Error::NotFound(m) => m,
        other => panic!("expected not found, got {:?}", other),
    }
}

#[test]
fn stream_lookups_are_never_found() {
    let id: u128 = 0x67e5_5044_10b1_426f_9247_bb68_0e5f_e0c8;
    let expected = "Stream not found: 67e55044-10b1-426f-9247-bb680e5fe0c8";
    assert_eq!(not_found_message(get_stream(id).unwrap_err()), expected);
    let upd = UpdateStreamRequest { name: Some("n".to_string()), description: None, schema: None, retention: None };
    assert_eq!(not_found_message(update_stream(id, upd).unwrap_err()), expected);
    assert_eq!(not_found_message(delete_stream(id).unwrap_err()), expected);
    assert!(list_streams().streams.is_empty());
}

#[test]
fn health_check_reports_ok_and_version() {
    let h = check("1.2.3");
    assert_eq!(h.status, "ok");
    assert_eq!(h.version, "1.2.3");
}

#[test]
fn ingestion_config_defaults() {
    assert_eq!(default_host(), "0.0.0.0");
    assert_eq!(default_port(), 8080);
    assert_eq!(default_client_id(), "aevum-ingestion");
    assert_eq!(default_pool_size(), 10);
    let server = ServerConfig::default();
    assert_eq!(server.host, "0.0.0.0");
    assert_eq!(server.port, 8080);
    assert_eq!(server.address(), "0.0.0.0:8080");
    let topics = KafkaTopics { raw_data: "raw".to_string(), stream_metadata: "meta".to_string() };
    let kafka = KafkaConfig::new("localhost:9092".to_string(), topics);
    assert_eq!(kafka.client_id, "aevum-ingestion");
    let config = Config::new(kafka, Some(RedisConfig::new("redis://localhost".to_string())));
    assert_eq!(config.server.port, 8080);
    assert_eq!(config.redis.unwrap().pool_size, 10);
}

#[test]
fn producer_routes_points_and_metadata() {
    let topics = KafkaTopics { raw_data: "raw".to_string(), stream_metadata: "meta".to_string() };
    let producer = KafkaProducer::new(&KafkaConfig::new("b".to_string(), topics));
    let dp = DataPoint { stream_id: 1, id: 0xabc, timestamp: Timestamp { secs: 0, nanos: 0 }, payload: JsonValue::Null };
    let rec = producer.data_point_record(&dp);
    assert_eq!(rec.topic, "raw");
    assert_eq!(rec.key, uuid_string(0xabc));
    assert_eq!(rec.key, "00000000-0000-0000-0000-000000000abc");
    let rec = producer.stream_metadata_record(1);
    assert_eq!(rec.topic, "meta");
    assert_eq!(rec.key, "00000000-0000-0000-0000-000000000001");
}
