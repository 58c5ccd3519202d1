use aevum::api::config::{
    default_allow_credentials, default_allowed_origins, default_connect_timeout, default_cors_config,
    default_cors_enabled, default_host, default_max_connections, default_min_connections, default_port,
    default_server_config, default_timeout, Config, DatabaseConfig,
};
use aevum::api::handlers::data::{parse_time_range, query_metadata, resolve_time_range};
use aevum::api::handlers::health::check;
use aevum::api::handlers::streams::{extract_fields_from_schema, require_stream};
use aevum::api::repository::{
    aggregate_for, aggregate_function, aggregated_query, aggregated_query_with, data_query, field_stats_query,
};
use aevum::common::error::Error;
use aevum::common::json::JsonValue;
use aevum::common::models::{DataPoint, RetentionConfig, Stream, Timestamp};

fn obj(entries: Vec<(&str, JsonValue)>) -> JsonValue {
    JsonValue::Object(entries.into_iter().map(|(k, v)| (k.to_string(), v)).collect())
}

fn s(t: &str) -> JsonValue {
    JsonValue::String(t.to_string())
}

fn validation(e: Error) -> String {
    match e {
        Error::Validation(m) => m,
        other => panic!("expected a validation error, got {:?}", other),
    }
}

const JAN1: i64 = 1_672_531_200;
const JAN2: i64 = 1_672_617_600;

#[test]
fn time_range_from_both_bounds() {
    let (start, end) =
        parse_time_range(&Some("2023-01-01T00:00:00Z".to_string()), &Some("2023-01-02T00:00:00Z".to_string()))
            .unwrap();
    assert_eq!(start, Timestamp { secs: JAN1, nanos: 0 });
    assert_eq!(end, Timestamp { secs: JAN2, nanos: 0 });
}

#[test]
fn time_range_start_defaults_to_a_day_before_the_end() {
    let (start, end) = parse_time_range(&None, &Some("2023-01-02T00:00:00Z".to_string())).unwrap();
    assert_eq!(start, Timestamp { secs: JAN1, nanos: 0 });
    assert_eq!(end, Timestamp { secs: JAN2, nanos: 0 });
}

#[test]
fn time_range_defaults_to_the_last_day() {
    let (start, end) = parse_time_range(&None, &None).unwrap();
    assert_eq!(end.secs - start.secs, 86_400);
    assert_eq!(end.nanos, start.nanos);
    assert!(end.secs > 1_600_000_000);
}

#[test]
fn time_range_refuses_bad_bounds() {
    let e = parse_time_range(&Some("2023-01-01T00:00:00Z".to_string()), &Some("tomorrow".to_string())).unwrap_err();
    assert!(validation(e).starts_with("Invalid end time format: "));
    let e = parse_time_range(&Some("yesterday".to_string()), &Some("also bad".to_string())).unwrap_err();
    assert!(validation(e).starts_with("Invalid end time format: "));
    let e = parse_time_range(&Some("yesterday".to_string()), &None).unwrap_err();
    assert!(validation(e).starts_with("Invalid start time format: "));
    let e = parse_time_range(&Some("2023-01-02T00:00:00Z".to_string()), &Some("2023-01-01T00:00:00Z".to_string()))
        .unwrap_err();
    assert_eq!(validation(e), "Start time must be before end time");
}

#[test]
fn resolve_time_range_on_given_parses() {
    let now = Timestamp { secs: 1_000_000, nanos: 7 };
    assert_eq!(resolve_time_range(None, None, now).unwrap(), (Timestamp { secs: 913_600, nanos: 7 }, now));
    let a = Timestamp { secs: 10, nanos: 0 };
    assert_eq!(resolve_time_range(Some(Ok(a)), Some(Ok(a)), now).unwrap(), (a, a));
    let e = resolve_time_range(None, Some(Err("input contains invalid characters".to_string())), now).unwrap_err();
    assert_eq!(validation(e), "Invalid end time format: input contains invalid characters");
    let e = resolve_time_range(Some(Err("premature end of input".to_string())), None, now).unwrap_err();
    assert_eq!(validation(e), "Invalid start time format: premature end of input");
    let later = Timestamp { secs: 10, nanos: 1 };
    let e = resolve_time_range(Some(Ok(later)), Some(Ok(a)), now).unwrap_err();
    assert_eq!(validation(e), "Start time must be before end time");
}

#[test]
fn aggregation_function_names_in_any_case() {
    assert_eq!(aggregate_function("avg").unwrap(), "AVG");
    assert_eq!(aggregate_function("AVG").unwrap(), "AVG");
    assert_eq!(aggregate_function("Average").unwrap(), "AVG");
    assert_eq!(aggregate_function("sum").unwrap(), "SUM");
    assert_eq!(aggregate_function("MIN").unwrap(), "MIN");
    assert_eq!(aggregate_function("max").unwrap(), "MAX");
    assert_eq!(aggregate_function("Count").unwrap(), "COUNT");
    assert_eq!(validation(aggregate_function("Median").unwrap_err()), "Invalid aggregation function: Median");
    assert_eq!(aggregate_for("average", "AVERAGE").unwrap(), "AVG");
    assert_eq!(validation(aggregate_for("avgs", "AVGS").unwrap_err()), "Invalid aggregation function: AVGS");
}

#[test]
fn data_query_sql_with_and_without_limit() {
    let base = "\n            SELECT id, stream_id, timestamp, payload\n            FROM data_points\n            WHERE stream_id = $1 AND timestamp >= $2 AND timestamp <= $3\n            ORDER BY timestamp\n            ";
    assert_eq!(data_query(Some(100)), format!("{}LIMIT 100\n            ", base));
    assert_eq!(data_query(None), format!("{}\n            ", base));
}

#[test]
fn aggregated_query_sql() {
    let q = aggregated_query_with(1, "1 hour", "AVG", "temperature");
    let expected = format!(
        r#"
            SELECT
                '{}' AS id,
                $1 AS stream_id,
                {tb} AS timestamp,
                jsonb_build_object(
                    '{field}', {}({fp})::text::numeric,
                    'count', COUNT(*)
                ) AS payload
            FROM data_points
            WHERE stream_id = $1 AND timestamp >= $2 AND timestamp <= $3
            GROUP BY {tb}
            ORDER BY {tb}
            "#,
        "00000000-0000-0000-0000-000000000001",
        "AVG",
        tb = "time_bucket('1 hour', timestamp)",
        field = "temperature",
        fp = "payload->'temperature'"
    );
    assert_eq!(q, expected);
    let q = aggregated_query("5 minutes", "sum", "x").unwrap();
    assert!(q.contains("SUM(payload->'x')::text::numeric"));
    assert!(q.contains("GROUP BY time_bucket('5 minutes', timestamp)"));
    assert_eq!(validation(aggregated_query("5 minutes", "mode", "x").unwrap_err()), "Invalid aggregation function: mode");
}

#[test]
fn field_stats_sql() {
    let q = field_stats_query("humidity");
    let p = "payload->'humidity'";
    let expected = format!(
        r#"
            SELECT
                MIN(({p})::text::numeric) AS min,
                MAX(({p})::text::numeric) AS max,
                AVG(({p})::text::numeric) AS avg,
                STDDEV(({p})::text::numeric) AS stddev,
                COUNT(*) AS count,
                MIN(timestamp) AS first_timestamp,
                MAX(timestamp) AS last_timestamp
            FROM data_points
            WHERE 
                stream_id = $1 AND 
                timestamp >= $2 AND 
                timestamp <= $3 AND
                ({p}) IS NOT NULL
            "#
    );
    assert_eq!(q, expected);
}

#[test]
fn schema_fields_are_the_property_names() {
    let schema = obj(vec![
        ("type", s("object")),
        (
            "properties",
            obj(vec![
                ("humidity", obj(vec![("type", s("number"))])),
                ("location", obj(vec![("type", s("string"))])),
                ("sensor_id", obj(vec![("type", s("string"))])),
                ("temperature", obj(vec![("type", s("number"))])),
            ]),
        ),
    ]);
    assert_eq!(extract_fields_from_schema(&schema), vec!["humidity", "location", "sensor_id", "temperature"]);
    assert!(extract_fields_from_schema(&obj(vec![("type", s("object"))])).is_empty());
    assert!(extract_fields_from_schema(&obj(vec![("properties", s("x"))])).is_empty());
    assert!(extract_fields_from_schema(&JsonValue::Null).is_empty());
}

#[test]
fn missing_streams_are_not_found() {
    match require_stream(None, 0x1234) {
        Err(Error::NotFound(m)) => assert_eq!(m, "Stream not found: 00000000-0000-0000-0000-000000001234"),
        other => panic!("unexpected {:?}", other),
    }
    let st = Stream {
        id: 3,
        name: "s".to_string(),
        description: None,
        schema: obj(vec![]),
        retention: RetentionConfig::default(),
        created_at: Timestamp { secs: 0, nanos: 0 },
        updated_at: Timestamp { secs: 0, nanos: 0 },
    };
    assert_eq!(require_stream(Some(st), 3).unwrap().name, "s");
}

#[test]
fn query_metadata_counts_points() {
    let data = vec![
        DataPoint { stream_id: 1, id: 1, timestamp: Timestamp { secs: 0, nanos: 0 }, payload: JsonValue::Null },
        DataPoint { stream_id: 1, id: 2, timestamp: Timestamp { secs: 1, nanos: 0 }, payload: JsonValue::Null },
    ];
    let start = Timestamp { secs: JAN1, nanos: 0 };
    let end = Timestamp { secs: JAN2, nanos: 0 };
    let m = query_metadata(1, start, end, &data);
    assert_eq!(m.count, 2);
    assert_eq!(m.start_time, start);
    assert_eq!(m.end_time, end);
    assert_eq!(m.stream_id, 1);
}

#[test]
fn api_health_and_config_defaults() {
    let h = check("0.1.0");
    assert_eq!(h.status, "ok");
    assert_eq!(h.version, "0.1.0");
    assert_eq!(default_host(), "0.0.0.0");
    assert_eq!(default_port(), 8080);
    assert_eq!(default_timeout(), 30);
    assert_eq!(default_max_connections(), 10);
    assert_eq!(default_min_connections(), 2);
    assert_eq!(default_connect_timeout(), 10);
    assert!(default_cors_enabled());
    assert_eq!(default_allowed_origins(), vec!["*"]);
    assert!(!default_allow_credentials());
    let server = default_server_config();
    assert_eq!(server.timeout_seconds, 30);
    assert_eq!(server.address(), "0.0.0.0:8080");
    let cors = default_cors_config();
    assert!(cors.enabled);
    assert_eq!(cors.allowed_origins, vec!["*"]);
    let config = Config::new(DatabaseConfig::new("postgres://localhost/aevum".to_string()));
    assert_eq!(config.database.max_connections, 10);
    assert_eq!(config.server.port, 8080);
    assert!(!config.cors.allow_credentials);
}

#[test]
fn default_start_before_a_leap_second_end() {
    let leap = Timestamp { secs: 1_483_228_799, nanos: 1_000_000_000 };
    let now = Timestamp { secs: 1_600_000_000, nanos: 0 };
    let (start, end) = resolve_time_range(None, Some(Ok(leap)), now).unwrap();
    assert_eq!(end, leap);
    assert_eq!(start, Timestamp { secs: 1_483_142_400, nanos: 0 });
    let half = Timestamp { secs: 1_483_228_799, nanos: 1_500_000_000 };
    let (start, _) = resolve_time_range(None, Some(Ok(half)), now).unwrap();
    assert_eq!(start, Timestamp { secs: 1_483_142_400, nanos: 500_000_000 });
}

#[test]
fn parse_time_range_with_a_leap_second_end() {
    let (start, end) = parse_time_range(&None, &Some("2016-12-31T23:59:60Z".to_string())).unwrap();
    assert_eq!(end, Timestamp { secs: 1_483_228_799, nanos: 1_000_000_000 });
    assert_eq!(start, Timestamp { secs: 1_483_142_400, nanos: 0 });
}
