use aevum::common::json::{JsonNumber, JsonValue};
use aevum::common::models::{AggregationFunction, DataPoint, Operation, Pipeline, Timestamp};
use aevum::processor::config::{
    default_batch_size, default_client_id, default_group_id, default_interval_ms, default_pool_size,
    default_processing_config, default_workers, Config, KafkaConfig, KafkaTopics, RedisConfig,
};
use aevum::processor::consumer::KafkaConsumer;
use aevum::processor::numeric::{ArithOp, CompareOp, NumericAnswer, NumericQuery};
use aevum::processor::operations::{
    window_key, AggregateOperation, AnomalyDetectionOperation, FilterOperation, OperationFactory, StreamOperation,
    TransformOperation,
};
use aevum::processor::pipeline::{PipelineExecutor, PipelineManager};
use aevum::processor::processor::{LoopAction, LoopEvent, StreamProcessor};

fn as_f64(n: &JsonNumber) -> f64 {
    match n {
        JsonNumber::PosInt(u) => *u as f64,
        JsonNumber::NegInt(i) => *i as f64,
        JsonNumber::Float(b) => f64::from_bits(*b),
    }
}

fn number(x: f64) -> Option<JsonNumber> {
    if x.is_finite() {
        Some(JsonNumber::Float(x.to_bits()))
    } else {
        None
    }
}

fn apply(op: ArithOp, a: f64, b: f64) -> f64 {
    match op {
        ArithOp::Mul => a * b,
        ArithOp::Div => a / b,
        ArithOp::Add => a + b,
        ArithOp::Sub => a - b,
    }
}

fn evaluate(q: NumericQuery) -> NumericAnswer {
    match q {
        NumericQuery::Compare { value, op, threshold } => {
            let t = match threshold.parse::<f64>() {
                Ok(t) => t,
                Err(_) => return NumericAnswer::Truth(false),
            };
            let v = as_f64(&value);
            NumericAnswer::Truth(match op {
                CompareOp::Gt => v > t,
                CompareOp::Ge => v >= t,
                CompareOp::Lt => v < t,
                CompareOp::Le => v <= t,
                CompareOp::Eq => (v - t).abs() < f64::EPSILON,
                CompareOp::Ne => (v - t).abs() >= f64::EPSILON,
            })
        }
        NumericQuery::Arithmetic { value, first, second } => {
            let a = match first.1.parse::<f64>() {
                Ok(a) => a,
                Err(_) => return NumericAnswer::Unparsable,
            };
            let mut r = apply(first.0, as_f64(&value), a);
            if let Some((op, text)) = second {
                let b = match text.parse::<f64>() {
                    Ok(b) => b,
                    Err(_) => return NumericAnswer::Unparsable,
                };
                r = apply(op, r, b);
            }
            NumericAnswer::Value(number(r))
        }
        NumericQuery::Aggregate { function, values } => {
            let xs: Vec<f64> = values.iter().map(as_f64).collect();
            let r = if xs.is_empty() {
                0.0
            } else {
                match function {
                    AggregationFunction::Sum => xs.iter().sum(),
                    AggregationFunction::Average => xs.iter().sum::<f64>() / xs.len() as f64,
                    AggregationFunction::Min => xs.iter().fold(f64::MAX, |a, b| a.min(*b)),
                    AggregationFunction::Max => xs.iter().fold(f64::MIN, |a, b| a.max(*b)),
                    AggregationFunction::Count => xs.len() as f64,
                }
            };
            NumericAnswer::Value(number(r))
        }
        NumericQuery::Exceeds { value, limit } => NumericAnswer::Truth(as_f64(&value) > as_f64(&limit)),
    }
}

fn obj(entries: Vec<(&str, JsonValue)>) -> JsonValue {
    JsonValue::Object(entries.into_iter().map(|(k, v)| (k.to_string(), v)).collect())
}

fn uint(n: u64) -> JsonValue {
    JsonValue::Number(JsonNumber::PosInt(n))
}

fn float(x: f64) -> JsonValue {
    JsonValue::Number(JsonNumber::Float(x.to_bits()))
}

fn point(stream_id: u128, id: u128, secs: i64, payload: JsonValue) -> DataPoint {
    DataPoint { stream_id, id, timestamp: Timestamp { secs, nanos: 0 }, payload }
}

fn get_f64(v: &JsonValue, key: &str) -> Option<f64> {
    match v.get(key) {
        Some(JsonValue::Number(n)) => Some(as_f64(n)),
        _ => None,
    }
}

#[test]
fn filter_keeps_points_that_meet_the_condition() {
    let f = FilterOperation::new("temperature > 25".to_string()).unwrap();
    let hot = point(1, 1, 0, obj(vec![("temperature", float(30.5))]));
    let kept = f.process_single(hot, &evaluate).unwrap().unwrap();
    assert_eq!(kept.id, 1);
    assert_eq!(get_f64(&kept.payload, "temperature"), Some(30.5));
    let cold = point(1, 2, 0, obj(vec![("temperature", uint(20))]));
    assert!(f.process_single(cold, &evaluate).unwrap().is_none());
}

#[test]
fn filter_drops_missing_or_non_numeric_fields() {
    let f = FilterOperation::new("temperature >= 25".to_string()).unwrap();
    assert!(f.process_single(point(1, 1, 0, obj(vec![])), &evaluate).unwrap().is_none());
    let text = obj(vec![("temperature", JsonValue::String("30".to_string()))]);
    assert!(f.process_single(point(1, 1, 0, text), &evaluate).unwrap().is_none());
}

#[test]
fn filter_with_a_malformed_condition_keeps_everything() {
    let f = FilterOperation::new("temperature>25".to_string()).unwrap();
    assert!(f.evaluate(&obj(vec![("temperature", uint(1))]), &evaluate));
}

#[test]
fn filter_operators_and_nested_fields() {
    let data = obj(vec![("sensor", obj(vec![("value", uint(10))]))]);
    let eq = FilterOperation::new("sensor.value == 10".to_string()).unwrap();
    assert!(eq.evaluate(&data, &evaluate));
    let eq1 = FilterOperation::new("sensor.value = 10".to_string()).unwrap();
    assert!(eq1.evaluate(&data, &evaluate));
    let ne = FilterOperation::new("sensor.value != 10".to_string()).unwrap();
    assert!(!ne.evaluate(&data, &evaluate));
    let lt = FilterOperation::new("sensor.value < 11".to_string()).unwrap();
    assert!(lt.evaluate(&data, &evaluate));
    let le = FilterOperation::new("sensor.value <= 9".to_string()).unwrap();
    assert!(!le.evaluate(&data, &evaluate));
    let unknown = FilterOperation::new("sensor.value ~ 10".to_string()).unwrap();
    assert!(!unknown.evaluate(&data, &evaluate));
    let bad_threshold = FilterOperation::new("sensor.value > abc".to_string()).unwrap();
    assert!(!bad_threshold.evaluate(&data, &evaluate));
}

#[test]
fn transform_adds_the_computed_field() {
    let t = TransformOperation::new("fahrenheit: temperature * 1.8 + 32".to_string()).unwrap();
    let p = point(3, 4, 10, obj(vec![("temperature", uint(100)), ("unit", JsonValue::String("C".to_string()))]));
    let out = t.process_single(p, &evaluate).unwrap().unwrap();
    assert_eq!(out.stream_id, 3);
    assert_eq!(out.id, 4);
    assert_eq!(out.timestamp, Timestamp { secs: 10, nanos: 0 });
    assert_eq!(get_f64(&out.payload, "fahrenheit"), Some(212.0));
    assert_eq!(get_f64(&out.payload, "temperature"), Some(100.0));
    assert!(matches!(out.payload.get("unit"), Some(JsonValue::String(u)) if u == "C"));
}

#[test]
fn transform_with_a_simple_expression() {
    let t = TransformOperation::new("half : value / 2".to_string()).unwrap();
    let out = t.transform(obj(vec![("value", uint(9))]), &evaluate);
    assert_eq!(get_f64(&out, "half"), Some(4.5));
}

#[test]
fn transform_overwrites_an_existing_field() {
    let t = TransformOperation::new("value: value - 1".to_string()).unwrap();
    let out = t.transform(obj(vec![("value", uint(9))]), &evaluate);
    assert_eq!(get_f64(&out, "value"), Some(8.0));
    if let JsonValue::Object(entries) = &out {
        assert_eq!(entries.len(), 1);
    }
}

#[test]
fn transform_leaves_data_it_cannot_apply_to() {
    let data = obj(vec![("value", uint(9))]);
    for spec in ["no colon here", "a: b: c", "x: value *", "x: missing * 2", "x: value ^ 2", "x: value * two"] {
        let t = TransformOperation::new(spec.to_string()).unwrap();
        let out = t.transform(data.deep_clone(), &evaluate);
        assert!(out.get("x").is_none(), "{}", spec);
        assert_eq!(get_f64(&out, "value"), Some(9.0));
    }
}

#[test]
fn transform_stores_null_for_a_non_finite_result() {
    let t = TransformOperation::new("inf: value / 0".to_string()).unwrap();
    let out = t.transform(obj(vec![("value", uint(1))]), &evaluate);
    assert!(matches!(out.get("inf"), Some(JsonValue::Null)));
}

#[test]
fn anomaly_detection_flags_values_over_the_threshold() {
    let a = AnomalyDetectionOperation::new("threshold".to_string(), obj(vec![("threshold", uint(100))])).unwrap();
    let now = Timestamp { secs: 1_672_531_200, nanos: 0 };
    let out = a.process_single_at(point(1, 1, 0, obj(vec![("value", uint(150))])), now, &evaluate).unwrap().unwrap();
    assert!(matches!(out.payload.get("is_anomaly"), Some(JsonValue::Bool(true))));
    let meta = out.payload.get("anomaly_detection").unwrap();
    assert!(matches!(meta.get("algorithm"), Some(JsonValue::String(s)) if s == "threshold"));
    assert!(matches!(meta.get("detected_at"), Some(JsonValue::String(s)) if s == "2023-01-01T00:00:00+00:00"));
    let normal = a.process_single_at(point(1, 2, 0, obj(vec![("value", uint(50))])), now, &evaluate).unwrap().unwrap();
    assert!(normal.payload.get("is_anomaly").is_none());
    let no_value = a.process_single(point(1, 3, 0, obj(vec![])), &evaluate).unwrap().unwrap();
    assert!(no_value.payload.get("is_anomaly").is_none());
}

#[test]
fn anomaly_detection_without_threshold_flags_nothing() {
    let a = AnomalyDetectionOperation::new("zscore".to_string(), obj(vec![])).unwrap();
    let p = point(1, 1, 0, obj(vec![("value", uint(1_000_000))]));
    assert!(!a.detect_anomalies(&p, &evaluate));
}

#[test]
fn window_keys_truncate_toward_zero() {
    assert_eq!(window_key(125, 60), 120);
    assert_eq!(window_key(120, 60), 120);
    assert_eq!(window_key(59, 60), 0);
    assert_eq!(window_key(-5, 10), 0);
    assert_eq!(window_key(-15, 10), -10);
}

#[test]
fn aggregation_emits_closed_windows() {
    let mut agg = AggregateOperation::new(60, AggregationFunction::Average, "temperature".to_string(), 7);
    let points = vec![
        point(1, 1, 0, obj(vec![("temperature", uint(10))])),
        point(1, 2, 30, obj(vec![("temperature", uint(20))])),
        point(1, 3, 59, obj(vec![("other", uint(5))])),
        point(1, 4, 120, obj(vec![("temperature", uint(99))])),
    ];
    let now = Timestamp { secs: 100, nanos: 0 };
    let out = agg.process_batch_at(points, now, &evaluate).unwrap();
    assert_eq!(out.len(), 1);
    let p = &out[0];
    assert_eq!(p.stream_id, 7);
    assert_eq!(p.timestamp, Timestamp { secs: 0, nanos: 0 });
    assert_eq!(get_f64(&p.payload, "temperature"), Some(15.0));
    assert_eq!(get_f64(&p.payload, "window_start"), Some(0.0));
    assert_eq!(get_f64(&p.payload, "window_end"), Some(60.0));
    assert_eq!(get_f64(&p.payload, "window_size_seconds"), Some(60.0));
    assert_eq!(get_f64(&p.payload, "count"), Some(3.0));
    assert!(matches!(p.payload.get("aggregation"), Some(JsonValue::String(s)) if s == "Average"));
    assert_eq!(agg.window.len(), 1);
    assert_eq!(agg.window[0].0, 120);
    assert_eq!(agg.last_window_end, now);
    let later = Timestamp { secs: 200, nanos: 0 };
    let out = agg.process_windows(later, &evaluate);
    assert_eq!(out.len(), 1);
    assert_eq!(get_f64(&out[0].payload, "temperature"), Some(99.0));
    assert!(agg.window.is_empty());
}

#[test]
fn aggregation_skips_windows_without_values() {
    let mut agg = AggregateOperation::new(10, AggregationFunction::Sum, "x".to_string(), 1);
    let out = agg.process_batch_at(vec![point(1, 1, 0, obj(vec![]))], Timestamp { secs: 100, nanos: 0 }, &evaluate).unwrap();
    assert!(out.is_empty());
    assert!(agg.window.is_empty());
}

#[test]
fn aggregation_functions() {
    for (f, expected, name) in [
        (AggregationFunction::Sum, 6.0, "Sum"),
        (AggregationFunction::Min, 1.0, "Min"),
        (AggregationFunction::Max, 3.0, "Max"),
        (AggregationFunction::Count, 3.0, "Count"),
    ] {
        let mut agg = AggregateOperation::new(10, f, "x".to_string(), 1);
        let pts = vec![
            point(1, 1, 1, obj(vec![("x", uint(1))])),
            point(1, 2, 2, obj(vec![("x", uint(2))])),
            point(1, 3, 3, obj(vec![("x", uint(3))])),
        ];
        let out = agg.process_batch_at(pts, Timestamp { secs: 50, nanos: 0 }, &evaluate).unwrap();
        assert_eq!(out.len(), 1);
        assert_eq!(get_f64(&out[0].payload, "x"), Some(expected));
        assert!(matches!(out[0].payload.get("aggregation"), Some(JsonValue::String(s)) if s == name));
    }
}

#[test]
fn aggregation_ignores_single_points_and_empty_batches() {
    let mut agg = AggregateOperation::new(10, AggregationFunction::Sum, "x".to_string(), 1);
    assert!(agg.process_single(point(1, 1, 1, obj(vec![("x", uint(1))]))).unwrap().is_none());
    assert!(agg.process_batch(vec![], &evaluate).unwrap().is_empty());
}

#[test]
fn factory_builds_each_kind_of_operation() {
    let f = OperationFactory::create(Operation::Filter { condition: "x > 1".to_string() }, 1).unwrap();
    assert!(matches!(f, StreamOperation::Filter(_)));
    let t = OperationFactory::create(Operation::Transform { transformation: "y: x * 2".to_string() }, 1).unwrap();
    assert!(matches!(t, StreamOperation::Transform(_)));
    let a = OperationFactory::create(
        Operation::Aggregate { window_seconds: 60, function: AggregationFunction::Max, field: "x".to_string() },
        5,
    )
    .unwrap();
    match a {
        StreamOperation::Aggregate(op) => {
            assert_eq!(op.stream_id, 5);
            assert_eq!(op.window_seconds, 60);
        }
        _ => panic!("not an aggregation"),
    }
    let d = OperationFactory::create(
        Operation::AnomalyDetection { algorithm: "threshold".to_string(), parameters: JsonValue::Null },
        1,
    )
    .unwrap();
    assert!(matches!(d, StreamOperation::AnomalyDetection(_)));
}

fn pipeline(id: u128, source: u128, destination: Option<u128>, operations: Vec<Operation>) -> Pipeline {
    Pipeline {
        id,
        name: format!("p{}", id),
        description: None,
        source_stream_id: source,
        destination_stream_id: destination,
        operations,
        created_at: Timestamp { secs: 0, nanos: 0 },
        updated_at: Timestamp { secs: 0, nanos: 0 },
    }
}

#[test]
fn executor_applies_operations_in_order_and_retargets() {
    let p = pipeline(
        1,
        10,
        Some(20),
        vec![
            Operation::Filter { condition: "x > 1".to_string() },
            Operation::Transform { transformation: "y: x * 10".to_string() },
        ],
    );
    let e = PipelineExecutor::new(p).unwrap();
    let now = Timestamp { secs: 1_000, nanos: 0 };
    let out = e.process_at(point(10, 1, 0, obj(vec![("x", uint(2))])), now, &evaluate).unwrap();
    assert_eq!(out.len(), 1);
    assert_eq!(out[0].stream_id, 20);
    assert_eq!(get_f64(&out[0].payload, "y"), Some(20.0));
    let dropped = e.process_at(point(10, 2, 0, obj(vec![("x", uint(1))])), now, &evaluate).unwrap();
    assert!(dropped.is_empty());
    let other_stream = e.process(point(11, 3, 0, obj(vec![("x", uint(5))])), &evaluate).unwrap();
    assert!(other_stream.is_empty());
}

#[test]
fn executor_batch_keeps_only_its_stream() {
    let p = pipeline(1, 10, None, vec![Operation::Filter { condition: "x > 1".to_string() }]);
    let mut e = PipelineExecutor::new(p).unwrap();
    let batch = vec![
        point(10, 1, 0, obj(vec![("x", uint(5))])),
        point(11, 2, 0, obj(vec![("x", uint(5))])),
        point(10, 3, 0, obj(vec![("x", uint(0))])),
        point(10, 4, 0, obj(vec![("x", uint(9))])),
    ];
    let out = e.process_batch(batch, &evaluate).unwrap();
    let ids: Vec<u128> = out.iter().map(|p| p.id).collect();
    assert_eq!(ids, vec![1, 4]);
    assert!(out.iter().all(|p| p.stream_id == 10));
}

#[test]
fn manager_routes_points_to_the_pipelines_of_their_stream() {
    let mut m = PipelineManager::new();
    m.register_pipeline(pipeline(1, 10, Some(30), vec![])).unwrap();
    m.register_pipeline(pipeline(2, 20, None, vec![Operation::Transform { transformation: "y: x + 1".to_string() }]))
        .unwrap();
    m.register_pipeline(pipeline(3, 10, None, vec![Operation::Filter { condition: "x > 100".to_string() }]))
        .unwrap();
    assert_eq!(m.pipelines.len(), 3);
    assert!(m.can_take_batch());
    let now = Timestamp { secs: 1_000, nanos: 0 };
    let out = m.process_at(point(10, 1, 0, obj(vec![("x", uint(5))])), now, &evaluate).unwrap();
    assert_eq!(out.len(), 1);
    assert_eq!(out[0].stream_id, 30);
    let none = m.process(point(99, 2, 0, obj(vec![("x", uint(5))])), &evaluate).unwrap();
    assert!(none.is_empty());
}

#[test]
fn manager_batch_groups_outputs_by_stream_in_order_of_appearance() {
    let mut m = PipelineManager::new();
    m.register_pipeline(pipeline(1, 10, None, vec![])).unwrap();
    m.register_pipeline(pipeline(2, 20, None, vec![])).unwrap();
    m.register_pipeline(pipeline(3, 10, Some(40), vec![])).unwrap();
    let batch = vec![
        point(20, 1, 0, JsonValue::Null),
        point(10, 2, 0, JsonValue::Null),
        point(20, 3, 0, JsonValue::Null),
        point(10, 4, 0, JsonValue::Null),
    ];
    let out = m.process_batch_at(batch, Timestamp { secs: 5, nanos: 0 }, &evaluate).unwrap();
    let got: Vec<(u128, u128)> = out.iter().map(|p| (p.stream_id, p.id)).collect();
    assert_eq!(got, vec![(20, 1), (20, 3), (10, 2), (10, 4), (40, 2), (40, 4)]);
}

#[test]
fn manager_with_a_zero_second_window_cannot_take_a_batch() {
    let mut m = PipelineManager::new();
    let agg = Operation::Aggregate { window_seconds: 0, function: AggregationFunction::Sum, field: "x".to_string() };
    m.register_pipeline(pipeline(1, 10, None, vec![agg])).unwrap();
    assert!(!m.can_take_batch());
}

fn processor_config(batch_size: usize) -> Config {
    let topics = KafkaTopics {
        raw_data: "raw".to_string(),
        processed_data: "processed".to_string(),
        stream_metadata: "meta".to_string(),
        pipelines: "pipelines".to_string(),
    };
    let mut c = Config::new(KafkaConfig::new("localhost:9092".to_string(), topics));
    c.processing.batch_size = batch_size;
    c
}

#[test]
fn processing_loop_batches_by_size() {
    let mut sp = StreamProcessor::new(processor_config(2));
    sp.register_pipeline(pipeline(1, 10, Some(11), vec![])).unwrap();
    assert!(sp.start().is_ok());
    let a = sp.handle(LoopEvent::Received(point(10, 1, 0, JsonValue::Null)), &evaluate);
    assert!(matches!(a, LoopAction::Wait));
    assert_eq!(sp.batch.len(), 1);
    let a = sp.handle(LoopEvent::Received(point(10, 2, 0, JsonValue::Null)), &evaluate);
    match a {
        LoopAction::Publish(out) => {
            let ids: Vec<u128> = out.iter().map(|p| p.id).collect();
            assert_eq!(ids, vec![1, 2]);
            assert!(out.iter().all(|p| p.stream_id == 11));
        }
        other => panic!("expected points to publish, got {:?}", other),
    }
    assert!(sp.batch.is_empty());
}

#[test]
fn processing_loop_flushes_on_tick_and_stops_on_shutdown() {
    let mut sp = StreamProcessor::new(processor_config(100));
    sp.register_pipeline(pipeline(1, 10, None, vec![])).unwrap();
    assert!(matches!(sp.handle(LoopEvent::Tick, &evaluate), LoopAction::Wait));
    sp.handle(LoopEvent::Received(point(10, 1, 0, JsonValue::Null)), &evaluate);
    sp.handle(LoopEvent::Received(point(99, 2, 0, JsonValue::Null)), &evaluate);
    match sp.handle(LoopEvent::Tick, &evaluate) {
        LoopAction::Publish(out) => assert_eq!(out.len(), 1),
        other => panic!("expected points to publish, got {:?}", other),
    }
    sp.handle(LoopEvent::Received(point(99, 3, 0, JsonValue::Null)), &evaluate);
    assert!(matches!(sp.handle(LoopEvent::Tick, &evaluate), LoopAction::Wait));
    assert!(sp.batch.is_empty());
    sp.handle(LoopEvent::Received(point(10, 4, 0, JsonValue::Null)), &evaluate);
    assert!(matches!(sp.handle(LoopEvent::Shutdown, &evaluate), LoopAction::Stop));
    assert_eq!(sp.batch.len(), 1);
}

#[test]
fn processor_starts_only_once() {
    let mut sp = StreamProcessor::new(processor_config(10));
    assert!(sp.start().is_ok());
    match sp.start() {
        Err(aevum::common::error::Error::Unexpected(m)) => assert_eq!(m, "Shutdown receiver already taken"),
        other => panic!("unexpected {:?}", other),
    }
}

#[test]
fn processor_consumer_takes_raw_data_only() {
    let config = processor_config(10);
    let c = KafkaConsumer::new(&config.kafka);
    assert_eq!(c.topics(), vec!["raw", "meta", "pipelines"]);
    assert!(c.takes_message("raw", true));
    assert!(!c.takes_message("raw", false));
    assert!(!c.takes_message("meta", true));
    assert!(!c.takes_message("pipelines", true));
}

#[test]
fn processor_config_defaults() {
    assert_eq!(default_client_id(), "aevum-processor");
    assert_eq!(default_group_id(), "aevum-processor-group");
    assert_eq!(default_pool_size(), 10);
    assert_eq!(default_batch_size(), 100);
    assert_eq!(default_interval_ms(), 100);
    assert!(default_workers() >= 1);
    let p = default_processing_config();
    assert_eq!(p.batch_size, 100);
    assert_eq!(p.interval_ms, 100);
    assert!(p.workers >= 1);
    let c = processor_config(100);
    assert_eq!(c.kafka.client_id, "aevum-processor");
    assert_eq!(c.kafka.group_id, "aevum-processor-group");
    assert!(c.redis.is_none());
    assert_eq!(RedisConfig::new("redis://x".to_string()).pool_size, 10);
}

#[test]
fn batch_without_aggregation_matches_points_one_by_one() {
    let ops = || {
        vec![
            Operation::Filter { condition: "x > 1".to_string() },
            Operation::Transform { transformation: "y: x * 3".to_string() },
        ]
    };
    let single = PipelineExecutor::new(pipeline(1, 10, Some(12), ops())).unwrap();
    let mut batched = PipelineExecutor::new(pipeline(1, 10, Some(12), ops())).unwrap();
    let make = || {
        vec![
            point(10, 1, 0, obj(vec![("x", uint(5))])),
            point(11, 2, 0, obj(vec![("x", uint(5))])),
            point(10, 3, 0, obj(vec![("x", uint(1))])),
            point(10, 4, 0, obj(vec![("x", uint(2))])),
        ]
    };
    let now = Timestamp { secs: 1_000, nanos: 0 };
    let mut one_by_one = Vec::new();
    for p in make() {
        one_by_one.extend(single.process_at(p, now, &evaluate).unwrap());
    }
    let batch = batched.process_batch_at(make(), now, &evaluate).unwrap();
    let summary = |v: &Vec<DataPoint>| -> Vec<(u128, u128, Option<f64>)> {
        v.iter().map(|p| (p.stream_id, p.id, get_f64(&p.payload, "y"))).collect()
    };
    assert_eq!(summary(&batch), summary(&one_by_one));
    assert_eq!(summary(&batch), vec![(12, 1, Some(15.0)), (12, 4, Some(6.0))]);
}

#[test]
fn zero_second_window_that_no_point_reaches_is_harmless() {
    let mut m = PipelineManager::new();
    let ops = vec![
        Operation::Filter { condition: "x > 100".to_string() },
        Operation::Aggregate { window_seconds: 0, function: AggregationFunction::Sum, field: "x".to_string() },
    ];
    m.register_pipeline(pipeline(1, 10, None, ops)).unwrap();
    assert!(!m.can_take_batch());
    let out = m
        .process_batch_at(vec![point(10, 1, 0, obj(vec![("x", uint(1))]))], Timestamp { secs: 5, nanos: 0 }, &evaluate)
        .unwrap();
    assert!(out.is_empty());
}

#[test]
fn loop_tells_when_it_hands_a_batch() {
    let mut sp = StreamProcessor::new(processor_config(2));
    assert!(!sp.hands_batch(&LoopEvent::Tick));
    assert!(!sp.hands_batch(&LoopEvent::Received(point(10, 1, 0, JsonValue::Null))));
    assert!(!sp.hands_batch(&LoopEvent::Shutdown));
    sp.handle(LoopEvent::Received(point(10, 1, 0, JsonValue::Null)), &evaluate);
    assert!(sp.hands_batch(&LoopEvent::Tick));
    assert!(sp.hands_batch(&LoopEvent::Received(point(10, 2, 0, JsonValue::Null))));
}
