use aevum::common::error::Error;
use aevum::common::format::{decimal_text, uuid_string};
use aevum::common::json::{get_nested_value, object_insert, JsonNumber, JsonValue};
use aevum::common::models::{default_retention_days, later_than, RetentionConfig, Timestamp};
use aevum::common::text::{split_char, split_words, str_eq, trim_str};
use aevum::common::utils::{current_timestamp, generate_id, seconds_ago, seconds_before, validate_json};

fn obj(entries: Vec<(&str, JsonValue)>) -> JsonValue {
    JsonValue::Object(entries.into_iter().map(|(k, v)| (k.to_string(), v)).collect())
}

fn uint(n: u64) -> JsonValue {
    JsonValue::Number(JsonNumber::PosInt(n))
}

#[test]
fn generated_ids_are_version_4_uuids() {
    let id = generate_id();
    assert_eq!((id >> 76) & 0xf, 4);
    assert_eq!((id >> 62) & 0x3, 2);
    let other = generate_id();
    assert_ne!(id, other);
}

#[test]
fn current_timestamp_reads_the_clock() {
    let t = current_timestamp();
    assert!(t.secs > 1_600_000_000);
    assert!(t.nanos < 1_000_000_000);
}

#[test]
fn seconds_before_subtracts_whole_seconds() {
    let now = Timestamp { secs: 1_000, nanos: 5 };
    let t = seconds_before(now, 60).unwrap();
    assert_eq!(t, Timestamp { secs: 940, nanos: 5 });
    let t = seconds_before(now, -60).unwrap();
    assert_eq!(t.secs, 1_060);
}

#[test]
fn seconds_before_refuses_out_of_range_durations() {
    let now = Timestamp { secs: 0, nanos: 0 };
    assert!(seconds_before(now, i64::MAX).is_none());
    assert!(seconds_before(now, 9_223_372_036_854_775).is_none());
}

#[test]
fn seconds_ago_is_in_the_past() {
    let now = current_timestamp();
    let t = seconds_ago(3600).unwrap();
    assert!(t.secs <= now.secs - 3600 + 1);
    assert!(t.secs >= now.secs - 3600 - 5);
}

#[test]
fn validate_json_checks_type_and_required() {
    let schema = obj(vec![
        ("type", JsonValue::String("object".to_string())),
        ("required", JsonValue::Array(vec![JsonValue::String("temperature".to_string())])),
    ]);
    assert_eq!(validate_json(&obj(vec![]), &schema), Err("missing required property: temperature".to_string()));
    assert_eq!(validate_json(&obj(vec![("temperature", uint(22))]), &schema), Ok(()));
    assert_eq!(validate_json(&uint(1), &schema), Err("value is not of type object".to_string()));
    let strings = obj(vec![("type", JsonValue::String("string".to_string()))]);
    assert_eq!(validate_json(&JsonValue::String("x".to_string()), &strings), Ok(()));
    assert_eq!(validate_json(&JsonValue::Null, &strings), Err("value is not of type string".to_string()));
}

#[test]
fn validate_json_ignores_unknown_keywords() {
    assert!(validate_json(&uint(1), &JsonValue::Null).is_ok());
    assert!(validate_json(&JsonValue::String("x".to_string()), &obj(vec![])).is_ok());
    let schema = obj(vec![
        ("type", JsonValue::String("integer".to_string())),
        ("required", JsonValue::Array(vec![uint(3)])),
    ]);
    assert!(validate_json(&obj(vec![]), &schema).is_ok());
    let no_type = obj(vec![("required", JsonValue::Array(vec![JsonValue::String("a".to_string())]))]);
    assert!(validate_json(&uint(5), &no_type).is_ok());
    assert_eq!(validate_json(&obj(vec![]), &no_type), Err("missing required property: a".to_string()));
}

#[test]
fn get_nested_value_follows_dotted_paths() {
    let data = obj(vec![
        ("sensor", obj(vec![("temperature", uint(21)), ("unit", JsonValue::String("C".to_string()))])),
        ("value", uint(7)),
    ]);
    assert!(matches!(get_nested_value(&data, "value"), Some(JsonValue::Number(JsonNumber::PosInt(7)))));
    assert!(matches!(
        get_nested_value(&data, "sensor.temperature"),
        Some(JsonValue::Number(JsonNumber::PosInt(21)))
    ));
    assert!(get_nested_value(&data, "sensor.missing").is_none());
    assert!(get_nested_value(&data, "value.deeper").is_none());
    assert!(get_nested_value(&uint(3), "value").is_none());
}

#[test]
fn get_reads_an_object_key() {
    let data = obj(vec![("a", uint(1)), ("b", uint(2))]);
    assert!(matches!(data.get("b"), Some(JsonValue::Number(JsonNumber::PosInt(2)))));
    assert!(data.get("c").is_none());
    assert!(JsonValue::Null.get("a").is_none());
    assert!(data.is_object());
    assert!(!uint(1).is_object());
}

#[test]
fn insert_then_read_gives_the_inserted_value() {
    let mut entries = vec![("a".to_string(), uint(1)), ("b".to_string(), uint(2))];
    object_insert(&mut entries, "b".to_string(), uint(20));
    object_insert(&mut entries, "c".to_string(), uint(30));
    let data = JsonValue::Object(entries);
    assert!(matches!(data.get("b"), Some(JsonValue::Number(JsonNumber::PosInt(20)))));
    assert!(matches!(data.get("c"), Some(JsonValue::Number(JsonNumber::PosInt(30)))));
    assert!(matches!(data.get("a"), Some(JsonValue::Number(JsonNumber::PosInt(1)))));
    if let JsonValue::Object(e) = &data {
        assert_eq!(e.len(), 3);
        assert_eq!(e[1].0, "b");
    }
}

#[test]
fn insert_field_ignores_non_objects() {
    let mut v = uint(5);
    v.insert_field("a".to_string(), uint(1));
    assert!(matches!(v, JsonValue::Number(JsonNumber::PosInt(5))));
    let mut o = obj(vec![]);
    o.insert_field("a".to_string(), uint(1));
    assert!(matches!(o.get("a"), Some(JsonValue::Number(JsonNumber::PosInt(1)))));
}

#[test]
fn deep_clone_copies_nested_values() {
    let data = obj(vec![("list", JsonValue::Array(vec![uint(1), JsonValue::Bool(true)]))]);
    let copy = data.deep_clone();
    match copy.get("list") {
        Some(JsonValue::Array(items)) => {
            assert_eq!(items.len(), 2);
            assert!(matches!(items[1], JsonValue::Bool(true)));
        }
        _ => panic!("list missing"),
    }
}

#[test]
fn text_helpers_split_and_trim() {
    assert_eq!(split_char("a.b.c", '.'), vec!["a", "b", "c"]);
    assert_eq!(split_char("a..b", '.'), vec!["a", "", "b"]);
    assert_eq!(split_char("", '.'), vec![""]);
    assert_eq!(split_words("  temperature  >\t25 "), vec!["temperature", ">", "25"]);
    assert!(split_words("   ").is_empty());
    assert_eq!(trim_str("  hello world \n"), "hello world");
    assert_eq!(trim_str("   "), "");
    assert!(str_eq("abc", "abc"));
    assert!(!str_eq("abc", "abd"));
}

#[test]
fn uuid_text_is_hyphenated_lower_hex() {
    let v: u128 = 0x67e5_5044_10b1_426f_9247_bb68_0e5f_e0c8;
    assert_eq!(uuid_string(v), "67e55044-10b1-426f-9247-bb680e5fe0c8");
    assert_eq!(uuid_string(0), "00000000-0000-0000-0000-000000000000");
    let text = uuid_string(u128::MAX);
    assert_eq!(text, "ffffffff-ffff-ffff-ffff-ffffffffffff");
    assert_eq!(text.len(), 36);
}

#[test]
fn decimal_text_writes_digits() {
    assert_eq!(decimal_text(0), "0");
    assert_eq!(decimal_text(7), "7");
    assert_eq!(decimal_text(8080), "8080");
    assert_eq!(decimal_text(u64::MAX), "18446744073709551615");
}

#[test]
fn error_messages_carry_the_kind_prefix() {
    assert_eq!(Error::Validation("bad".to_string()).message(), "Validation error: bad");
    assert_eq!(Error::NotFound("x".to_string()).message(), "Not found: x");
    assert_eq!(Error::Config("c".to_string()).message(), "Configuration error: c");
    assert_eq!(Error::Io("i".to_string()).message(), "IO error: i");
    assert_eq!(Error::Database("d".to_string()).message(), "Database error: d");
    assert_eq!(Error::StreamProcessing("s".to_string()).message(), "Stream processing error: s");
    assert_eq!(Error::Serialization("j".to_string()).message(), "Serialization error: j");
    assert_eq!(Error::Authentication("a".to_string()).message(), "Authentication error: a");
    assert_eq!(Error::Authorization("z".to_string()).message(), "Authorization error: z");
    assert_eq!(Error::ExternalService("k".to_string()).message(), "External service error: k");
    assert_eq!(Error::Unexpected("u".to_string()).message(), "Unexpected error: u");
}

#[test]
fn retention_defaults_to_thirty_days() {
    assert_eq!(default_retention_days(), 30);
    let r = RetentionConfig::default();
    assert_eq!(r.days, 30);
    assert_eq!(r.max_records, None);
}

#[test]
fn later_than_orders_by_seconds_then_nanos() {
    let a = Timestamp { secs: 10, nanos: 0 };
    let b = Timestamp { secs: 10, nanos: 1 };
    assert!(later_than(b, a));
    assert!(!later_than(a, b));
    assert!(!later_than(a, a));
    assert!(later_than(Timestamp { secs: 11, nanos: 0 }, b));
}

#[test]
fn dotted_paths_follow_their_parts_in_turn() {
    let inner = obj(vec![("b", obj(vec![("c", uint(3))]))]);
    let data = obj(vec![("a", inner.deep_clone())]);
    let whole = get_nested_value(&data, "a.b.c");
    let first = get_nested_value(&data, "a").unwrap();
    let rest = get_nested_value(first, "b.c");
    assert!(matches!(whole, Some(JsonValue::Number(JsonNumber::PosInt(3)))));
    assert!(matches!(rest, Some(JsonValue::Number(JsonNumber::PosInt(3)))));
    assert!(matches!(get_nested_value(&data, "a"), Some(JsonValue::Object(_))));
    assert!(get_nested_value(&data, "x.b").is_none());
}
