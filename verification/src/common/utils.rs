//! Identifiers, clock readings, RFC 3339 text and JSON helpers.
use vstd::prelude::*;
use crate::common::json::{json_get, lemma_items_json, items_json, Json, JsonNumber, JsonValue};
use crate::common::text::str_eq;
use crate::common::models::Timestamp;

verus! {

/// The earliest second chrono can represent (-262143-01-01T00:00:00Z).
pub const MIN_SECS: i64 = -8334601315200i64;

/// The latest second chrono can represent (+262142-12-31T23:59:59Z).
pub const MAX_SECS: i64 = 8210266876799i64;

/// Whether a timestamp is an instant chrono can represent without a leap second.
pub open spec fn representable(t: Timestamp) -> bool {
    MIN_SECS <= t.secs <= MAX_SECS && t.nanos < 1_000_000_000
}

/// Generates a new random version 4 UUID (`uuid::Uuid::new_v4`), as its
/// 128-bit value. The value is random: only its version and variant bits are
/// fixed.
pub fn generate_id() -> (r: u128)
    ensures
        (r >> 76u128) & 0xfu128 == 4u128,
        (r >> 62u128) & 0x3u128 == 2u128,
{
    random_uuid()
}

/// `uuid::Uuid::new_v4()`, as its 128-bit value: random bits, except that the
/// version nibble is 4 and the two variant bits are `10`.
#[verifier::external_body]
fn random_uuid() -> (r: u128)
    ensures
        (r >> 76u128) & 0xfu128 == 4u128,
        (r >> 62u128) & 0x3u128 == 2u128,
{
    uuid::Uuid::new_v4().as_u128()
}

/// Gets the current timestamp (`chrono::Utc::now`).
pub fn current_timestamp() -> (r: Timestamp)
    ensures
        0 <= r.secs <= MAX_SECS,
        r.nanos < 1_000_000_000,
{
    utc_now()
}

/// `chrono::Utc::now()`, as seconds and nanoseconds since the epoch. Utc::now
/// reads the system clock as a duration since the epoch (so the seconds are not
/// negative and the nanoseconds stay under one second) and builds a `DateTime`
/// from it, which only exists up to chrono's latest instant. The value itself
/// depends on the clock.
#[verifier::external_body]
fn utc_now() -> (r: Timestamp)
    ensures
        0 <= r.secs <= MAX_SECS,
        r.nanos < 1_000_000_000,
{
    let now = chrono::Utc::now();
    Timestamp { secs: now.timestamp(), nanos: now.timestamp_subsec_nanos() }
}

/// Helper function to generate a timestamp `n` seconds ago: `None` where
/// chrono's `Utc::now() - Duration::seconds(n)` has no result (the duration or
/// the instant is out of chrono's range).
pub fn seconds_ago(n: i64) -> (r: Option<Timestamp>)
    ensures
        exists|now: Timestamp| #[trigger] seconds_before_spec(now, n, r) && 0 <= now.secs <= MAX_SECS && now.nanos
            < 1_000_000_000,
{
    let now = current_timestamp();
    let r = seconds_before(now, n);
    assert(seconds_before_spec(now, n, r));
    r
}

/// Whether `r` is the instant `n` seconds before `now`, or `None` where
/// chrono cannot represent the duration or the result.
pub open spec fn seconds_before_spec(now: Timestamp, n: i64, r: Option<Timestamp>) -> bool {
    if -9_223_372_036_854_775 <= n <= 9_223_372_036_854_775 && MIN_SECS <= now.secs - n <= MAX_SECS {
        r == Some(Timestamp { secs: (now.secs - n) as i64, nanos: now.nanos })
    } else {
        r is None
    }
}

/// The instant `n` seconds before `now`, where chrono can represent both the
/// duration and the result.
pub fn seconds_before(now: Timestamp, n: i64) -> (r: Option<Timestamp>)
    requires
        now.nanos < 1_000_000_000,
    ensures
        r matches Some(t) ==> t.secs == now.secs - n && t.nanos == now.nanos,
        r is Some <==> (-9_223_372_036_854_775 <= n <= 9_223_372_036_854_775 && MIN_SECS
            <= now.secs - n <= MAX_SECS),
{
    if n < -9_223_372_036_854_775 || n > 9_223_372_036_854_775 {
        return None;
    }
    let secs: i128 = now.secs as i128 - n as i128;
    if secs < MIN_SECS as i128 || secs > MAX_SECS as i128 {
        return None;
    }
    Some(Timestamp { secs: secs as i64, nanos: now.nanos })
}

/// Whether `value` is of the JSON Schema type named `t`: "object", "array",
/// "string", "number", "boolean" or "null". Any other name, "integer"
/// among them, is not checked and admits every value.
pub open spec fn has_type(value: Json, t: Seq<char>) -> bool {
    if t == "object"@ {
        value is Object
    } else if t == "array"@ {
        value is Array
    } else if t == "string"@ {
        value is Str
    } else if t == "number"@ {
        value is Number
    } else if t == "boolean"@ {
        value is Bool
    } else if t == "null"@ {
        value is Null
    } else {
        true
    }
}

/// The first of the `required` property names that the object `value` lacks,
/// as the description "missing required property: " and the name; entries
/// that are not strings are skipped.
pub open spec fn missing_required(value: Json, required: Seq<Json>) -> Option<Seq<char>>
    decreases required.len(),
{
    if required.len() == 0 {
        None
    } else {
        match required[0] {
            Json::Str(k) => if json_get(value, k) is None {
                Some("missing required property: "@ + k)
            } else {
                missing_required(value, required.drop_first())
            },
            _ => missing_required(value, required.drop_first()),
        }
    }
}

/// The property names a schema requires: its "required" array, if any.
pub open spec fn required_of(schema: Json) -> Seq<Json> {
    match json_get(schema, "required"@) {
        Some(Json::Array(items)) => items,
        _ => Seq::empty(),
    }
}

/// How `value` breaks `schema`, as a description, or `None` when it meets
/// it: a "type" that the value is not of (see `has_type`) gives "value is
/// not of type " and the type; otherwise an object must hold every property
/// named in "required" (see `missing_required`). Other keywords are not
/// checked.
pub open spec fn schema_error(value: Json, schema: Json) -> Option<Seq<char>> {
    let type_error = match json_get(schema, "type"@) {
        Some(Json::Str(t)) => if has_type(value, t) {
            None
        } else {
            Some("value is not of type "@ + t)
        },
        _ => None,
    };
    if type_error is Some {
        type_error
    } else if value is Object {
        missing_required(value, required_of(schema))
    } else {
        None
    }
}

/// Whether `value` is of the JSON Schema type named `t` (see `has_type`).
fn json_has_type(value: &JsonValue, t: &str) -> (r: bool)
    ensures
        r == has_type(value.json(), t@),
{
    if str_eq(t, "object") {
        value.is_object()
    } else if str_eq(t, "array") {
        match value {
            JsonValue::Array(_) => true,
            _ => false,
        }
    } else if str_eq(t, "string") {
        match value {
            JsonValue::String(_) => true,
            _ => false,
        }
    } else if str_eq(t, "number") {
        match value {
            JsonValue::Number(_) => true,
            _ => false,
        }
    } else if str_eq(t, "boolean") {
        match value {
            JsonValue::Bool(_) => true,
            _ => false,
        }
    } else if str_eq(t, "null") {
        match value {
            JsonValue::Null => true,
            _ => false,
        }
    } else {
        true
    }
}

/// Validates a JSON value against a JSON Schema: `Err` with a description of
/// how the value breaks the schema (see `schema_error` for the keywords
/// checked: "type" and "required").
pub fn validate_json(value: &JsonValue, schema: &JsonValue) -> (r: Result<(), String>)
    ensures
        match schema_error(value.json(), schema.json()) {
            None => r is Ok,
            Some(m) => r matches Err(e) && e@ == m,
        },
{
    match schema.get("type") {
        Some(JsonValue::String(t)) => {
            if !json_has_type(value, t.as_str()) {
                let mut message = "value is not of type ".to_owned();
                message.append(t.as_str());
                return Err(message);
            }
        },
        _ => {},
    }
    assert(match json_get(schema.json(), "type"@) {
        Some(Json::Str(t)) => has_type(value.json(), t),
        _ => true,
    });
    if !value.is_object() {
        return Ok(());
    }
    let ghost vj = value.json();
    match schema.get("required") {
        Some(JsonValue::Array(items)) => {
            let ghost iv = items_json(*items, items.len() as nat);
            proof {
                lemma_items_json(*items, items.len() as nat);
                assert(JsonValue::Array(*items).json() == Json::Array(iv));
                assert(iv.skip(0) =~= iv);
                assert(required_of(schema.json()) == iv);
                assert(schema_error(vj, schema.json()) == missing_required(vj, iv));
            }
            let mut i: usize = 0;
            while i < items.len()
                invariant
                    i <= items.len(),
                    iv == items_json(*items, items.len() as nat),
                    iv.len() == items.len(),
                    forall|k: int| 0 <= k < items.len() ==> #[trigger] iv[k] == items[k].json(),
                    vj == value.json(),
                    schema_error(vj, schema.json()) == missing_required(vj, iv),
                    missing_required(vj, iv) == missing_required(vj, iv.skip(i as int)),
                decreases items.len() - i,
            {
                let ghost rest = iv.skip(i as int);
                assert(rest[0] == iv[i as int]);
                assert(rest.drop_first() =~= iv.skip(i + 1));
                if let JsonValue::String(k) = &items[i] {
                    if value.get(k.as_str()).is_none() {
                        let mut message = "missing required property: ".to_owned();
                        message.append(k.as_str());
                        assert(rest[0] == Json::Str(k@));
                        assert(missing_required(vj, rest) == Some("missing required property: "@ + k@));
                        assert(message@ == "missing required property: "@ + k@);
                        return Err(message);
                    }
                }
                i = i + 1;
            }
            assert(iv.skip(i as int) =~= Seq::<Json>::empty());
            Ok(())
        },
        _ => {
            assert(required_of(schema.json()) =~= Seq::<Json>::empty());
            Ok(())
        },
    }
}

/// What `chrono::DateTime::parse_from_rfc3339` gives for a text: the instant
/// in UTC as (seconds, nanoseconds), or the text of the parse error.
pub uninterp spec fn rfc3339_parse(s: Seq<char>) -> Result<(i64, u32), Seq<char>>;

/// `chrono::DateTime::parse_from_rfc3339(s)` converted to UTC, as seconds and
/// nanoseconds, or the parse error's text. The result is named by
/// `rfc3339_parse`; chrono reads exactly four year digits and an offset of at
/// most 23:59, so a parsed instant lies within a day of the years 0000..=9999,
/// and a leap second (":60") shows in the nanoseconds as 1_000_000_000 or more.
#[verifier::external_body]
pub(crate) fn parse_rfc3339(s: &str) -> (r: Result<Timestamp, String>)
    ensures
        match r {
            Ok(t) => rfc3339_parse(s@) == Ok::<(i64, u32), Seq<char>>((t.secs, t.nanos))
                && -62167219200 - 86400 <= t.secs <= 253402300799 + 86400 && t.nanos
                < 2_000_000_000,
            Err(e) => rfc3339_parse(s@) == Err::<(i64, u32), Seq<char>>(e@),
        },
{
    match chrono::DateTime::parse_from_rfc3339(s) {
        Ok(dt) => Ok(Timestamp { secs: dt.timestamp(), nanos: dt.timestamp_subsec_nanos() }),
        Err(e) => Err(e.to_string()),
    }
}

/// What `DateTime::<Utc>::to_rfc3339` gives for the instant (secs, nanos).
pub uninterp spec fn rfc3339_text(secs: i64, nanos: u32) -> Seq<char>;

/// `chrono::DateTime::<Utc>::to_rfc3339` of the instant `t`, which chrono
/// represents (`DateTime::from_timestamp` succeeds on it). The text is named by
/// `rfc3339_text`.
#[verifier::external_body]
pub(crate) fn format_rfc3339(t: Timestamp) -> (r: String)
    requires
        representable(t),
    ensures
        r@ == rfc3339_text(t.secs, t.nanos),
{
    chrono::DateTime::from_timestamp(t.secs, t.nanos).unwrap().to_rfc3339()
}

} // verus!
