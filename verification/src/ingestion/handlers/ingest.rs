//! Ingestion of single data points and of batches.
use vstd::prelude::*;
use crate::common::error::Error;
use crate::common::json::{Json, JsonValue};
use crate::common::models::{DataPoint, Timestamp};
use crate::common::utils::{current_timestamp, generate_id, parse_rfc3339, rfc3339_parse, MAX_SECS};

verus! {

/// Request for single data point ingestion.
#[derive(Debug)]
pub struct IngestRequest {
    /// The data payload to ingest
    pub data: JsonValue,
    /// Optional timestamp for the data point
    pub timestamp: Option<String>,
}

/// Request for batch data ingestion.
#[derive(Debug)]
pub struct BatchIngestRequest {
    /// Array of data payloads to ingest
    pub data: Vec<JsonValue>,
    /// Optional timestamp for all data points
    pub timestamp: Option<String>,
}

/// Response for both single and batch ingestion.
#[derive(Debug)]
pub struct IngestResponse {
    /// Number of data points successfully ingested
    pub ingested: usize,
    /// IDs of the ingested data points
    pub ids: Vec<u128>,
}

/// What a parsed RFC 3339 text gives: the instant, or the validation error
/// "Invalid timestamp format: " followed by the parser's message.
pub open spec fn timestamp_outcome(parsed: Result<(i64, u32), Seq<char>>) -> Result<(i64, u32), Seq<char>> {
    match parsed {
        Ok(t) => Ok(t),
        Err(e) => Err("Invalid timestamp format: "@ + e),
    }
}

/// Turns the result of parsing an RFC 3339 timestamp into the timestamp of a
/// data point, or the validation error that refuses it.
pub fn timestamp_from_parse(parsed: Result<Timestamp, String>) -> (r: Result<Timestamp, Error>)
    ensures
        match parsed {
            Ok(t) => r == Ok::<Timestamp, Error>(t),
            Err(e) => r matches Err(Error::Validation(m)) && m@ == "Invalid timestamp format: "@ + e@,
        },
{
    match parsed {
        Ok(t) => Ok(t),
        Err(e) => {
            let mut message = "Invalid timestamp format: ".to_owned();
            message.append(e.as_str());
            Err(Error::Validation(message))
        },
    }
}

/// The timestamp of an ingested data point: the given RFC 3339 text, in UTC,
/// or the current time when none is given.
pub fn parse_timestamp(timestamp_str: Option<String>) -> (r: Result<Timestamp, Error>)
    ensures
        match timestamp_str {
            Some(ts) => match timestamp_outcome(rfc3339_parse(ts@)) {
                Ok(t) => r matches Ok(v) && (v.secs, v.nanos) == t,
                Err(m) => r matches Err(Error::Validation(s)) && s@ == m,
            },
            None => r matches Ok(v) && 0 <= v.secs <= MAX_SECS && v.nanos < 1_000_000_000,
        },
{
    match timestamp_str {
        Some(ts) => timestamp_from_parse(parse_rfc3339(ts.as_str())),
        None => Ok(current_timestamp()),
    }
}

/// What ingesting one payload yields: a data point of `stream_id` holding
/// the payload, and a response that reports it alone.
pub open spec fn ingested_one(stream_id: u128, payload: Json, dp: DataPoint, resp: IngestResponse) -> bool {
    &&& dp.stream_id == stream_id
    &&& dp.payload.json() == payload
    &&& resp.ingested == 1
    &&& resp.ids@ == seq![dp.id]
}

/// Ingest a single data point into `stream_id`: the data point to publish and
/// the response to send. It fails only on a timestamp that does not parse.
pub fn ingest_data(stream_id: u128, request: IngestRequest) -> (r: Result<(DataPoint, IngestResponse), Error>)
    ensures
        match r {
            Ok((dp, resp)) => ingested_one(stream_id, request.data.json(), dp, resp) && match request.timestamp {
                Some(ts) => rfc3339_parse(ts@) == Ok::<(i64, u32), Seq<char>>((dp.timestamp.secs, dp.timestamp.nanos)),
                None => 0 <= dp.timestamp.secs <= MAX_SECS && dp.timestamp.nanos < 1_000_000_000,
            },
            Err(e) => request.timestamp matches Some(ts) && timestamp_outcome(rfc3339_parse(ts@)) matches Err(m)
                && e matches Error::Validation(s) && s@ == m,
        },
{
    let id = generate_id();
    let timestamp = match parse_timestamp(request.timestamp) {
        Ok(t) => t,
        Err(e) => return Err(e),
    };
    let data_point = DataPoint { stream_id, id, timestamp, payload: request.data };
    let mut ids: Vec<u128> = Vec::new();
    ids.push(id);
    assert(ids@ =~= seq![id]);
    Ok((data_point, IngestResponse { ingested: 1, ids }))
}

/// What ingesting a batch of payloads at `timestamp` yields: one data point of
/// `stream_id` per payload, in order, all at `timestamp`, and a response that
/// counts them and lists their IDs.
pub open spec fn ingested_batch(
    stream_id: u128,
    payloads: Seq<Json>,
    timestamp: Timestamp,
    points: Seq<DataPoint>,
    resp: IngestResponse,
) -> bool {
    &&& points.len() == payloads.len()
    &&& resp.ingested == payloads.len()
    &&& resp.ids@.len() == payloads.len()
    &&& forall|i: int|
        0 <= i < payloads.len() ==> {
            &&& #[trigger] points[i].stream_id == stream_id
            &&& points[i].id == resp.ids@[i]
            &&& points[i].timestamp == timestamp
            &&& points[i].payload.json() == payloads[i]
        }
}

/// The views of the payloads.
pub open spec fn payloads_view(data: Seq<JsonValue>) -> Seq<Json> {
    data.map_values(|v: JsonValue| v.json())
}

/// Whether `t` can be the timestamp of data ingested with the optional text
/// `ts`: the instant the text gives, or a reading of the clock.
pub open spec fn ingest_time(ts: Option<String>, t: Timestamp) -> bool {
    match ts {
        Some(s) => rfc3339_parse(s@) == Ok::<(i64, u32), Seq<char>>((t.secs, t.nanos)),
        None => 0 <= t.secs <= MAX_SECS && t.nanos < 1_000_000_000,
    }
}

/// A batch ingested at a timestamp that `ts` allows.
pub open spec fn batch_ingested(
    stream_id: u128,
    payloads: Seq<Json>,
    ts: Option<String>,
    points: Seq<DataPoint>,
    resp: IngestResponse,
) -> bool {
    exists|t: Timestamp| #[trigger] ingested_batch(stream_id, payloads, t, points, resp) && ingest_time(ts, t)
}

/// Ingest a batch of payloads into `stream_id`: the data points to publish
/// and the response to send. An empty batch is refused with "Batch cannot be
/// empty"; otherwise it fails only on a timestamp that does not parse.
pub fn ingest_batch(stream_id: u128, request: BatchIngestRequest) -> (r: Result<(Vec<DataPoint>, IngestResponse), Error>)
    ensures
        request.data.len() == 0 ==> (r matches Err(Error::Validation(s)) && s@ == "Batch cannot be empty"@),
        request.data.len() > 0 ==> match r {
            Ok((points, resp)) => batch_ingested(
                stream_id,
                payloads_view(request.data@),
                request.timestamp,
                points@,
                resp,
            ),
            Err(e) => request.timestamp matches Some(ts) && timestamp_outcome(rfc3339_parse(ts@)) matches Err(m)
                && e matches Error::Validation(s) && s@ == m,
        },
{
    let count = request.data.len();
    if count == 0 {
        return Err(Error::Validation("Batch cannot be empty".to_owned()));
    }
    let ghost ts = request.timestamp;
    let default_timestamp = match parse_timestamp(request.timestamp) {
        Ok(t) => t,
        Err(e) => return Err(e),
    };
    let ghost payloads = payloads_view(request.data@);
    let mut data = request.data;
    let mut data_points: Vec<DataPoint> = Vec::new();
    let mut ids: Vec<u128> = Vec::new();
    let mut taken: usize = 0;
    while data.len() > 0
        invariant
            taken + data.len() == count,
            count == payloads.len(),
            payloads_view(data@) =~= payloads.skip(taken as int),
            data_points.len() == taken,
            ids.len() == taken,
            forall|i: int|
                0 <= i < taken ==> {
                    &&& #[trigger] data_points@[i].stream_id == stream_id
                    &&& data_points@[i].id == ids@[i]
                    &&& data_points@[i].timestamp == default_timestamp
                    &&& data_points@[i].payload.json() == payloads[i]
                },
        decreases data.len(),
    {
        let ghost before = data@;
        let payload = data.remove(0);
        assert(payloads.skip(taken as int)[0] == payloads[taken as int]);
        assert(payloads_view(before)[0] == payload.json());
        assert(payloads_view(data@) =~= payloads_view(before).drop_first());
        assert(payloads.skip(taken as int).drop_first() =~= payloads.skip(taken + 1));
        let id = generate_id();
        ids.push(id);
        data_points.push(DataPoint { stream_id, id, timestamp: default_timestamp, payload });
        taken = taken + 1;
    }
    let resp = IngestResponse { ingested: count, ids };
    assert(ingested_batch(stream_id, payloads, default_timestamp, data_points@, resp));
    assert(ingest_time(ts, default_timestamp));
    Ok((data_points, resp))
}

} // verus!
