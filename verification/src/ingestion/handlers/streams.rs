//! Stream management requests of the ingestion service.
use vstd::prelude::*;
use crate::common::error::Error;
use crate::common::format::{uuid_string, uuid_text};
use crate::common::json::JsonValue;
use crate::common::models::{RetentionConfig, Stream, Timestamp};
use crate::common::utils::{current_timestamp, generate_id};
use crate::ingestion::validation::{stream_problem, StreamValidator};

verus! {

/// Request for creating a new stream.
#[derive(Debug)]
pub struct CreateStreamRequest {
    /// Human-readable name for the stream
    pub name: String,
    /// Optional description of the stream
    pub description: Option<String>,
    /// Schema definition for data in this stream (JSON Schema format)
    pub schema: JsonValue,
    /// Optional configuration for data retention
    pub retention: Option<RetentionRequest>,
}

/// Request for updating an existing stream.
#[derive(Debug)]
pub struct UpdateStreamRequest {
    /// Optional new name for the stream
    pub name: Option<String>,
    /// Optional new description for the stream
    pub description: Option<String>,
    /// Optional new schema for the stream
    pub schema: Option<JsonValue>,
    /// Optional new retention configuration
    pub retention: Option<RetentionRequest>,
}

/// Retention configuration in requests.
#[derive(Clone, Copy, Debug, PartialEq, Eq, Structural)]
pub struct RetentionRequest {
    /// How long to keep data in days
    pub days: u32,
    /// Maximum number of records to keep
    pub max_records: Option<u64>,
}

/// Response for stream operations.
#[derive(Debug)]
pub struct StreamResponse {
    /// The stream object
    pub stream: Stream,
}

/// Response for listing streams.
#[derive(Debug)]
pub struct ListStreamsResponse {
    /// Array of streams
    pub streams: Vec<Stream>,
}

/// The retention policy a request asks for: the one it gives, or the default
/// of 30 days without a record limit.
pub open spec fn requested_retention(r: Option<RetentionRequest>) -> RetentionConfig {
    match r {
        Some(q) => RetentionConfig { days: q.days, max_records: q.max_records },
        None => RetentionConfig { days: 30, max_records: None },
    }
}

/// Whether `s` is the stream that `request` describes, with identifier `id`
/// and the given creation and update times.
pub open spec fn stream_of_request(
    s: Stream,
    request: CreateStreamRequest,
    id: u128,
    created: Timestamp,
    updated: Timestamp,
) -> bool {
    &&& s.id == id
    &&& s.name == request.name
    &&& s.description == request.description
    &&& s.schema.json() == request.schema.json()
    &&& s.retention == requested_retention(request.retention)
    &&& s.created_at == created
    &&& s.updated_at == updated
}

/// Builds the stream that `request` describes, with identifier `id` and the
/// given times, and validates it: the validation error names the first rule
/// it breaks.
pub fn stream_from_request(
    request: CreateStreamRequest,
    id: u128,
    created: Timestamp,
    updated: Timestamp,
) -> (r: Result<Stream, Error>)
    ensures
        match stream_problem(
            request.name@,
            request.schema.json(),
            requested_retention(request.retention).days,
        ) {
            None => r matches Ok(s) && stream_of_request(s, request, id, created, updated),
            Some(m) => r matches Err(Error::Validation(e)) && e@ == m,
        },
{
    let mut stream = Stream {
        id,
        name: request.name,
        description: None,
        schema: request.schema,
        retention: RetentionConfig::default(),
        created_at: created,
        updated_at: updated,
    };
    if let Some(description) = request.description {
        stream.description = Some(description);
    }
    if let Some(retention) = request.retention {
        stream.retention = RetentionConfig { days: retention.days, max_records: retention.max_records };
    }
    match StreamValidator::validate(&stream) {
        Ok(()) => Ok(stream),
        Err(e) => Err(e),
    }
}

/// Create a new stream from `request`: a fresh identifier, the current time
/// as creation and update time, then validation. The stream returned is the
/// one to publish.
pub fn create_stream(request: CreateStreamRequest) -> (r: Result<Stream, Error>)
    ensures
        match stream_problem(
            request.name@,
            request.schema.json(),
            requested_retention(request.retention).days,
        ) {
            None => r matches Ok(s) && stream_of_request(s, request, s.id, s.created_at, s.updated_at),
            Some(m) => r matches Err(Error::Validation(e)) && e@ == m,
        },
{
    let id = generate_id();
    let created = current_timestamp();
    let updated = current_timestamp();
    stream_from_request(request, id, created, updated)
}

/// Handler for listing all streams: no stream is kept here, so the list is
/// empty.
pub fn list_streams() -> (r: ListStreamsResponse)
    ensures
        r.streams@.len() == 0,
{
    ListStreamsResponse { streams: Vec::new() }
}

/// The error for a stream that is not found: "Stream not found: " and the
/// stream's hyphenated ID.
pub open spec fn stream_not_found(id: u128, e: Error) -> bool {
    e matches Error::NotFound(m) && m@ == "Stream not found: "@ + uuid_text(id)
}

/// The not-found error for the stream `id`.
fn not_found(id: u128) -> (r: Error)
    ensures
        stream_not_found(id, r),
{
    let mut message = "Stream not found: ".to_owned();
    message.append(uuid_string(id).as_str());
    Error::NotFound(message)
}

/// Handler for getting a specific stream: no stream is kept here, so it is
/// never found.
pub fn get_stream(id: u128) -> (r: Result<StreamResponse, Error>)
    ensures
        r matches Err(e) && stream_not_found(id, e),
{
    Err(not_found(id))
}

/// Handler for updating a stream: no stream is kept here, so it is never
/// found.
pub fn update_stream(id: u128, request: UpdateStreamRequest) -> (r: Result<StreamResponse, Error>)
    ensures
        r matches Err(e) && stream_not_found(id, e),
{
    Err(not_found(id))
}

/// Handler for deleting a stream: no stream is kept here, so it is never
/// found.
pub fn delete_stream(id: u128) -> (r: Result<(), Error>)
    ensures
        r matches Err(e) && stream_not_found(id, e),
{
    Err(not_found(id))
}

} // verus!
