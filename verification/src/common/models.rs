//! The data model: streams, data points, pipelines and their operations.
use vstd::prelude::*;
use crate::common::json::{Json, JsonValue};

verus! {

/// An instant: whole seconds since the Unix epoch and the nanoseconds past them.
#[derive(Clone, Copy, Debug, PartialEq, Eq, Structural)]
pub struct Timestamp {
    pub secs: i64,
    pub nanos: u32,
}

/// `a` is later than `b`.
pub open spec fn is_after(a: Timestamp, b: Timestamp) -> bool {
    a.secs > b.secs || (a.secs == b.secs && a.nanos > b.nanos)
}

/// Whether `a` is later than `b` (the order of `DateTime`).
pub fn later_than(a: Timestamp, b: Timestamp) -> (r: bool)
    ensures
        r == is_after(a, b),
{
    a.secs > b.secs || (a.secs == b.secs && a.nanos > b.nanos)
}

/// Configuration for data retention policies.
#[derive(Clone, Copy, Debug, PartialEq, Eq, Structural)]
pub struct RetentionConfig {
    /// How long to keep data in days
    pub days: u32,
    /// Maximum number of records to keep
    pub max_records: Option<u64>,
}

/// The number of days data is kept unless configured otherwise.
pub fn default_retention_days() -> (r: u32)
    ensures
        r == 30,
{
    30
}

impl Default for RetentionConfig {
    /// The default policy: 30 days, no record limit.
    fn default() -> (r: RetentionConfig)
        ensures
            r.days == 30,
            r.max_records is None,
    {
        RetentionConfig { days: default_retention_days(), max_records: None }
    }
}

/// Represents a data stream configuration.
#[derive(Debug)]
pub struct Stream {
    /// Unique identifier for the stream
    pub id: u128,
    /// Human-readable name for the stream
    pub name: String,
    /// Optional description of the stream
    pub description: Option<String>,
    /// Schema definition for data in this stream (JSON Schema format)
    pub schema: JsonValue,
    /// Configuration for data retention
    pub retention: RetentionConfig,
    /// When the stream was created
    pub created_at: Timestamp,
    /// When the stream was last updated
    pub updated_at: Timestamp,
}

/// Represents a data point in a stream.
#[derive(Debug)]
pub struct DataPoint {
    /// The stream this data belongs to
    pub stream_id: u128,
    /// Unique identifier for this data point
    pub id: u128,
    /// Timestamp when this data was generated
    pub timestamp: Timestamp,
    /// The actual data payload
    pub payload: JsonValue,
}

/// The mathematical view of a data point.
#[verifier::ext_equal]
pub struct PointView {
    pub stream_id: u128,
    pub id: u128,
    pub timestamp: Timestamp,
    pub payload: Json,
}

impl DataPoint {
    /// The view of this data point.
    pub open spec fn view(&self) -> PointView {
        PointView {
            stream_id: self.stream_id,
            id: self.id,
            timestamp: self.timestamp,
            payload: self.payload.json(),
        }
    }

    /// A copy of this data point.
    pub fn duplicate(&self) -> (r: DataPoint)
        ensures
            r.view() == self.view(),
    {
        DataPoint {
            stream_id: self.stream_id,
            id: self.id,
            timestamp: self.timestamp,
            payload: self.payload.deep_clone(),
        }
    }
}

/// The views of a sequence of data points.
pub open spec fn points_view(points: Seq<DataPoint>) -> Seq<PointView> {
    points.map_values(|p: DataPoint| p.view())
}

/// Supported aggregation functions.
#[derive(Clone, Copy, Debug, PartialEq, Eq, Structural)]
pub enum AggregationFunction {
    Sum,
    Average,
    Min,
    Max,
    Count,
}

/// Represents a single processing operation in a pipeline.
#[derive(Debug)]
pub enum Operation {
    /// Filter data points based on a condition
    Filter { condition: String },
    /// Transform data points using a JSON transformation
    Transform { transformation: String },
    /// Aggregate data points over a window
    Aggregate { window_seconds: u32, function: AggregationFunction, field: String },
    /// Detect anomalies in the data stream
    AnomalyDetection { algorithm: String, parameters: JsonValue },
}

/// The mathematical view of an operation.
pub enum OperationView {
    Filter { condition: Seq<char> },
    Transform { transformation: Seq<char> },
    Aggregate { window_seconds: u32, function: AggregationFunction, field: Seq<char> },
    AnomalyDetection { algorithm: Seq<char>, parameters: Json },
}

impl Operation {
    /// The view of this operation.
    pub open spec fn view(&self) -> OperationView {
        match self {
            Operation::Filter { condition } => OperationView::Filter { condition: condition@ },
            Operation::Transform { transformation } => OperationView::Transform {
                transformation: transformation@,
            },
            Operation::Aggregate { window_seconds, function, field } => OperationView::Aggregate {
                window_seconds: *window_seconds,
                function: *function,
                field: field@,
            },
            Operation::AnomalyDetection { algorithm, parameters } => OperationView::AnomalyDetection {
                algorithm: algorithm@,
                parameters: parameters.json(),
            },
        }
    }

    /// A copy of this operation.
    pub fn duplicate(&self) -> (r: Operation)
        ensures
            r.view() == self.view(),
    {
        match self {
            Operation::Filter { condition } => Operation::Filter { condition: condition.clone() },
            Operation::Transform { transformation } => Operation::Transform {
                transformation: transformation.clone(),
            },
            Operation::Aggregate { window_seconds, function, field } => Operation::Aggregate {
                window_seconds: *window_seconds,
                function: *function,
                field: field.clone(),
            },
            Operation::AnomalyDetection { algorithm, parameters } => Operation::AnomalyDetection {
                algorithm: algorithm.clone(),
                parameters: parameters.deep_clone(),
            },
        }
    }
}

/// Represents a processing pipeline configuration.
#[derive(Debug)]
pub struct Pipeline {
    /// Unique identifier for the pipeline
    pub id: u128,
    /// Human-readable name for the pipeline
    pub name: String,
    /// Optional description of the pipeline
    pub description: Option<String>,
    /// Source stream for this pipeline
    pub source_stream_id: u128,
    /// Optional destination stream for processed data
    pub destination_stream_id: Option<u128>,
    /// Processing operations to apply
    pub operations: Vec<Operation>,
    /// When the pipeline was created
    pub created_at: Timestamp,
    /// When the pipeline was last updated
    pub updated_at: Timestamp,
}

/// The views of a sequence of operations.
pub open spec fn operations_view(ops: Seq<Operation>) -> Seq<OperationView> {
    ops.map_values(|o: Operation| o.view())
}

} // verus!
