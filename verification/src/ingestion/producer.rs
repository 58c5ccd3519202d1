//! Where the ingestion service publishes what it receives.
use vstd::prelude::*;
use crate::common::format::{uuid_string, uuid_text};
use crate::common::models::DataPoint;
use crate::ingestion::config::KafkaConfig;

verus! {

/// A message to publish: its topic and its key (the payload is the JSON of
/// the item it stands for).
#[derive(Debug)]
pub struct Record {
    /// The topic to publish to
    pub topic: String,
    /// The message key
    pub key: String,
}

/// The topics the ingestion service publishes to.
#[derive(Debug)]
pub struct KafkaProducer {
    /// Topic for raw data ingestion
    pub raw_data: String,
    /// Topic for stream metadata
    pub stream_metadata: String,
}

impl KafkaProducer {
    /// The producer for the topics of `config`.
    pub fn new(config: &KafkaConfig) -> (r: KafkaProducer)
        ensures
            r.raw_data@ == config.topics.raw_data@,
            r.stream_metadata@ == config.topics.stream_metadata@,
    {
        KafkaProducer {
            raw_data: config.topics.raw_data.clone(),
            stream_metadata: config.topics.stream_metadata.clone(),
        }
    }

    /// Where a data point goes: the raw data topic, keyed by the point's ID.
    pub fn data_point_record(&self, data_point: &DataPoint) -> (r: Record)
        ensures
            r.topic@ == self.raw_data@,
            r.key@ == uuid_text(data_point.id),
    {
        Record { topic: self.raw_data.clone(), key: uuid_string(data_point.id) }
    }

    /// Where a stream's metadata goes: the stream metadata topic, keyed by the
    /// stream's ID.
    pub fn stream_metadata_record(&self, stream_id: u128) -> (r: Record)
        ensures
            r.topic@ == self.stream_metadata@,
            r.key@ == uuid_text(stream_id),
    {
        Record { topic: self.stream_metadata.clone(), key: uuid_string(stream_id) }
    }
}

} // verus!
