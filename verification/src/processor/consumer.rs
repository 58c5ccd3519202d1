//! Which consumed messages the stream processor takes in.
use vstd::prelude::*;
use crate::common::text::str_eq;
use crate::processor::config::KafkaConfig;

verus! {

/// The topics the processor's Kafka consumer subscribes to.
#[derive(Debug)]
pub struct KafkaConsumer {
    /// Topic for raw data consumption
    pub raw_data_topic: String,
    /// Topic for stream metadata
    pub stream_metadata_topic: String,
    /// Topic for pipeline configurations
    pub pipelines_topic: String,
}

impl KafkaConsumer {
    /// The consumer for the topics of `config`.
    pub fn new(config: &KafkaConfig) -> (r: KafkaConsumer)
        ensures
            r.raw_data_topic@ == config.topics.raw_data@,
            r.stream_metadata_topic@ == config.topics.stream_metadata@,
            r.pipelines_topic@ == config.topics.pipelines@,
    {
        KafkaConsumer {
            raw_data_topic: config.topics.raw_data.clone(),
            stream_metadata_topic: config.topics.stream_metadata.clone(),
            pipelines_topic: config.topics.pipelines.clone(),
        }
    }

    /// The topics to subscribe to: raw data, stream metadata and pipelines,
    /// in that order.
    pub fn topics(&self) -> (r: Vec<String>)
        ensures
            r@.len() == 3,
            r@[0]@ == self.raw_data_topic@,
            r@[1]@ == self.stream_metadata_topic@,
            r@[2]@ == self.pipelines_topic@,
    {
        let mut topics: Vec<String> = Vec::new();
        topics.push(self.raw_data_topic.clone());
        topics.push(self.stream_metadata_topic.clone());
        topics.push(self.pipelines_topic.clone());
        topics
    }

    /// Whether a message is a data point to process: it comes from the raw
    /// data topic and carries a payload.
    pub fn takes_message(&self, topic: &str, has_payload: bool) -> (r: bool)
        ensures
            r == (topic@ == self.raw_data_topic@ && has_payload),
    {
        str_eq(topic, self.raw_data_topic.as_str()) && has_payload
    }
}

} // verus!
