//! Configuration of the processor service and its defaults.
use vstd::prelude::*;

verus! {

/// Configuration for the Processor Service.
#[derive(Debug)]
pub struct Config {
    /// Kafka configuration for consuming messages
    pub kafka: KafkaConfig,
    /// Processing configuration
    pub processing: ProcessingConfig,
    /// Optional Redis configuration for state management
    pub redis: Option<RedisConfig>,
}

/// Kafka configuration.
#[derive(Debug)]
pub struct KafkaConfig {
    /// Comma-separated list of broker addresses
    pub brokers: String,
    /// Client ID for Kafka connection
    pub client_id: String,
    /// Consumer group ID
    pub group_id: String,
    /// Kafka topics configuration
    pub topics: KafkaTopics,
}

/// Kafka topics configuration.
#[derive(Debug)]
pub struct KafkaTopics {
    /// Topic for raw data consumption
    pub raw_data: String,
    /// Topic for processed data output
    pub processed_data: String,
    /// Topic for stream metadata
    pub stream_metadata: String,
    /// Topic for pipeline configurations
    pub pipelines: String,
}

/// Redis configuration.
#[derive(Debug)]
pub struct RedisConfig {
    /// Redis URL
    pub url: String,
    /// Connection pool size
    pub pool_size: u32,
}

/// Processing configuration.
#[derive(Clone, Copy, Debug)]
pub struct ProcessingConfig {
    /// Number of worker threads for processing
    pub workers: usize,
    /// Size of the batch for processing
    pub batch_size: usize,
    /// Processing interval in milliseconds
    pub interval_ms: u64,
}

/// The default processing configuration: one worker per CPU, batches of 100,
/// a tick every 100 ms.
pub fn default_processing_config() -> (r: ProcessingConfig)
    ensures
        r.workers >= 1,
        r.batch_size == 100,
        r.interval_ms == 100,
{
    ProcessingConfig {
        workers: default_workers(),
        batch_size: default_batch_size(),
        interval_ms: default_interval_ms(),
    }
}

/// The Kafka client ID unless configured otherwise.
pub fn default_client_id() -> (r: String)
    ensures
        r@ == "aevum-processor"@,
{
    "aevum-processor".to_owned()
}

/// The Kafka consumer group unless configured otherwise.
pub fn default_group_id() -> (r: String)
    ensures
        r@ == "aevum-processor-group"@,
{
    "aevum-processor-group".to_owned()
}

/// The Redis connection pool size unless configured otherwise.
pub fn default_pool_size() -> (r: u32)
    ensures
        r == 10,
{
    10
}

/// The number of workers unless configured otherwise: the number of CPUs the
/// process may use, at least one.
pub fn default_workers() -> (r: usize)
    ensures
        r >= 1,
{
    cpu_count()
}

/// `num_cpus::get()`: the number of logical CPUs available to the process,
/// which its documentation promises is at least 1. Which number it is depends
/// on the machine, its cgroup limits and the thread's affinity, so nothing
/// more is stated of it.
#[verifier::external_body]
fn cpu_count() -> (r: usize)
    ensures
        r >= 1,
{
    num_cpus::get()
}

/// The batch size unless configured otherwise.
pub fn default_batch_size() -> (r: usize)
    ensures
        r == 100,
{
    100
}

/// The processing interval in milliseconds unless configured otherwise.
pub fn default_interval_ms() -> (r: u64)
    ensures
        r == 100,
{
    100
}

impl Config {
    /// A configuration with the default processing settings and no Redis.
    pub fn new(kafka: KafkaConfig) -> (r: Config)
        ensures
            r.kafka == kafka,
            r.processing.batch_size == 100,
            r.processing.interval_ms == 100,
            r.redis is None,
    {
        Config { kafka, processing: default_processing_config(), redis: None }
    }
}

impl KafkaConfig {
    /// A Kafka configuration with the default client and group IDs.
    pub fn new(brokers: String, topics: KafkaTopics) -> (r: KafkaConfig)
        ensures
            r.brokers == brokers,
            r.client_id@ == "aevum-processor"@,
            r.group_id@ == "aevum-processor-group"@,
            r.topics == topics,
    {
        KafkaConfig { brokers, client_id: default_client_id(), group_id: default_group_id(), topics }
    }
}

impl RedisConfig {
    /// A Redis configuration with the default pool size.
    pub fn new(url: String) -> (r: RedisConfig)
        ensures
            r.url == url,
            r.pool_size == 10,
    {
        RedisConfig { url, pool_size: default_pool_size() }
    }
}

} // verus!
