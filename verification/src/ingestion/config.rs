//! Configuration of the ingestion service and its defaults.
use vstd::prelude::*;
use crate::common::format::{dec_digits, decimal_text};

verus! {

/// Configuration for the Ingestion Service.
#[derive(Debug)]
pub struct Config {
    /// HTTP server configuration
    pub server: ServerConfig,
    /// Kafka configuration
    pub kafka: KafkaConfig,
    /// Redis configuration for rate limiting and caching
    pub redis: Option<RedisConfig>,
}

/// HTTP server configuration.
#[derive(Debug)]
pub struct ServerConfig {
    /// Host to bind to
    pub host: String,
    /// Port to listen on
    pub port: u16,
}

/// Kafka configuration.
#[derive(Debug)]
pub struct KafkaConfig {
    /// Comma-separated list of broker addresses
    pub brokers: String,
    /// Client ID for Kafka connection
    pub client_id: String,
    /// Kafka topics
    pub topics: KafkaTopics,
}

/// Kafka topics configuration.
#[derive(Debug)]
pub struct KafkaTopics {
    /// Topic for raw data ingestion
    pub raw_data: String,
    /// Topic for stream metadata
    pub stream_metadata: String,
}

/// Redis configuration.
#[derive(Debug)]
pub struct RedisConfig {
    /// Redis URL
    pub url: String,
    /// Connection pool size
    pub pool_size: u32,
}

/// The host the server binds to unless configured otherwise.
pub fn default_host() -> (r: String)
    ensures
        r@ == "0.0.0.0"@,
{
    "0.0.0.0".to_owned()
}

/// The port the server listens on unless configured otherwise.
pub fn default_port() -> (r: u16)
    ensures
        r == 8080,
{
    8080
}

/// The Kafka client ID unless configured otherwise.
pub fn default_client_id() -> (r: String)
    ensures
        r@ == "aevum-ingestion"@,
{
    "aevum-ingestion".to_owned()
}

/// The Redis connection pool size unless configured otherwise.
pub fn default_pool_size() -> (r: u32)
    ensures
        r == 10,
{
    10
}

impl Default for ServerConfig {
    /// The default server configuration: host 0.0.0.0, port 8080.
    fn default() -> (r: ServerConfig)
        ensures
            r.host@ == "0.0.0.0"@,
            r.port == 8080,
    {
        ServerConfig { host: default_host(), port: default_port() }
    }
}

impl Config {
    /// A configuration with the default server settings.
    pub fn new(kafka: KafkaConfig, redis: Option<RedisConfig>) -> (r: Config)
        ensures
            r.server.host@ == "0.0.0.0"@,
            r.server.port == 8080,
            r.kafka == kafka,
            r.redis == redis,
    {
        Config { server: ServerConfig::default(), kafka, redis }
    }
}

impl KafkaConfig {
    /// A Kafka configuration with the default client ID.
    pub fn new(brokers: String, topics: KafkaTopics) -> (r: KafkaConfig)
        ensures
            r.brokers == brokers,
            r.client_id@ == "aevum-ingestion"@,
            r.topics == topics,
    {
        KafkaConfig { brokers, client_id: default_client_id(), topics }
    }
}

impl RedisConfig {
    /// A Redis configuration with the default pool size.
    pub fn new(url: String) -> (r: RedisConfig)
        ensures
            r.url == url,
            r.pool_size == 10,
    {
        RedisConfig { url, pool_size: default_pool_size() }
    }
}

impl ServerConfig {
    /// The address the server binds to: host, a colon, and the port.
    pub fn address(&self) -> (r: String)
        ensures
            r@ == self.host@ + ":"@ + dec_digits(self.port as nat),
    {
        let mut a = self.host.clone();
        a.append(":");
        a.append(decimal_text(self.port as u64).as_str());
        a
    }
}

} // verus!
