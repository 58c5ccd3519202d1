//! Configuration of the storage service and its defaults.
use vstd::prelude::*;

verus! {

/// Configuration for the Storage Service.
#[derive(Debug)]
pub struct Config {
    /// Database configuration
    pub database: DatabaseConfig,
    /// Kafka configuration
    pub kafka: KafkaConfig,
}

/// Database configuration.
#[derive(Debug)]
pub struct DatabaseConfig {
    /// Database URL
    pub url: String,
    /// Maximum connections in the pool
    pub max_connections: u32,
    /// Minimum connections in the pool
    pub min_connections: u32,
    /// Connection timeout in seconds
    pub connect_timeout_seconds: u64,
    /// Migration configuration
    pub migrations: MigrationConfig,
}

/// Database migration configuration.
#[derive(Debug)]
pub struct MigrationConfig {
    /// Whether to run migrations on startup
    pub run_migrations: bool,
    /// Path to migration files
    pub migration_path: String,
}

/// Kafka configuration.
#[derive(Debug)]
pub struct KafkaConfig {
    /// Comma-separated list of broker addresses
    pub brokers: String,
    /// Client ID for Kafka connection
    pub client_id: String,
    /// Consumer group ID
    pub group_id: String,
    /// Kafka topics configuration
    pub topics: KafkaTopics,
}

/// Kafka topics configuration.
#[derive(Debug)]
pub struct KafkaTopics {
    /// Topic for raw data consumption
    pub raw_data: String,
    /// Topic for processed data consumption
    pub processed_data: String,
    /// Topic for stream metadata
    pub stream_metadata: String,
}

/// The largest database pool unless configured otherwise.
pub fn default_max_connections() -> (r: u32)
    ensures
        r == 10,
{
    10
}

/// The smallest database pool unless configured otherwise.
pub fn default_min_connections() -> (r: u32)
    ensures
        r == 2,
{
    2
}

/// The database connection timeout in seconds unless configured otherwise.
pub fn default_connect_timeout() -> (r: u64)
    ensures
        r == 10,
{
    10
}

/// The default migration configuration: run the migrations found in
/// ./migrations.
pub fn default_migration_config() -> (r: MigrationConfig)
    ensures
        r.run_migrations,
        r.migration_path@ == "./migrations"@,
{
    MigrationConfig { run_migrations: default_run_migrations(), migration_path: default_migration_path() }
}

/// Whether migrations run on startup unless configured otherwise.
pub fn default_run_migrations() -> (r: bool)
    ensures
        r,
{
    true
}

/// Where the migrations are unless configured otherwise.
pub fn default_migration_path() -> (r: String)
    ensures
        r@ == "./migrations"@,
{
    "./migrations".to_owned()
}

/// The Kafka client ID unless configured otherwise.
pub fn default_client_id() -> (r: String)
    ensures
        r@ == "aevum-storage"@,
{
    "aevum-storage".to_owned()
}

/// The Kafka consumer group unless configured otherwise.
pub fn default_group_id() -> (r: String)
    ensures
        r@ == "aevum-storage-group"@,
{
    "aevum-storage-group".to_owned()
}

impl DatabaseConfig {
    /// A database configuration with the default pool, timeout and migrations.
    pub fn new(url: String) -> (r: DatabaseConfig)
        ensures
            r.url == url,
            r.max_connections == 10,
            r.min_connections == 2,
            r.connect_timeout_seconds == 10,
            r.migrations.run_migrations,
            r.migrations.migration_path@ == "./migrations"@,
    {
        DatabaseConfig {
            url,
            max_connections: default_max_connections(),
            min_connections: default_min_connections(),
            connect_timeout_seconds: default_connect_timeout(),
            migrations: default_migration_config(),
        }
    }
}

impl KafkaConfig {
    /// A Kafka configuration with the default client and group IDs.
    pub fn new(brokers: String, topics: KafkaTopics) -> (r: KafkaConfig)
        ensures
            r.brokers == brokers,
            r.client_id@ == "aevum-storage"@,
            r.group_id@ == "aevum-storage-group"@,
            r.topics == topics,
    {
        KafkaConfig { brokers, client_id: default_client_id(), group_id: default_group_id(), topics }
    }
}

} // verus!
