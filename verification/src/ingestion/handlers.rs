//! Request handling of the ingestion service.
pub mod ingest;
pub mod streams;
pub mod health;
