//! The ingestion service: configuration, validation and request handling.
pub mod config;
pub mod validation;
pub mod producer;
pub mod handlers;
