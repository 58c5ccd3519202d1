//! The storage service: configuration, the batching of consumed data points
//! and the repositories' decisions.
pub mod config;
pub mod consumer;
pub mod repository;
