//! The stream processor: operations, pipelines and the processing loop.
pub mod numeric;
pub mod operations;
pub mod pipeline;
pub mod config;
pub mod processor;
pub mod consumer;
