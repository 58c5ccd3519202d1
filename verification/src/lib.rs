//! Aevum: the stream-processing core of a real-time analytics platform.
pub mod common;
pub mod processor;
pub mod ingestion;
pub mod api;
pub mod storage;
