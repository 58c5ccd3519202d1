//! The query API service: configuration, request handling and the SQL it
//! sends.
pub mod config;
pub mod handlers;
pub mod repository;
