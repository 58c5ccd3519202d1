//! Request handling of the query API service.
pub mod data;
pub mod streams;
pub mod health;
