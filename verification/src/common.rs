//! Shared data model, JSON model, text utilities and errors.
pub mod json;
pub mod text;
pub mod error;
pub mod models;
pub mod utils;
pub mod format;
