//! Entity access layer for a personal learning tracker.
//!
//! The library models the document store as an in-memory collection per
//! entity and verifies the service logic that the HTTP layer drives:
//! identifier validation, blind-replace and merge updates, password
//! handling, and multi-field case-insensitive search.

pub mod auth_service;
pub mod course_search_service;
pub mod course_service;
pub mod doc;
pub mod errors;
pub mod kv;
pub mod manager;
pub mod models;
pub mod oid;
pub mod password;
pub mod text;
pub mod user_search_service;
pub mod user_service;
pub mod watched_service;

pub use errors::ApiServiceError;
pub use manager::{AppState, ServiceManager};
