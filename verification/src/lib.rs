//! A verified resource-access layer for a JSON CRUD service over "challenge"
//! records (title + description).
//!
//! The crate has three layers:
//! - [`challenge`] holds the record types, the error taxonomy, the storage
//!   model ([`challenge::Store`]) and the five persistence operations with
//!   their transactional contracts.
//! - [`handlers`] maps parsed requests to persistence operations and renders
//!   each outcome as an HTTP status code plus a JSON-shaped envelope.
//! - [`digits`] provides verified decimal formatting and parsing for ids.
//!
//! [`laws`] states and proves the library-wide properties that relate the
//! operations to one another.

pub mod challenge;
pub mod digits;
pub mod handlers;
pub mod laws;
