//! Ingest layer for live ice-hockey feeds: a staleness-gated cache protocol
//! shared by three feed kinds, and a normalization layer that turns the
//! provider's loosely structured payloads (free-text penalty descriptions,
//! embedded jersey/name strings, colon-delimited time values) into typed,
//! mergeable domain records with stable identity.
//!
//! Persistence, HTTP and clocks are collaborators outside this crate: every
//! entry point takes plain values (the current time in seconds, the already
//! fetched payload) and states exactly what it returns and stores.

pub mod event_model;
pub mod event_service;
pub mod player_service;
pub mod search;
pub mod stats_service;
pub mod status;
pub mod store;
pub mod text;
