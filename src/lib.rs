//! Typed client model for a JSON-over-HTTP messaging API whose responses
//! are `{ "ok": bool, ... }` envelopes.
pub mod bots;
pub mod client;
pub mod emoji;
pub mod envelope;
pub mod error;
pub mod json;
pub mod reactions;
pub mod request;
