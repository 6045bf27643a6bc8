//! Per-endpoint request and response types, grouped by resource.

pub mod message_streams;
pub mod server;
