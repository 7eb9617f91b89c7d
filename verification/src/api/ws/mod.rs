//! The WebSocket endpoint.

pub mod handler;
