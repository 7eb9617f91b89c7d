//! The HTTP and WebSocket API of the backend.

pub mod handlers;
pub mod middleware;
pub mod ws;
