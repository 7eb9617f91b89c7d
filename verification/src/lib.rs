//! Verified core of the AMR platform: mission lifecycle rules, request
//! decisions of the HTTP/WebSocket API, configuration parsing, password
//! checking and path reconstruction for roadmap routing.

pub mod api;
pub mod asset_manager;
pub mod config;
pub mod error;
pub mod grpc;
pub mod json;
pub mod map_manager;
pub mod services;
pub mod text;
