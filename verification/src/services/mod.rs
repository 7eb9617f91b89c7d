//! Domain services of the backend.

pub mod auth_service;
pub mod mission_service;
