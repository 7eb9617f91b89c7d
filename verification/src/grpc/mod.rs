//! The link to the simulation engine.

pub mod sim_client;
pub mod telemetry;
