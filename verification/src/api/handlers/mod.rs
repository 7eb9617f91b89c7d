//! Request handlers of the HTTP API: what each endpoint decides.

pub mod assets;
pub mod auth;
pub mod maps;
pub mod missions;
pub mod robots;
pub mod sim;
pub mod tiles;
