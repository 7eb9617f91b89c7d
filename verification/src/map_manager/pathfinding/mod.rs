//! Routing on roadmaps.

pub mod graph;
pub mod route;
