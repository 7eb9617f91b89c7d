//! The map manager service: map storage and roadmap routing.

pub mod pathfinding;
pub mod storage;
