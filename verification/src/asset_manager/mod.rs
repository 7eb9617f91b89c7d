//! The asset manager service: catalogue of robot models and their files.

pub mod config;
pub mod error;
pub mod storage;
