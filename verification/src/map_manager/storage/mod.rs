//! Map data storage.

pub mod cache;
pub mod s3_tiles;
