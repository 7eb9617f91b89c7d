//! Asset metadata storage.

pub mod metadata;
pub mod s3;
