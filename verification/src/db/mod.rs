//! What the archive holds besides the objects themselves.

pub mod blobs;
pub mod export_failures;
