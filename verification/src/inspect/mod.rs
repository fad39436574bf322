//! Showing what an archive holds.

pub mod failures;
pub mod list;
