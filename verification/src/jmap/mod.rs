//! JMAP: errors, accounts and blobs.

pub mod account;
pub mod blobxfer;
pub mod error;
