//! IMAP as a source.

pub mod client;
pub mod error;
pub mod response;
