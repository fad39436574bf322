//! WebDAV.

pub mod client;
