//! Importing from Microsoft Graph.

pub mod folders;
