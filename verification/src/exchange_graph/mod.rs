//! Microsoft Graph as a source.

pub mod api;
pub mod calendar_map;
pub mod error;
pub mod oauth;
pub mod types;
