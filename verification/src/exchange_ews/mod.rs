//! Exchange Web Services as a source.

pub mod autodiscover;
pub mod dns;
pub mod error;
pub mod oauth;
pub mod xml;
