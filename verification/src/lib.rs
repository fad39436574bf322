//! Mail, calendar and contact migration: the rules, maps and state machines
//! that decide what is read, what is written and what is reported.

pub mod address;
pub mod dav;
pub mod db;
pub mod error;
pub mod exchange;
pub mod exchange_ews;
pub mod exchange_graph;
pub mod imap;
pub mod inspect;
pub mod jmap;
pub mod json;
pub mod laws;
pub mod sync;
pub mod text;
pub mod types;
pub mod web;
