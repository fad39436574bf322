//! Moving objects between sources, the archive and a target.

pub mod export;
pub mod import_exchange_graph;
pub mod import_managesieve;
pub mod order;
pub mod prune;
