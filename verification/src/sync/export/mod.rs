//! Bringing the objects of an archive to a target.

pub mod common;
pub mod email;
pub mod flat;
pub mod quarantine;
pub mod run;
pub mod sieve;
pub mod uidtype;
