//! Importing Sieve scripts from a ManageSieve server.

pub mod coordinator;
