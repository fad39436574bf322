//! What holds of several functions together: promises of the library as a whole.

pub mod calendar;
pub mod client_calls;
pub mod collections;
pub mod discovery;
pub mod events;
pub mod export_calls;
pub mod folders;
pub mod import_calls;
pub mod inspection;
pub mod lookups;
pub mod messages;
pub mod records;
pub mod runs;
pub mod script_export;
pub mod script_import;
pub mod sessions;
pub mod sign_in;
pub mod texts;
pub mod transfers;
pub mod values;
pub mod zones;
