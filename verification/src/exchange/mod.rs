//! What the two Exchange sources share.

pub mod moment;
pub mod tz;
