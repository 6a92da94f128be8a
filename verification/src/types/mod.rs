//! The configuration as it is stored, and as the commands consume it.

pub mod raw;
pub mod resolved;
