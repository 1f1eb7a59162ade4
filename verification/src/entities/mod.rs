//! Cached records of the task service, with identifiers held as 128-bit values.

pub mod label;
pub mod project;
pub mod section;
pub mod task;
