//! How the views of the local cache put their query results together.

pub mod task;
