//! Actions, dialogs and their classification.

pub mod actions;
pub mod operations;
pub mod task_manager;
pub mod view_snapshot;
