//! Dialog helpers.

pub mod common;
pub mod task_dialogs;
