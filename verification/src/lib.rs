//! Task-management logic of a keyboard-first Todoist client, with its contracts.

pub mod ai;
pub mod backend;
pub mod datetime;
pub mod decimal;
pub mod entities;
pub mod ext;
pub mod priority;
pub mod repositories;
pub mod sync;
pub mod ui;
