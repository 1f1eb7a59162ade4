//! Decisions of the terminal interface: actions, dialogs and task lists.

pub mod components;
pub mod app_component;
pub mod app_core;
