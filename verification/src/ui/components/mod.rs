//! Interface components.

pub mod agenda;
pub mod dialog_component;
pub mod dialogs;
pub mod task_list_component;
