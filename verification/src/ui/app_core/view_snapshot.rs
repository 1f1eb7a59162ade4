//! A consistent set of cached data loaded for one navigation request.

use vstd::prelude::*;
use crate::entities::{label, project, section, task};
use crate::ui::app_core::actions::{NavigationCounts, SidebarSelection};

verus! {

/// Data loaded for one view; `generation` tells which request it answers.
#[derive(Debug, Clone)]
pub struct ViewSnapshot {
    pub generation: u64,
    pub selection: SidebarSelection,
    pub is_initial: bool,
    pub projects: Vec<project::Model>,
    pub labels: Vec<label::Model>,
    pub sections: Vec<section::Model>,
    pub tasks: Vec<task::Model>,
    pub all_tasks: Vec<task::Model>,
    pub navigation_counts: NavigationCounts,
}

} // verus!
