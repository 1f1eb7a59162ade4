//! Synchronisation with the task service: its status, and how requests and replies
//! become backend arguments and cached records.

use vstd::prelude::*;

pub mod batch;
pub mod cache;
pub mod storage;
pub mod tasks;

verus! {

/// The state of a synchronisation with the task service.
#[derive(Debug, Clone, PartialEq)]
pub enum SyncStatus {
    Idle,
    InProgress,
    Success,
    Error { message: String },
}

} // verus!
