//! The data that task-management backends exchange with the local cache, and their
//! errors.

use vstd::prelude::*;

pub mod todoist;

verus! {

/// Errors of backend operations.
#[derive(Debug)]
pub enum BackendError {
    Auth(String),
    NotFound(String),
    Network(String),
    InvalidData(String),
    InvalidSyncToken(String),
    Other(String),
}

/// The text shown for a backend error.
pub open spec fn backend_error_text(e: BackendError) -> Seq<char> {
    match e {
        BackendError::Auth(m) => "Authentication failed: "@ + m@,
        BackendError::NotFound(m) => "Resource not found: "@ + m@,
        BackendError::Network(m) => "Network error: "@ + m@,
        BackendError::InvalidData(m) => "Invalid data: "@ + m@,
        BackendError::InvalidSyncToken(m) => "Incremental sync token is invalid: "@ + m@,
        BackendError::Other(m) => "Backend error: "@ + m@,
    }
}

impl BackendError {
    /// The text shown for the error: its kind, a colon and its detail.
    pub fn message(&self) -> (s: String)
        ensures
            s@ == backend_error_text(*self),
    {
        let (prefix, detail) = match self {
            BackendError::Auth(m) => ("Authentication failed: ", m),
            BackendError::NotFound(m) => ("Resource not found: ", m),
            BackendError::Network(m) => ("Network error: ", m),
            BackendError::InvalidData(m) => ("Invalid data: ", m),
            BackendError::InvalidSyncToken(m) => ("Incremental sync token is invalid: ", m),
            BackendError::Other(m) => ("Backend error: ", m),
        };
        let mut s = String::from_str(prefix);
        s.append(detail.as_str());
        s
    }
}

/// A project as a backend describes it.
#[derive(Clone, Debug)]
pub struct BackendProject {
    pub remote_id: String,
    pub name: String,
    pub is_favorite: bool,
    pub is_inbox: bool,
    pub order_index: i32,
    pub parent_remote_id: Option<String>,
}

/// A task as a backend describes it.
#[derive(Clone, Debug)]
pub struct BackendTask {
    pub remote_id: String,
    pub content: String,
    pub description: Option<String>,
    pub project_remote_id: String,
    pub section_remote_id: Option<String>,
    pub parent_remote_id: Option<String>,
    pub priority: i32,
    pub order_index: i32,
    pub due_date: Option<String>,
    pub due_datetime: Option<String>,
    pub is_recurring: bool,
    pub deadline: Option<String>,
    pub duration: Option<String>,
    pub is_completed: bool,
    pub completed_at: Option<String>,
    pub labels: Vec<String>,
}

/// A label as a backend describes it.
#[derive(Clone, Debug)]
pub struct BackendLabel {
    pub remote_id: String,
    pub name: String,
    pub order_index: i32,
    pub is_favorite: bool,
}

/// A section as a backend describes it.
#[derive(Clone, Debug)]
pub struct BackendSection {
    pub remote_id: String,
    pub name: String,
    pub project_remote_id: String,
    pub order_index: i32,
}

/// A full or incremental set of backend changes.
#[derive(Clone, Debug, Default)]
pub struct BackendSyncData {
    pub full_sync: bool,
    pub sync_token: Option<String>,
    pub projects: Vec<BackendProject>,
    pub tasks: Vec<BackendTask>,
    pub labels: Vec<BackendLabel>,
    pub sections: Vec<BackendSection>,
    pub deleted_project_ids: Vec<String>,
    pub deleted_task_ids: Vec<String>,
    pub deleted_label_ids: Vec<String>,
    pub deleted_section_ids: Vec<String>,
}

/// Arguments for creating a project.
#[derive(Clone, Debug)]
pub struct CreateProjectArgs {
    pub name: String,
    pub is_favorite: Option<bool>,
    pub parent_remote_id: Option<String>,
}

/// Arguments for creating a task.
#[derive(Clone, Debug)]
pub struct CreateTaskArgs {
    pub content: String,
    pub description: Option<String>,
    pub project_remote_id: Option<String>,
    pub section_remote_id: Option<String>,
    pub parent_remote_id: Option<String>,
    pub priority: Option<i32>,
    pub due_date: Option<String>,
    pub due_datetime: Option<String>,
    pub duration: Option<String>,
    pub labels: Vec<String>,
}

/// Arguments for creating a label.
#[derive(Clone, Debug)]
pub struct CreateLabelArgs {
    pub name: String,
    pub is_favorite: Option<bool>,
}

/// Arguments for updating a project.
#[derive(Clone, Debug)]
pub struct UpdateProjectArgs {
    pub name: Option<String>,
    pub is_favorite: Option<bool>,
}

/// Arguments for updating a task; `clear_due_date` removes the due date, while
/// `due_date: None` alone leaves it as it is.
#[derive(Clone, Debug)]
pub struct UpdateTaskArgs {
    pub content: Option<String>,
    pub description: Option<String>,
    pub project_remote_id: Option<String>,
    pub section_remote_id: Option<String>,
    pub parent_remote_id: Option<String>,
    pub priority: Option<i32>,
    pub due_date: Option<String>,
    pub due_datetime: Option<String>,
    pub clear_due_date: bool,
    pub duration: Option<String>,
    pub labels: Option<Vec<String>>,
}

/// Arguments for updating a label.
#[derive(Clone, Debug)]
pub struct UpdateLabelArgs {
    pub name: Option<String>,
    pub is_favorite: Option<bool>,
}

} // verus!
