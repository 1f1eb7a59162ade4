//! A cached task.

use vstd::prelude::*;

verus! {

/// A task as the local cache holds it.  Identifiers are the 128-bit values of UUIDs.
#[derive(Debug, Clone, PartialEq)]
pub struct Model {
    pub uuid: u128,
    pub backend_uuid: u128,
    pub remote_id: String,
    pub content: String,
    pub description: Option<String>,
    pub project_uuid: u128,
    pub section_uuid: Option<u128>,
    pub parent_uuid: Option<u128>,
    pub priority: i32,
    pub order_index: i32,
    pub due_date: Option<String>,
    pub due_datetime: Option<String>,
    pub is_recurring: bool,
    pub deadline: Option<String>,
    pub duration: Option<String>,
    pub is_completed: bool,
    pub completed_at: Option<String>,
    pub is_deleted: bool,
    pub deleted_at: Option<String>,
}

/// A copy of an optional string.
pub fn copy_opt_string(s: &Option<String>) -> (r: Option<String>)
    ensures
        r == *s,
{
    match s {
        Some(v) => Some(v.clone()),
        None => None,
    }
}

impl Model {
    /// A field-for-field copy of the task.
    pub fn duplicate(&self) -> (r: Model)
        ensures
            r == *self,
    {
        Model {
            uuid: self.uuid,
            backend_uuid: self.backend_uuid,
            remote_id: self.remote_id.clone(),
            content: self.content.clone(),
            description: copy_opt_string(&self.description),
            project_uuid: self.project_uuid,
            section_uuid: self.section_uuid,
            parent_uuid: self.parent_uuid,
            priority: self.priority,
            order_index: self.order_index,
            due_date: copy_opt_string(&self.due_date),
            due_datetime: copy_opt_string(&self.due_datetime),
            is_recurring: self.is_recurring,
            deadline: copy_opt_string(&self.deadline),
            duration: copy_opt_string(&self.duration),
            is_completed: self.is_completed,
            completed_at: copy_opt_string(&self.completed_at),
            is_deleted: self.is_deleted,
            deleted_at: copy_opt_string(&self.deleted_at),
        }
    }
}

/// A copy of a list of tasks.
pub fn duplicate_all(v: &Vec<Model>) -> (r: Vec<Model>)
    ensures
        r@ == v@,
{
    let mut out: Vec<Model> = Vec::new();
    let mut i: usize = 0;
    while i < v.len()
        invariant
            i <= v@.len(),
            out@ == v@.take(i as int),
        decreases v@.len() - i,
    {
        out.push(v[i].duplicate());
        proof {
            assert(v@.take(i + 1) =~= v@.take(i as int).push(v@[i as int]));
        }
        i = i + 1;
    }
    proof {
        assert(v@.take(i as int) =~= v@);
    }
    out
}

} // verus!
