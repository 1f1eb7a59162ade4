//! How task requests become backend arguments, and how backend replies change the
//! cached task.

use vstd::prelude::*;
use crate::backend::{BackendTask, CreateTaskArgs, UpdateTaskArgs};
use crate::entities::task::{copy_opt_string, Model};
use crate::ext::{str_trim, trimmed};

verus! {

/// The fields of a task creation that coordinated proposals use.
#[derive(Debug, Clone, Default)]
pub struct RichCreateTaskArgs {
    pub content: String,
    pub description: Option<String>,
    pub project_uuid: Option<u128>,
    pub priority: Option<i32>,
    pub due_date: Option<String>,
    pub label_uuid: Option<u128>,
}

/// Several task fields changed in one request.
#[derive(Debug, Clone, Default)]
pub struct GeneralTaskUpdate {
    pub content: Option<String>,
    pub description: Option<String>,
    pub project_uuid: Option<u128>,
    pub priority: Option<i32>,
    pub clear_due_date: bool,
}

/// How a task in the trash or among the completed ones is brought back.
#[derive(Debug, Clone, Copy, PartialEq, Eq)]
pub enum RestoreStep {
    /// A deleted task is created again from its cached fields.
    Recreate,
    /// A completed task is reopened.
    Reopen,
}

/// An update that changes nothing.
pub open spec fn no_change(a: UpdateTaskArgs) -> bool {
    &&& a.content is None
    &&& a.description is None
    &&& a.project_remote_id is None
    &&& a.section_remote_id is None
    &&& a.parent_remote_id is None
    &&& a.priority is None
    &&& a.due_date is None
    &&& a.due_datetime is None
    &&& !a.clear_due_date
    &&& a.duration is None
    &&& a.labels is None
}

/// An update with nothing set.
fn empty_update() -> (r: UpdateTaskArgs)
    ensures
        no_change(r),
{
    UpdateTaskArgs {
        content: None,
        description: None,
        project_remote_id: None,
        section_remote_id: None,
        parent_remote_id: None,
        priority: None,
        due_date: None,
        due_datetime: None,
        clear_due_date: false,
        duration: None,
        labels: None,
    }
}

/// The backend arguments of a rich task creation: the project and the label given by
/// their remote id and name, which the caller looked up.
pub fn rich_create_task_args(args: RichCreateTaskArgs, remote_project_id: Option<String>, label_name: Option<String>) -> (r: CreateTaskArgs)
    ensures
        r.content == args.content,
        r.description == args.description,
        r.project_remote_id == remote_project_id,
        r.section_remote_id is None,
        r.parent_remote_id is None,
        r.priority == args.priority,
        r.due_date == args.due_date,
        r.due_datetime is None,
        r.duration is None,
        r.labels@ == (match label_name {
            Some(n) => seq![n],
            None => Seq::<String>::empty(),
        }),
{
    let mut labels: Vec<String> = Vec::new();
    match label_name {
        Some(n) => labels.push(n),
        None => {},
    }
    CreateTaskArgs {
        content: args.content,
        description: args.description,
        project_remote_id: remote_project_id,
        section_remote_id: None,
        parent_remote_id: None,
        priority: args.priority,
        due_date: args.due_date,
        due_datetime: None,
        duration: None,
        labels,
    }
}

/// The backend arguments of a general update; the project is given by its remote id,
/// which the caller looked up.
pub fn general_update_args(update: GeneralTaskUpdate, remote_project_id: Option<String>) -> (r: UpdateTaskArgs)
    ensures
        r.content == update.content,
        r.description == update.description,
        r.project_remote_id == remote_project_id,
        r.priority == update.priority,
        r.clear_due_date == update.clear_due_date,
        r.section_remote_id is None,
        r.parent_remote_id is None,
        r.due_date is None,
        r.due_datetime is None,
        r.duration is None,
        r.labels is None,
{
    let mut r = empty_update();
    r.content = update.content;
    r.description = update.description;
    r.project_remote_id = remote_project_id;
    r.priority = update.priority;
    r.clear_due_date = update.clear_due_date;
    r
}

/// The backend arguments that change only the title.
pub fn content_update_args(content: &str) -> (r: UpdateTaskArgs)
    ensures
        r.content matches Some(c) && c@ == content@,
        no_change(UpdateTaskArgs { content: None, ..r }),
{
    let mut r = empty_update();
    r.content = Some(String::from_str(content));
    r
}

/// The backend arguments that change only the description.
pub fn description_update_args(description: &str) -> (r: UpdateTaskArgs)
    ensures
        r.description matches Some(d) && d@ == description@,
        no_change(UpdateTaskArgs { description: None, ..r }),
{
    let mut r = empty_update();
    r.description = Some(String::from_str(description));
    r
}

/// The backend arguments that set the due date, or clear it where none is given.
pub fn due_date_update_args(due_date: Option<&str>) -> (r: UpdateTaskArgs)
    ensures
        match due_date {
            Some(d) => r.due_date matches Some(x) && x@ == d@ && !r.clear_due_date,
            None => r.due_date is None && r.clear_due_date,
        },
        no_change(UpdateTaskArgs { due_date: None, clear_due_date: false, ..r }),
{
    let mut r = empty_update();
    match due_date {
        Some(d) => {
            r.due_date = Some(String::from_str(d));
        },
        None => {
            r.clear_due_date = true;
        },
    }
    r
}

/// The backend arguments that set an exact due time.
pub fn due_datetime_update_args(due_datetime: &str) -> (r: UpdateTaskArgs)
    ensures
        r.due_datetime matches Some(d) && d@ == due_datetime@,
        no_change(UpdateTaskArgs { due_datetime: None, ..r }),
{
    let mut r = empty_update();
    r.due_datetime = Some(String::from_str(due_datetime));
    r
}

/// The backend arguments that change only the priority.
pub fn priority_update_args(priority: i32) -> (r: UpdateTaskArgs)
    ensures
        r.priority == Some(priority),
        no_change(UpdateTaskArgs { priority: None, ..r }),
{
    let mut r = empty_update();
    r.priority = Some(priority);
    r
}

/// How a task is restored: a deleted one is created again, any other is reopened.
pub fn restore_step(task: &Model) -> (r: RestoreStep)
    ensures
        r == (if task.is_deleted { RestoreStep::Recreate } else { RestoreStep::Reopen }),
{
    if task.is_deleted { RestoreStep::Recreate } else { RestoreStep::Reopen }
}

/// A description that is kept: one that is present and not empty.
pub open spec fn kept_description(d: Option<String>) -> Option<String> {
    match d {
        Some(s) => if s@.len() > 0 { Some(s) } else { None },
        None => None,
    }
}

/// The backend arguments that create a deleted task again: its cached fields, an empty
/// description dropped, its project, section and parent given by their remote ids, which
/// the caller looked up; labels follow with the next sync.
pub fn recreate_args(task: &Model, remote_project_id: String, remote_section_id: Option<String>, remote_parent_id: Option<String>) -> (r: CreateTaskArgs)
    ensures
        r.content == task.content,
        r.description == kept_description(task.description),
        r.project_remote_id == Some(remote_project_id),
        r.section_remote_id == remote_section_id,
        r.parent_remote_id == remote_parent_id,
        r.priority == Some(task.priority),
        r.due_date == task.due_date,
        r.due_datetime == task.due_datetime,
        r.duration == task.duration,
        r.labels@.len() == 0,
{
    let description = match &task.description {
        Some(d) => if d.as_str().unicode_len() > 0 { Some(d.clone()) } else { None },
        None => None,
    };
    CreateTaskArgs {
        content: task.content.clone(),
        description,
        project_remote_id: Some(remote_project_id),
        section_remote_id: remote_section_id,
        parent_remote_id: remote_parent_id,
        priority: Some(task.priority),
        due_date: copy_opt_string(&task.due_date),
        due_datetime: copy_opt_string(&task.due_datetime),
        duration: copy_opt_string(&task.duration),
        labels: Vec::new(),
    }
}

/// The cached task for a task the backend created or stored: the backend's fields, the
/// local UUIDs the caller resolved, and not in the trash.
pub open spec fn cached_task_spec(uuid: u128, backend_uuid: u128, b: BackendTask, project_uuid: u128, section_uuid: Option<u128>, parent_uuid: Option<u128>) -> Model {
    Model {
        uuid,
        backend_uuid,
        remote_id: b.remote_id,
        content: b.content,
        description: b.description,
        project_uuid,
        section_uuid,
        parent_uuid,
        priority: b.priority,
        order_index: b.order_index,
        due_date: b.due_date,
        due_datetime: b.due_datetime,
        is_recurring: b.is_recurring,
        deadline: b.deadline,
        duration: b.duration,
        is_completed: b.is_completed,
        completed_at: b.completed_at,
        is_deleted: false,
        deleted_at: None,
    }
}

/// The cached task for a task the backend created or stored.
pub fn cached_task(uuid: u128, backend_uuid: u128, b: BackendTask, project_uuid: u128, section_uuid: Option<u128>, parent_uuid: Option<u128>) -> (r: Model)
    ensures
        r == cached_task_spec(uuid, backend_uuid, b, project_uuid, section_uuid, parent_uuid),
{
    Model {
        uuid,
        backend_uuid,
        remote_id: b.remote_id,
        content: b.content,
        description: b.description,
        project_uuid,
        section_uuid,
        parent_uuid,
        priority: b.priority,
        order_index: b.order_index,
        due_date: b.due_date,
        due_datetime: b.due_datetime,
        is_recurring: b.is_recurring,
        deadline: b.deadline,
        duration: b.duration,
        is_completed: b.is_completed,
        completed_at: b.completed_at,
        is_deleted: false,
        deleted_at: None,
    }
}

/// The cached task after a general update, mirroring the task the backend returned.
pub open spec fn general_update_spec(local: Model, updated: BackendTask, project_uuid: u128, section_uuid: Option<u128>) -> Model {
    Model {
        content: updated.content,
        description: updated.description,
        project_uuid,
        section_uuid,
        priority: updated.priority,
        due_date: updated.due_date,
        due_datetime: updated.due_datetime,
        is_recurring: updated.is_recurring,
        duration: updated.duration,
        ..local
    }
}

/// The cached task after a general update, mirroring the task the backend returned.
pub fn apply_general_update(local: Model, updated: BackendTask, project_uuid: u128, section_uuid: Option<u128>) -> (r: Model)
    ensures
        r == general_update_spec(local, updated, project_uuid, section_uuid),
{
    let mut m = local;
    m.content = updated.content;
    m.description = updated.description;
    m.project_uuid = project_uuid;
    m.section_uuid = section_uuid;
    m.priority = updated.priority;
    m.due_date = updated.due_date;
    m.due_datetime = updated.due_datetime;
    m.is_recurring = updated.is_recurring;
    m.duration = updated.duration;
    m
}

/// The cached task with the title changed.
pub fn with_content(local: Model, content: &str) -> (r: Model)
    ensures
        r.content@ == content@,
        r == (Model { content: r.content, ..local }),
{
    let mut m = local;
    m.content = String::from_str(content);
    m
}

/// The cached task with the description changed.
pub fn with_description(local: Model, description: &str) -> (r: Model)
    ensures
        r.description matches Some(d) && d@ == description@,
        r == (Model { description: r.description, ..local }),
{
    let mut m = local;
    m.description = Some(String::from_str(description));
    m
}

/// The cached task with the due date and time the backend returned.
pub fn with_due(local: Model, updated: &BackendTask) -> (r: Model)
    ensures
        r == (Model { due_date: updated.due_date, due_datetime: updated.due_datetime, ..local }),
{
    let mut m = local;
    m.due_date = copy_opt_string(&updated.due_date);
    m.due_datetime = copy_opt_string(&updated.due_datetime);
    m
}

/// The cached task with the priority changed.
pub fn with_priority(local: Model, priority: i32) -> (r: Model)
    ensures
        r == (Model { priority, ..local }),
{
    let mut m = local;
    m.priority = priority;
    m
}

/// The cached task completed at the time the backend reported.
pub open spec fn completed_spec(t: Model, completed_at: String) -> Model {
    Model { is_completed: true, completed_at: Some(completed_at), ..t }
}

/// The cached task reopened.
pub open spec fn reopened_spec(t: Model) -> Model {
    Model { is_completed: false, completed_at: None, ..t }
}

/// The cached task completed at the time the backend reported.
pub fn completed(local: Model, completed_at: String) -> (r: Model)
    ensures
        r == completed_spec(local, completed_at),
{
    let mut m = local;
    m.is_completed = true;
    m.completed_at = Some(completed_at);
    m
}

/// The cached task reopened: not completed, with no completion time.
pub fn reopened(local: Model) -> (r: Model)
    ensures
        r == reopened_spec(local),
{
    let mut m = local;
    m.is_completed = false;
    m.completed_at = None;
    m
}

/// The cached task moved to the trash at the given time.
pub fn soft_deleted(local: Model, deleted_at: String) -> (r: Model)
    ensures
        r == (Model { is_deleted: true, deleted_at: Some(deleted_at), ..local }),
{
    let mut m = local;
    m.is_deleted = true;
    m.deleted_at = Some(deleted_at);
    m
}

/// Reopening a task that was open undoes completing it.
pub proof fn lemma_reopen_undoes_completion(t: Model, completed_at: String)
    requires
        !t.is_completed,
        t.completed_at is None,
    ensures
        reopened_spec(completed_spec(t, completed_at)) == t,
{
}

/// Whether `i` is the first position of a task with the remote id.
pub open spec fn first_with_remote_id(s: Seq<BackendTask>, remote_id: Seq<char>, i: int) -> bool {
    &&& 0 <= i < s.len()
    &&& s[i].remote_id@ == remote_id
    &&& forall|j: int| 0 <= j < i ==> (#[trigger] s[j]).remote_id@ != remote_id
}

/// The completion time of the task with the remote id among the completed tasks the
/// backend reported: that of the first such task, or an error where there is none or it
/// has no time.
pub fn completion_timestamp(completed: &Vec<BackendTask>, remote_id: &str) -> (r: Result<String, String>)
    ensures
        match r {
            Ok(c) => exists|i: int| first_with_remote_id(completed@, remote_id@, i)
                && (#[trigger] completed@[i]).completed_at == Some(c),
            Err(e) => e@ == "Task completed remotely, but Todoist did not return its completion timestamp"@
                && ((forall|i: int| 0 <= i < completed@.len() ==> (#[trigger] completed@[i]).remote_id@ != remote_id@)
                || exists|i: int| first_with_remote_id(completed@, remote_id@, i)
                    && (#[trigger] completed@[i]).completed_at is None),
        },
{
    let target = String::from_str(remote_id);
    let mut i: usize = 0;
    while i < completed.len()
        invariant
            i <= completed@.len(),
            target@ == remote_id@,
            forall|j: int| 0 <= j < i ==> (#[trigger] completed@[j]).remote_id@ != remote_id@,
        decreases completed@.len() - i,
    {
        if completed[i].remote_id == target {
            match &completed[i].completed_at {
                Some(c) => {
                    assert(first_with_remote_id(completed@, remote_id@, i as int));
                    return Ok(c.clone());
                },
                None => {
                    assert(first_with_remote_id(completed@, remote_id@, i as int));
                    return Err(String::from_str("Task completed remotely, but Todoist did not return its completion timestamp"));
                },
            }
        }
        i = i + 1;
    }
    Err(String::from_str("Task completed remotely, but Todoist did not return its completion timestamp"))
}

/// The text of a comment to add: the content without surrounding whitespace, which
/// must not be empty.
pub fn comment_content(content: &str) -> (r: Result<String, String>)
    ensures
        trimmed(content@).len() > 0 ==> (r matches Ok(c) && c@ == trimmed(content@)),
        trimmed(content@).len() == 0 ==> (r matches Err(e) && e@ == "Task comment cannot be empty"@),
{
    let t = str_trim(content);
    if t.unicode_len() == 0 {
        Err(String::from_str("Task comment cannot be empty"))
    } else {
        Ok(String::from_str(t))
    }
}

} // verus!
