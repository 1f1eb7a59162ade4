//! Typed data operations that the interface runs in the background.

use vstd::prelude::*;
use crate::ui::app_core::actions::TaskDueDate;

verus! {

/// An operation on a task.
#[derive(Debug, Clone)]
pub enum TaskOperation {
    Complete(u128),
    Delete(u128),
    Restore(u128),
    CyclePriority { task_uuid: u128, priority: i32 },
    SetDueDate { task_uuid: u128, due_date: TaskDueDate },
    Create {
        content: String,
        project_uuid: Option<u128>,
        due_string: Option<String>,
        due_date: Option<String>,
        label_uuid: Option<u128>,
    },
    Edit { task_uuid: u128, content: String },
    EditDescription { task_uuid: u128, description: String },
}

/// An operation on a project.
#[derive(Debug, Clone)]
pub enum ProjectOperation {
    Create { name: String, parent_uuid: Option<u128> },
    Edit { project_uuid: u128, name: String },
    Delete(u128),
}

/// An operation on a label.
#[derive(Debug, Clone)]
pub enum LabelOperation {
    Create { name: String },
    Edit { label_uuid: u128, name: String },
    Delete(u128),
}

/// An operation of any kind.
#[derive(Debug, Clone)]
pub enum Operation {
    Task(TaskOperation),
    Project(ProjectOperation),
    Label(LabelOperation),
}

/// What the interface calls an operation while it runs and when it reports it.
pub open spec fn operation_description(op: Operation) -> Seq<char> {
    match op {
        Operation::Task(t) => match t {
            TaskOperation::Complete(_) => "Complete task"@,
            TaskOperation::Delete(_) => "Delete task"@,
            TaskOperation::Restore(_) => "Restore task"@,
            TaskOperation::CyclePriority { .. } => "Cycle task priority"@,
            TaskOperation::SetDueDate { due_date, .. } => match due_date {
                TaskDueDate::Unscheduled => "Unschedule task"@,
                TaskDueDate::Today => "Schedule task for today"@,
                TaskDueDate::Tomorrow => "Schedule task for tomorrow"@,
                TaskDueDate::NextWeek => "Schedule task for next week"@,
                TaskDueDate::Weekend => "Schedule task for the weekend"@,
            },
            TaskOperation::Create { .. } => "Create task"@,
            TaskOperation::Edit { .. } => "Edit task"@,
            TaskOperation::EditDescription { .. } => "Edit task description"@,
        },
        Operation::Project(p) => match p {
            ProjectOperation::Create { .. } => "Create project"@,
            ProjectOperation::Edit { .. } => "Edit project"@,
            ProjectOperation::Delete(_) => "Delete project"@,
        },
        Operation::Label(l) => match l {
            LabelOperation::Create { .. } => "Create label"@,
            LabelOperation::Edit { .. } => "Edit label"@,
            LabelOperation::Delete(_) => "Delete label"@,
        },
    }
}

impl Operation {
    /// The operation's description.
    pub fn description(&self) -> (s: String)
        ensures
            s@ == operation_description(*self),
    {
        let text = match self {
            Operation::Task(t) => match t {
                TaskOperation::Complete(_) => "Complete task",
                TaskOperation::Delete(_) => "Delete task",
                TaskOperation::Restore(_) => "Restore task",
                TaskOperation::CyclePriority { .. } => "Cycle task priority",
                TaskOperation::SetDueDate { due_date, .. } => match due_date {
                    TaskDueDate::Unscheduled => "Unschedule task",
                    TaskDueDate::Today => "Schedule task for today",
                    TaskDueDate::Tomorrow => "Schedule task for tomorrow",
                    TaskDueDate::NextWeek => "Schedule task for next week",
                    TaskDueDate::Weekend => "Schedule task for the weekend",
                },
                TaskOperation::Create { .. } => "Create task",
                TaskOperation::Edit { .. } => "Edit task",
                TaskOperation::EditDescription { .. } => "Edit task description",
            },
            Operation::Project(p) => match p {
                ProjectOperation::Create { .. } => "Create project",
                ProjectOperation::Edit { .. } => "Edit project",
                ProjectOperation::Delete(_) => "Delete project",
            },
            Operation::Label(l) => match l {
                LabelOperation::Create { .. } => "Create label",
                LabelOperation::Edit { .. } => "Edit label",
                LabelOperation::Delete(_) => "Delete label",
            },
        };
        String::from_str(text)
    }
}

} // verus!
