use terminalist::backend::todoist::{
    sync_data_from_response, with_completed_tasks, SyncLabel, SyncProject, SyncResponse, SyncSection, SyncTask,
    TodoistBackend, TodoistDue, TodoistDuration, TodoistLabel, TodoistProject, TodoistSection, TodoistTask,
    TodoistUpdateTaskArgs,
};
use terminalist::backend::{BackendError, BackendSyncData, BackendTask, CreateTaskArgs, UpdateTaskArgs};

fn api_task(due: Option<TodoistDue>, duration: Option<TodoistDuration>) -> TodoistTask {
    TodoistTask {
        id: "completed-task".to_string(),
        content: "Exercise".to_string(),
        description: String::new(),
        project_id: "inbox".to_string(),
        section_id: None,
        parent_id: None,
        priority: 1,
        due,
        duration,
        checked: true,
        completed_at: Some("2026-07-18T14:30:00Z".to_string()),
        labels: Vec::new(),
    }
}

fn sync_task(id: &str, project_id: Option<&str>, is_deleted: bool) -> SyncTask {
    SyncTask {
        id: id.to_string(),
        content: String::new(),
        description: None,
        project_id: project_id.map(str::to_string),
        section_id: None,
        parent_id: None,
        priority: 0,
        child_order: 0,
        due: None,
        deadline: None,
        duration: None,
        checked: false,
        completed_at: None,
        labels: Vec::new(),
        is_deleted,
    }
}

fn backend_task(remote_id: &str) -> BackendTask {
    BackendTask {
        remote_id: remote_id.to_string(),
        content: remote_id.to_string(),
        description: None,
        project_remote_id: "inbox".to_string(),
        section_remote_id: None,
        parent_remote_id: None,
        priority: 1,
        order_index: 0,
        due_date: None,
        due_datetime: None,
        is_recurring: false,
        deadline: None,
        duration: None,
        is_completed: false,
        completed_at: None,
        labels: Vec::new(),
    }
}

#[test]
fn creating_an_inbox_task_omits_the_project_id() {
    let args = CreateTaskArgs {
        content: "Inbox task".to_string(),
        description: None,
        project_remote_id: None,
        section_remote_id: None,
        parent_remote_id: None,
        priority: None,
        due_date: None,
        due_datetime: None,
        duration: None,
        labels: Vec::new(),
    };

    let todoist_args = TodoistBackend::task_create_args_to_todoist(args);

    assert_eq!(todoist_args.project_id, None);
    assert_eq!(todoist_args.labels, Some(Vec::new()));
}

#[test]
fn general_update_can_clear_due_date_while_updating_other_fields() {
    let args = UpdateTaskArgs {
        content: Some("Clarified task".to_string()),
        description: Some("Preserved context".to_string()),
        project_remote_id: Some("destination-project".to_string()),
        section_remote_id: None,
        parent_remote_id: None,
        priority: Some(1),
        due_date: None,
        due_datetime: None,
        clear_due_date: true,
        duration: None,
        labels: None,
    };

    let todoist_args = TodoistBackend::task_update_args_to_todoist(&args);

    assert_eq!(todoist_args.content.as_deref(), Some("Clarified task"));
    assert_eq!(todoist_args.description.as_deref(), Some("Preserved context"));
    assert_eq!(todoist_args.priority, Some(1));
    assert_eq!(todoist_args.due_string.as_deref(), Some("no date"));
}

#[test]
fn durations_are_sent_as_their_amount() {
    let mut args = CreateTaskArgs {
        content: "Timed".to_string(),
        description: None,
        project_remote_id: Some("p".to_string()),
        section_remote_id: None,
        parent_remote_id: None,
        priority: Some(2),
        due_date: None,
        due_datetime: None,
        duration: Some("  30 minute".to_string()),
        labels: vec!["work".to_string()],
    };
    assert_eq!(TodoistBackend::task_create_args_to_todoist(args.clone()).duration, Some(30));
    args.duration = Some("half an hour".to_string());
    assert_eq!(TodoistBackend::task_create_args_to_todoist(args.clone()).duration, None);
    args.duration = Some("+7 day".to_string());
    assert_eq!(TodoistBackend::task_create_args_to_todoist(args.clone()).duration, Some(7));
    args.duration = Some("   ".to_string());
    assert_eq!(TodoistBackend::task_create_args_to_todoist(args).duration, None);
}

#[test]
fn update_without_changes_has_nothing_to_send() {
    let args = UpdateTaskArgs {
        content: None,
        description: None,
        project_remote_id: Some("elsewhere".to_string()),
        section_remote_id: None,
        parent_remote_id: None,
        priority: None,
        due_date: None,
        due_datetime: None,
        clear_due_date: false,
        duration: None,
        labels: None,
    };
    let todoist_args: TodoistUpdateTaskArgs = TodoistBackend::task_update_args_to_todoist(&args);
    assert!(todoist_args.due_string.is_none());
    assert!(!todoist_args.has_updates());
}

#[test]
fn completed_task_uses_todoists_completion_timestamp() {
    let due = TodoistDue { date: "2026-07-18".to_string(), datetime: None, is_recurring: false };
    let task = TodoistBackend::task_to_backend(&api_task(Some(due), None));
    assert!(task.is_completed);
    assert_eq!(task.completed_at.as_deref(), Some("2026-07-18T14:30:00Z"));
    assert_eq!(task.due_date.as_deref(), Some("2026-07-18"));
    assert_eq!(task.due_datetime, None);
    assert_eq!(task.description.as_deref(), Some(""));
}

#[test]
fn due_times_written_into_the_date_are_split() {
    let due = TodoistDue { date: "2026-07-18T09:15:00".to_string(), datetime: None, is_recurring: true };
    let duration = TodoistDuration { amount: 45, unit: "minute".to_string() };
    let task = TodoistBackend::task_to_backend(&api_task(Some(due), Some(duration)));
    assert_eq!(task.due_date.as_deref(), Some("2026-07-18"));
    assert_eq!(task.due_datetime.as_deref(), Some("2026-07-18T09:15:00"));
    assert!(task.is_recurring);
    assert_eq!(task.duration.as_deref(), Some("45 minute"));
}

#[test]
fn projects_labels_and_sections_convert_field_for_field() {
    let project = TodoistBackend::project_to_backend(&TodoistProject {
        id: "p1".to_string(),
        name: "Inbox".to_string(),
        is_favorite: true,
        inbox_project: true,
        parent_id: None,
    });
    assert_eq!(project.remote_id, "p1");
    assert!(project.is_inbox);
    assert_eq!(project.order_index, 0);
    let label = TodoistBackend::label_to_backend(&TodoistLabel { id: "l1".to_string(), name: "work".to_string(), order: None, is_favorite: false });
    assert_eq!(label.order_index, 0);
    let section = TodoistBackend::section_to_backend(&TodoistSection {
        id: "s1".to_string(),
        name: "Later".to_string(),
        project_id: "p1".to_string(),
        section_order: 3,
    });
    assert_eq!(section.project_remote_id, "p1");
    assert_eq!(section.order_index, 3);
}

#[test]
fn incremental_task_conversion_preserves_completion_and_recurrence() {
    let mut task = sync_task("changed-task", Some("inbox"), false);
    task.content = "Changed".to_string();
    task.description = Some(String::new());
    task.priority = 2;
    task.child_order = 4;
    task.checked = true;
    task.completed_at = Some("2026-07-24T14:00:00Z".to_string());
    task.labels = vec!["work".to_string()];
    task.due = Some(TodoistDue { date: "2026-07-24".to_string(), datetime: None, is_recurring: true });

    let task = TodoistBackend::sync_task_to_backend(task).unwrap();
    assert!(task.is_completed);
    assert!(task.is_recurring);
    assert_eq!(task.completed_at.as_deref(), Some("2026-07-24T14:00:00Z"));
    assert_eq!(task.labels, vec!["work"]);
    assert_eq!(task.order_index, 4);
}

#[test]
fn sync_task_without_a_project_is_invalid_data() {
    let error = TodoistBackend::sync_task_to_backend(sync_task("t9", None, false)).unwrap_err();
    assert!(matches!(error, BackendError::InvalidData(ref m) if m == "Task t9 has no project_id"));
    assert_eq!(error.message(), "Invalid data: Task t9 has no project_id");
}

#[test]
fn sync_response_accepts_sparse_deletion_tombstones() {
    let response = SyncResponse {
        sync_token: "next-token".to_string(),
        full_sync: false,
        projects: vec![SyncProject {
            id: "deleted-project".to_string(),
            name: String::new(),
            is_favorite: false,
            inbox_project: false,
            child_order: 0,
            parent_id: None,
            is_deleted: true,
        }],
        items: vec![sync_task("deleted-task", None, true)],
        labels: vec![SyncLabel { id: "deleted-label".to_string(), name: String::new(), order: None, is_favorite: false, is_deleted: true }],
        sections: vec![SyncSection { id: "deleted-section".to_string(), name: String::new(), project_id: None, section_order: 0, is_deleted: true }],
    };

    let data = sync_data_from_response(&response).unwrap();
    assert_eq!(data.sync_token.as_deref(), Some("next-token"));
    assert!(!data.full_sync);
    assert_eq!(data.deleted_project_ids, vec!["deleted-project"]);
    assert_eq!(data.deleted_task_ids, vec!["deleted-task"]);
    assert_eq!(data.deleted_label_ids, vec!["deleted-label"]);
    assert_eq!(data.deleted_section_ids, vec!["deleted-section"]);
    assert!(data.projects.is_empty() && data.tasks.is_empty() && data.labels.is_empty() && data.sections.is_empty());
}

#[test]
fn sync_reply_with_an_orphan_section_is_refused() {
    let response = SyncResponse {
        sync_token: "t".to_string(),
        full_sync: true,
        projects: Vec::new(),
        items: vec![sync_task("a", Some("p"), false)],
        labels: Vec::new(),
        sections: vec![SyncSection { id: "s7".to_string(), name: "S".to_string(), project_id: None, section_order: 0, is_deleted: false }],
    };
    let error = sync_data_from_response(&response).unwrap_err();
    assert!(matches!(error, BackendError::InvalidData(ref m) if m == "Section s7 has no project_id"));
}

#[test]
fn full_sync_puts_completed_tasks_first() {
    let data = BackendSyncData { full_sync: true, tasks: vec![backend_task("open")], ..BackendSyncData::default() };
    let merged = with_completed_tasks(vec![backend_task("done")], data);
    let ids = merged.tasks.iter().map(|t| t.remote_id.as_str()).collect::<Vec<_>>();
    assert_eq!(ids, vec!["done", "open"]);
    assert!(merged.full_sync);
}
