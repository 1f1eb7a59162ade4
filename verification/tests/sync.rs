use terminalist::backend::{BackendSyncData, BackendTask};
use terminalist::ui::app_core::actions::TaskDueDate;
use terminalist::datetime::{format_today, today_at_time};
use terminalist::entities::{label, task};
use terminalist::repositories::task::TaskRepository;
use terminalist::sync::storage::{label_links, stale_task_uuids, write_steps, WriteStep};
use terminalist::sync::tasks::{
    comment_content, completed, completion_timestamp, due_date_update_args, general_update_args, recreate_args, reopened,
    restore_step, rich_create_task_args, GeneralTaskUpdate, RestoreStep, RichCreateTaskArgs,
};

fn cached(uuid: u128, remote_id: &str, due_date: Option<&str>) -> task::Model {
    task::Model {
        uuid,
        backend_uuid: 900,
        remote_id: remote_id.to_string(),
        content: remote_id.to_string(),
        description: Some(String::new()),
        project_uuid: 1,
        section_uuid: None,
        parent_uuid: None,
        priority: 3,
        order_index: 0,
        due_date: due_date.map(str::to_string),
        due_datetime: None,
        is_recurring: false,
        deadline: None,
        duration: None,
        is_completed: false,
        completed_at: None,
        is_deleted: false,
        deleted_at: None,
    }
}

fn backend_task(remote_id: &str, completed_at: Option<&str>) -> BackendTask {
    BackendTask {
        remote_id: remote_id.to_string(),
        content: remote_id.to_string(),
        description: None,
        project_remote_id: "inbox".to_string(),
        section_remote_id: None,
        parent_remote_id: None,
        priority: 1,
        order_index: 0,
        due_date: None,
        due_datetime: None,
        is_recurring: false,
        deadline: None,
        duration: None,
        is_completed: completed_at.is_some(),
        completed_at: completed_at.map(str::to_string),
        labels: Vec::new(),
    }
}

#[test]
fn today_view_lists_overdue_then_today_then_new_completions() {
    let overdue = vec![cached(1, "old", Some("2026-01-01"))];
    let today = vec![cached(2, "now", Some("2026-01-02"))];
    let completions = vec![cached(2, "now", Some("2026-01-02")), cached(3, "done", None), cached(3, "done", None)];
    let merged = TaskRepository::merge_for_today(overdue, today, &completions);
    assert_eq!(merged.iter().map(|t| t.uuid).collect::<Vec<_>>(), vec![1, 2, 3]);
}

#[test]
fn upcoming_view_leaves_out_future_tasks_due_today() {
    let overdue = vec![cached(1, "old", Some("2026-01-01"))];
    let today = vec![cached(2, "now", Some("2026-01-02"))];
    let future = vec![cached(2, "now", Some("2026-01-02")), cached(4, "later", Some("2026-02-01")), cached(5, "open", None)];
    let merged = TaskRepository::merge_for_upcoming(overdue, today, &future, "2026-01-02");
    assert_eq!(merged.iter().map(|t| t.uuid).collect::<Vec<_>>(), vec![1, 2, 4, 5]);
}

#[test]
fn deleted_tasks_are_recreated_and_others_reopened() {
    let mut trashed = cached(1, "gone", Some("2026-01-01"));
    assert_eq!(restore_step(&trashed), RestoreStep::Reopen);
    trashed.is_deleted = true;
    assert_eq!(restore_step(&trashed), RestoreStep::Recreate);

    let args = recreate_args(&trashed, "p-remote".to_string(), None, Some("parent".to_string()));
    assert_eq!(args.content, "gone");
    assert_eq!(args.description, None);
    assert_eq!(args.project_remote_id.as_deref(), Some("p-remote"));
    assert_eq!(args.parent_remote_id.as_deref(), Some("parent"));
    assert_eq!(args.priority, Some(3));
    assert_eq!(args.due_date.as_deref(), Some("2026-01-01"));
    assert!(args.labels.is_empty());
}

#[test]
fn reopening_undoes_completion() {
    let open = cached(1, "task", None);
    let done = completed(open.clone(), "2026-07-18T14:30:00Z".to_string());
    assert!(done.is_completed);
    assert_eq!(done.completed_at.as_deref(), Some("2026-07-18T14:30:00Z"));
    assert_eq!(reopened(done), open);
}

#[test]
fn completion_time_comes_from_the_first_matching_task() {
    let reported = vec![backend_task("a", Some("2026-01-01T08:00:00Z")), backend_task("b", Some("2026-01-01T09:00:00Z"))];
    assert_eq!(completion_timestamp(&reported, "b"), Ok("2026-01-01T09:00:00Z".to_string()));
    let missing = completion_timestamp(&reported, "c").unwrap_err();
    assert_eq!(missing, "Task completed remotely, but Todoist did not return its completion timestamp");
    let untimed = vec![backend_task("c", None)];
    assert!(completion_timestamp(&untimed, "c").is_err());
}

#[test]
fn comments_are_trimmed_and_must_not_be_empty() {
    assert_eq!(comment_content("  thanks  "), Ok("thanks".to_string()));
    assert_eq!(comment_content(" \n "), Err("Task comment cannot be empty".to_string()));
}

#[test]
fn backend_arguments_carry_the_requested_change() {
    let cleared = due_date_update_args(None);
    assert!(cleared.clear_due_date);
    assert!(cleared.due_date.is_none());
    let set = due_date_update_args(Some("2026-03-01"));
    assert!(!set.clear_due_date);
    assert_eq!(set.due_date.as_deref(), Some("2026-03-01"));

    let update = general_update_args(
        GeneralTaskUpdate { content: Some("New".to_string()), description: None, project_uuid: Some(4), priority: Some(2), clear_due_date: true },
        Some("remote-4".to_string()),
    );
    assert_eq!(update.project_remote_id.as_deref(), Some("remote-4"));
    assert!(update.clear_due_date);

    let create = rich_create_task_args(
        RichCreateTaskArgs { content: "Buy".to_string(), label_uuid: Some(8), ..RichCreateTaskArgs::default() },
        None,
        Some("errands".to_string()),
    );
    assert_eq!(create.labels, vec!["errands".to_string()]);
    assert!(create.project_remote_id.is_none());
}

#[test]
fn cache_writes_run_in_order() {
    let incremental = BackendSyncData { sync_token: Some("t".to_string()), ..BackendSyncData::default() };
    assert_eq!(
        write_steps(&incremental),
        vec![
            WriteStep::ApplyDeletions,
            WriteStep::StoreProjects,
            WriteStep::StoreLabels,
            WriteStep::StoreTasks,
            WriteStep::PurgeExpiredTrash,
            WriteStep::StoreSyncToken,
        ]
    );
    let full = BackendSyncData { full_sync: true, ..BackendSyncData::default() };
    assert_eq!(
        write_steps(&full),
        vec![
            WriteStep::StoreProjects,
            WriteStep::StoreLabels,
            WriteStep::StoreTasks,
            WriteStep::RemoveAbsentTasks,
            WriteStep::PurgeExpiredTrash,
        ]
    );
}

#[test]
fn successful_snapshot_marks_missing_tasks_stale() {
    let mut trashed = cached(3, "trashed", None);
    trashed.is_deleted = true;
    let mut other_backend = cached(4, "elsewhere", None);
    other_backend.backend_uuid = 901;
    let cache = vec![cached(1, "kept", None), cached(2, "gone", None), trashed, other_backend];
    let stale = stale_task_uuids(&cache, 900, &vec![backend_task("kept", None)]);
    assert_eq!(stale, vec![2]);
    let all_stale = stale_task_uuids(&cache, 900, &Vec::new());
    assert_eq!(all_stale, vec![1, 2]);
}

#[test]
fn task_labels_link_by_name() {
    let labels = vec![
        label::Model { uuid: 20, backend_uuid: 900, remote_id: "l1".to_string(), name: "work".to_string(), order_index: 0, is_favorite: false },
        label::Model { uuid: 21, backend_uuid: 900, remote_id: "l2".to_string(), name: "home".to_string(), order_index: 1, is_favorite: false },
    ];
    let links = label_links(7, &vec!["home".to_string(), "unknown".to_string(), "work".to_string()], &labels);
    assert_eq!(links, vec![(7, 21), (7, 20)]);
}

#[test]
fn dates_for_today_are_well_formed() {
    let today = format_today();
    assert_eq!(today.len(), 10);
    let at = today_at_time("3:30pm").unwrap();
    assert!(at.starts_with(&today));
    assert!(at.ends_with("T15:30:00"));
    assert_eq!(today_at_time("noonish").unwrap_err(), "Invalid time 'noonish'. Use a time like 3pm, 3:30pm or 15:30.");
}

#[test]
fn due_choices_name_the_right_days() {
    use_due_dates();
}

fn use_due_dates() {
    let wednesday = terminalist::ext::parse_calendar_day("2025-01-15").unwrap();
    let due = |d| terminalist::datetime::due_date_on(d, wednesday);
    assert_eq!(due(TaskDueDate::Today), Some("2025-01-15".to_string()));
    assert_eq!(due(TaskDueDate::Tomorrow), Some("2025-01-16".to_string()));
    assert_eq!(due(TaskDueDate::NextWeek), Some("2025-01-20".to_string()));
    assert_eq!(due(TaskDueDate::Weekend), Some("2025-01-18".to_string()));
    assert_eq!(due(TaskDueDate::Unscheduled), None);
    let monday = terminalist::ext::parse_calendar_day("2025-01-20").unwrap();
    assert_eq!(terminalist::datetime::due_date_on(TaskDueDate::NextWeek, monday), Some("2025-01-27".to_string()));
    let saturday = terminalist::ext::parse_calendar_day("2025-01-18").unwrap();
    assert_eq!(terminalist::datetime::due_date_on(TaskDueDate::Weekend, saturday), Some("2025-01-25".to_string()));
}

#[test]
fn later_day_headers_name_the_weekday_and_date() {
    let day = terminalist::ext::parse_calendar_day("2025-01-15").unwrap();
    assert_eq!(terminalist::ui::components::task_list_component::format_day_header(day), "\u{1F4CA} Wednesday - Jan 15");
}
