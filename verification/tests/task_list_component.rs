use terminalist::ui::components::agenda::parse_task_datetime;
use terminalist::datetime;
use terminalist::entities::{label, project, task};
use terminalist::ui::app_core::actions::{Action, DialogType, SidebarSelection, TaskDueDate};
use terminalist::ui::components::task_list_component::{Key, TaskListComponent, TaskListItemType};

fn project(uuid: u128) -> project::Model {
    project::Model {
        uuid,
        backend_uuid: 900,
        remote_id: "project".to_string(),
        name: "Test".to_string(),
        is_favorite: false,
        is_inbox_project: false,
        order_index: 0,
        parent_uuid: None,
    }
}

fn task(uuid: u128, content: &str, project_uuid: u128, is_completed: bool) -> task::Model {
    task::Model {
        uuid,
        backend_uuid: 900,
        remote_id: content.to_string(),
        content: content.to_string(),
        description: None,
        project_uuid,
        section_uuid: None,
        parent_uuid: None,
        priority: 1,
        order_index: 0,
        due_date: None,
        due_datetime: None,
        is_recurring: false,
        deadline: None,
        duration: None,
        is_completed,
        completed_at: None,
        is_deleted: false,
        deleted_at: None,
    }
}

fn component_with_tasks(tasks: Vec<task::Model>, project: project::Model) -> TaskListComponent {
    let mut component = TaskListComponent::new();
    let project_uuid = project.uuid;
    component.update_data(tasks, Vec::new(), vec![project], Vec::new(), SidebarSelection::Project(project_uuid));
    component
}

#[test]
fn test_task_list_component_creation() {
    let task_list = TaskListComponent::new();
    assert!(task_list.items.is_empty());
    assert_eq!(task_list.marked_task_count(), 0);
}

#[test]
fn enter_opens_details_for_selected_task() {
    let project = project(1);
    let component_task = task(10, "A complete task title", project.uuid, false);
    let mut component = component_with_tasks(vec![component_task.clone()], project);

    let action = component.handle_key_events(Key::Enter);

    assert!(matches!(
        action,
        Action::ShowDialog(DialogType::TaskDetails { task }) if task.uuid == component_task.uuid
    ));
}

#[test]
fn space_still_toggles_selected_task() {
    let project = project(1);
    let component_task = task(10, "toggle me", project.uuid, false);
    let task_uuid = component_task.uuid;
    let mut component = component_with_tasks(vec![component_task], project);

    let action = component.handle_key_events(Key::Char(' '));

    assert!(matches!(action, Action::ToggleTasks(tasks) if tasks == vec![(task_uuid, false)]));
}

#[test]
fn agenda_assigns_local_suggestions_and_preserves_real_times() {
    let project = project(1);
    let mut timed = task(10, "timed", project.uuid, false);
    timed.due_date = Some(datetime::format_today());
    timed.due_datetime = Some(datetime::today_at_time("11:30pm").unwrap());
    let mut first = task(11, "first", project.uuid, false);
    first.due_date = Some(datetime::format_today());
    let mut second = task(12, "second", project.uuid, false);
    second.due_date = Some(datetime::format_today());

    let mut component = TaskListComponent::new();
    component.update_data(vec![timed, first, second], Vec::new(), vec![project], Vec::new(), SidebarSelection::Agenda);

    let agenda = component
        .items
        .iter()
        .filter_map(|item| match item {
            TaskListItemType::Task(item) => Some((item.task.content.as_str(), item.agenda_time.clone().unwrap())),
            _ => None,
        })
        .collect::<Vec<_>>();
    assert_eq!(agenda.len(), 3);
    assert_eq!(agenda.iter().find(|(name, _)| *name == "timed").unwrap().1, ("11:30pm".to_string(), false));
    assert!(agenda.iter().find(|(name, _)| *name == "first").unwrap().1 .1);
    assert!(agenda.iter().find(|(name, _)| *name == "second").unwrap().1 .1);
}

#[test]
fn agenda_set_time_key_opens_the_time_dialog() {
    let project = project(1);
    let mut selected = task(10, "selected", project.uuid, false);
    selected.due_date = Some(datetime::format_today());
    let selected_uuid = selected.uuid;
    let mut component = TaskListComponent::new();
    component.update_data(vec![selected], Vec::new(), vec![project], Vec::new(), SidebarSelection::Agenda);

    assert!(matches!(
        component.handle_key_events(Key::Char('s')),
        Action::ShowDialog(DialogType::TaskTime { task_uuid, current_time: None }) if task_uuid == selected_uuid
    ));
}

#[test]
fn task_creation_inherits_the_current_list_context() {
    let project = project(1);
    let label = label::Model {
        uuid: 2,
        backend_uuid: 900,
        remote_id: "label".to_string(),
        name: "Test label".to_string(),
        order_index: 0,
        is_favorite: false,
    };

    let cases = [
        (SidebarSelection::Today, None, Some(datetime::format_today()), None),
        (SidebarSelection::Tomorrow, None, Some(datetime::format_date_with_offset(1)), None),
        (SidebarSelection::Upcoming, None, None, None),
        (SidebarSelection::Project(project.uuid), Some(project.uuid), None, None),
        (SidebarSelection::Label(label.uuid), None, None, Some(label.uuid)),
    ];

    for (selection, expected_project, expected_due_date, expected_label) in cases {
        let mut component = TaskListComponent::new();
        component.update_data(Vec::new(), Vec::new(), vec![project.clone()], vec![label.clone()], selection);

        match component.handle_key_events(Key::Char('a')) {
            Action::ShowDialog(DialogType::TaskCreation { default_project_uuid, default_due_date, default_label_uuid }) => {
                assert_eq!(default_project_uuid, expected_project);
                assert_eq!(default_due_date, expected_due_date);
                assert_eq!(default_label_uuid, expected_label);
            },
            other => panic!("unexpected action: {other:?}"),
        }
    }
}

#[test]
fn today_shows_a_matching_subtask_when_its_parent_is_filtered_out() {
    let project = project(1);
    let parent = task(10, "Parent task", project.uuid, false);
    let mut subtask = task(11, "Due subtask", project.uuid, false);
    subtask.parent_uuid = Some(parent.uuid);
    subtask.due_date = Some(datetime::format_today());

    let mut component = TaskListComponent::new();
    component.update_all_tasks(vec![parent, subtask.clone()]);
    component.update_data(vec![subtask], Vec::new(), vec![project], Vec::new(), SidebarSelection::Today);

    assert_eq!(component.visible_incomplete_task_count(), 1);
    let visible_subtask = component.items.iter().find_map(|item| match item {
        TaskListItemType::Task(item) => Some(item),
        _ => None,
    });
    assert_eq!(visible_subtask.and_then(|item| item.parent_context.as_deref()), Some("Parent task"));
}

#[test]
fn today_shows_an_unscheduled_task_completed_today() {
    let project = project(1);
    let mut completed = task(10, "Completed from search", project.uuid, true);
    completed.completed_at = Some(chrono::Utc::now().to_rfc3339());

    let mut component = TaskListComponent::new();
    component.update_data(vec![completed], Vec::new(), vec![project], Vec::new(), SidebarSelection::Today);

    assert!(component
        .items
        .iter()
        .any(|item| matches!(item, TaskListItemType::Task(item) if item.task.content == "Completed from search")));
}

#[test]
fn visible_count_excludes_completed_and_deleted_tasks() {
    let project = project(1);
    let pending = task(10, "pending", project.uuid, false);
    let completed = task(11, "completed", project.uuid, true);
    let mut deleted = task(12, "deleted", project.uuid, false);
    deleted.is_deleted = true;
    let component = component_with_tasks(vec![pending, completed, deleted], project);

    assert_eq!(component.visible_incomplete_task_count(), 1);
}

#[test]
fn trash_lists_deleted_tasks_and_d_restores_the_selected_task() {
    let project = project(1);
    let mut deleted = task(10, "deleted", project.uuid, false);
    deleted.is_deleted = true;
    deleted.deleted_at = Some(chrono::Utc::now().to_rfc3339());
    let deleted_uuid = deleted.uuid;
    let mut component = TaskListComponent::new();
    component.update_data(vec![deleted], Vec::new(), vec![project], Vec::new(), SidebarSelection::Trash);

    assert!(component
        .items
        .iter()
        .any(|item| matches!(item, TaskListItemType::Task(item) if item.task.uuid == deleted_uuid)));
    assert_eq!(component.visible_incomplete_task_count(), 1);
    assert!(matches!(component.handle_key_events(Key::Char('d')), Action::RestoreTask(uuid) if uuid == deleted_uuid));
    assert!(matches!(component.handle_key_events(Key::Char('a')), Action::Noop));
}

#[test]
fn marks_tasks_and_unschedules_all_marked_tasks() {
    let project = project(1);
    let first = task(10, "first", project.uuid, false);
    let second = task(11, "second", project.uuid, false);
    let mut component = component_with_tasks(vec![first.clone(), second.clone()], project);

    component.handle_key_events(Key::Char('x'));
    component.handle_key_events(Key::Char('j'));
    component.handle_key_events(Key::Char('x'));
    assert_eq!(component.marked_task_count(), 2);

    let action = component.handle_key_events(Key::Char('u'));
    match action {
        Action::SetTasksDueDate { task_ids, due_date } => {
            assert!(matches!(due_date, TaskDueDate::Unscheduled));
            assert_eq!(task_ids.len(), 2);
            assert!(task_ids.contains(&first.uuid));
            assert!(task_ids.contains(&second.uuid));
        },
        other => panic!("unexpected action: {other:?}"),
    }
    assert_eq!(component.marked_task_count(), 0);
}

#[test]
fn completion_toggles_each_marked_task_according_to_its_state() {
    let project = project(1);
    let pending = task(10, "pending", project.uuid, false);
    let completed = task(11, "completed", project.uuid, true);
    let mut component = component_with_tasks(vec![pending.clone(), completed.clone()], project);

    component.handle_key_events(Key::Char('x'));
    component.handle_key_events(Key::Char('j'));
    component.handle_key_events(Key::Char('x'));

    let action = component.handle_key_events(Key::Char(' '));
    match action {
        Action::ToggleTasks(tasks) => {
            assert!(tasks.contains(&(pending.uuid, false)));
            assert!(tasks.contains(&(completed.uuid, true)));
        },
        other => panic!("unexpected action: {other:?}"),
    }
}

#[test]
fn escape_clears_marks_without_quitting() {
    let project = project(1);
    let mut component = component_with_tasks(vec![task(10, "first", project.uuid, false)], project);

    component.handle_key_events(Key::Char('x'));
    let action = component.handle_key_events(Key::Esc);

    assert!(matches!(action, Action::Consumed));
    assert_eq!(component.marked_task_count(), 0);
}

#[test]
fn marking_twice_leaves_no_mark() {
    let project = project(1);
    let mut component = component_with_tasks(vec![task(10, "first", project.uuid, false)], project);

    component.handle_key_events(Key::Char('x'));
    assert_eq!(component.marked_task_count(), 1);
    component.handle_key_events(Key::Char('x'));
    assert_eq!(component.marked_task_count(), 0);
}

#[test]
fn moving_down_then_up_returns_to_the_first_task() {
    let project = project(1);
    let mut component = component_with_tasks(
        vec![task(10, "first", project.uuid, false), task(11, "second", project.uuid, false)],
        project,
    );
    assert_eq!(component.selected_index, 0);
    component.handle_key_events(Key::Char('j'));
    assert_eq!(component.selected_index, 1);
    component.handle_key_events(Key::Char('k'));
    assert_eq!(component.selected_index, 0);
}

#[test]
fn task_due_times_parse_in_both_forms() {
    // 2025-01-15T10:30:00Z is 1736937000 seconds after the epoch; local time is within a day of it.
    let v = parse_task_datetime("2025-01-15T10:30:00Z").expect("RFC 3339 parses");
    assert!((v - 1_736_937_000).abs() < 86_400);
    // The offset-free form is read as the same wall-clock time.
    assert_eq!(parse_task_datetime("2025-01-15T10:30:00"), Some(1_736_937_000));
    assert_eq!(parse_task_datetime("not a time"), None);
}
