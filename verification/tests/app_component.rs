use terminalist::entities::{label, project};
use terminalist::ui::app_component::{
    adjacent_smart_view, ai_apply_finish, ai_apply_step, handle_smart_view_mouse, shortcut_bar_items, single_task_completion,
    smart_view_rects, AiApplyNext, AppComponent, Effect, ScreenLayout,
};
use terminalist::ui::app_core::actions::{Action, DialogType, NavigationCounts, SidebarSelection};
use terminalist::ui::app_core::view_snapshot::ViewSnapshot;
use terminalist::ui::components::task_list_component::{Area, Key, Mouse, MouseKind};

const SMART_VIEW_BAR_HEIGHT: u16 = 3;

fn test_app() -> AppComponent {
    AppComponent::new(true, "inbox".to_string(), false, ScreenLayout::new(30, 20, 40, None))
}

fn snapshot(generation: u64, selection: SidebarSelection, projects: Vec<project::Model>) -> ViewSnapshot {
    ViewSnapshot {
        generation,
        selection,
        is_initial: false,
        projects,
        labels: Vec::new(),
        sections: Vec::new(),
        tasks: Vec::new(),
        all_tasks: Vec::new(),
        navigation_counts: NavigationCounts::default(),
    }
}

fn project_named(uuid: u128, name: &str) -> project::Model {
    project::Model {
        uuid,
        backend_uuid: 900,
        remote_id: name.to_string(),
        name: name.to_string(),
        is_favorite: false,
        is_inbox_project: false,
        order_index: 0,
        parent_uuid: None,
    }
}

#[test]
fn only_single_task_completion_uses_the_non_blocking_path() {
    let pending_task = 1;
    let other_task = 2;

    assert_eq!(single_task_completion(&[(pending_task, false)]), Some(pending_task));
    assert_eq!(single_task_completion(&[(pending_task, true)]), None);
    assert_eq!(single_task_completion(&[(pending_task, false), (other_task, false)]), None);
}

#[test]
fn trash_shortcut_bar_replaces_task_actions_with_restore_actions() {
    let shortcuts = shortcut_bar_items(SidebarSelection::Trash);

    assert!(shortcuts.contains(&("d", "restore")));
    assert!(shortcuts.contains(&("D", "empty trash")));
    assert!(!shortcuts.iter().any(|(_, label)| *label == "sidebar"));
    assert!(!shortcuts.iter().any(|(_, label)| ["toggle complete", "add", "today"].contains(label)));
}

#[test]
fn arrow_navigation_cycles_smart_views_and_enters_from_sidebar() {
    assert_eq!(adjacent_smart_view(SidebarSelection::Today, false), SidebarSelection::Trash);
    assert_eq!(adjacent_smart_view(SidebarSelection::Trash, true), SidebarSelection::Today);
    assert_eq!(adjacent_smart_view(SidebarSelection::Project(5), true), SidebarSelection::Today);
    assert_eq!(adjacent_smart_view(SidebarSelection::Label(6), false), SidebarSelection::Trash);
}

#[test]
fn stepping_forward_and_back_returns_to_the_view() {
    for view in [
        SidebarSelection::Today,
        SidebarSelection::Agenda,
        SidebarSelection::Tomorrow,
        SidebarSelection::Upcoming,
        SidebarSelection::Trash,
    ] {
        assert_eq!(adjacent_smart_view(adjacent_smart_view(view, true), false), view);
    }
}

#[test]
fn smart_view_bar_click_selects_the_clicked_view() {
    let area = Area { x: 0, y: 0, width: 100, height: SMART_VIEW_BAR_HEIGHT };
    let agenda = smart_view_rects(area)[1];
    let action = handle_smart_view_mouse(Mouse { kind: MouseKind::LeftDown, column: agenda.0, row: agenda.1 }, area);

    assert!(matches!(action, Action::NavigateToSidebar(SidebarSelection::Agenda)));
    let ignored = handle_smart_view_mouse(Mouse { kind: MouseKind::ScrollDown, column: agenda.0, row: agenda.1 }, area);
    assert!(matches!(ignored, Action::Noop));
}

#[test]
fn clicking_collapsed_sidebar_rail_expands_it() {
    let mut app = AppComponent::new(true, "inbox".to_string(), true, ScreenLayout::new(30, 20, 40, None));
    app.layout.sidebar_width = 3;
    app.layout.main_content = Area { x: 0, y: SMART_VIEW_BAR_HEIGHT, width: 100, height: 15 };

    let (action, _) = app.route_mouse(Mouse { kind: MouseKind::LeftDown, column: 2, row: SMART_VIEW_BAR_HEIGHT + 1 });
    assert!(matches!(action, Action::ToggleSidebar));
    let (_, effects) = app.dispatch(action);

    assert!(!app.sidebar_collapsed);
    assert!(matches!(effects.as_slice(), [Effect::PersistUiState { sidebar_collapsed: false }]));
}

#[test]
fn dragging_the_sidebar_edge_resizes_within_limits() {
    let mut app = test_app();
    app.layout.sidebar_width = 30;
    app.layout.main_content = Area { x: 0, y: SMART_VIEW_BAR_HEIGHT, width: 100, height: 15 };

    app.route_mouse(Mouse { kind: MouseKind::LeftDown, column: 31, row: 5 });
    assert!(app.layout.resizing_sidebar);
    app.route_mouse(Mouse { kind: MouseKind::Drag, column: 95, row: 5 });
    assert_eq!(app.layout.sidebar_width_override, Some(60));
    app.route_mouse(Mouse { kind: MouseKind::Drag, column: 5, row: 5 });
    assert_eq!(app.layout.sidebar_width_override, Some(20));
    let (_, effects) = app.route_mouse(Mouse { kind: MouseKind::LeftUp, column: 5, row: 5 });
    assert!(!app.layout.resizing_sidebar);
    assert_eq!(effects.len(), 1);

    app.resize(50, 20);
    assert_eq!(app.layout.sidebar_width, 10);
    assert_eq!(app.layout.screen_width, 50);
}

#[test]
fn stale_view_snapshot_cannot_replace_the_latest_navigation_result() {
    let mut app = test_app();
    app.latest_requested_generation = 2;
    app.state.sidebar_selection = SidebarSelection::Tomorrow;

    app.handle_app_action(Action::DataLoaded(Box::new(snapshot(2, SidebarSelection::Tomorrow, vec![project_named(1, "Latest")]))));
    app.handle_app_action(Action::DataLoaded(Box::new(snapshot(1, SidebarSelection::Today, vec![project_named(2, "Stale")]))));

    assert_eq!(app.latest_applied_generation, 2);
    assert_eq!(app.state.projects[0].name, "Latest");
}

#[test]
fn current_load_failure_preserves_the_last_accepted_snapshot() {
    let mut app = test_app();
    app.latest_requested_generation = 3;
    app.state.sidebar_selection = SidebarSelection::Upcoming;
    app.state.projects = vec![project_named(1, "Still visible")];

    let (follow_up, _) = app.handle_app_action(Action::DataLoadFailed {
        generation: 3,
        selection: SidebarSelection::Upcoming,
        message: "offline".to_string(),
    });

    assert!(matches!(follow_up, Action::ShowDialog(DialogType::Error(_))));
    assert_eq!(app.state.projects[0].name, "Still visible");
    assert_eq!(app.state.error_message.as_deref(), Some("offline"));
}

#[test]
fn empty_trash_snapshot_keeps_trash_selected() {
    let mut app = test_app();
    app.latest_requested_generation = 1;
    app.state.sidebar_selection = SidebarSelection::Trash;

    app.handle_app_action(Action::DataLoaded(Box::new(snapshot(1, SidebarSelection::Trash, Vec::new()))));

    assert_eq!(app.state.sidebar_selection, SidebarSelection::Trash);
    assert!(app.state.tasks.is_empty());
}

#[test]
fn task_operation_refreshes_an_open_search_query() {
    let mut app = test_app();
    app.dialog.dialog_type = Some(DialogType::TaskSearch);
    app.dialog.input_buffer = "needle".to_string();

    let (_, effects) = app.handle_app_action(Action::RefreshData);

    assert_eq!(app.task_manager.task_count(), 2);
    assert_eq!(effects.len(), 2);
    assert!(effects.iter().any(|e| matches!(e, Effect::SearchTasks { query, .. } if query == "needle")));
}

#[test]
fn quit_key_stops_the_application() {
    let mut app = test_app();
    let action = app.route_key(Key::Char('q'), false);
    app.dispatch(action);
    assert!(app.should_quit());
}

fn label_named(uuid: u128, name: &str) -> label::Model {
    label::Model {
        uuid,
        backend_uuid: 900,
        remote_id: name.to_string(),
        name: name.to_string(),
        order_index: 0,
        is_favorite: false,
    }
}

#[test]
fn bracket_keys_navigate_sidebar_items() {
    let mut app = test_app();
    app.state.labels = vec![label_named(11, "First"), label_named(12, "Second")];
    assert!(matches!(app.route_key(Key::Char(']'), false), Action::NavigateToSidebar(SidebarSelection::Label(11))));
    assert!(matches!(app.route_key(Key::Char('['), false), Action::NavigateToSidebar(SidebarSelection::Label(12))));
}

#[test]
fn uppercase_navigation_keys_remain_available() {
    let mut app = test_app();
    app.state.labels = vec![label_named(11, "First"), label_named(12, "Second")];
    assert!(matches!(app.route_key(Key::Char('J'), false), Action::NavigateToSidebar(SidebarSelection::Label(11))));
    assert!(matches!(app.route_key(Key::Char('K'), false), Action::NavigateToSidebar(SidebarSelection::Label(12))));
}

#[test]
fn sidebar_keys_step_from_the_selected_entry_and_go_round() {
    let mut app = test_app();
    app.state.projects = vec![project_named(1, "Work")];
    app.state.labels = vec![label_named(11, "First")];
    app.state.sidebar_selection = SidebarSelection::Project(1);
    assert!(matches!(app.route_key(Key::Char(']'), false), Action::NavigateToSidebar(SidebarSelection::Label(11))));
    app.state.sidebar_selection = SidebarSelection::Label(11);
    assert!(matches!(app.route_key(Key::Char(']'), false), Action::NavigateToSidebar(SidebarSelection::Project(1))));
    assert!(matches!(app.route_key(Key::Char('K'), false), Action::NavigateToSidebar(SidebarSelection::Project(1))));
}

#[test]
fn task_creation_draft_survives_a_refresh() {
    let mut app = test_app();
    let mut inbox = project_named(1, "Inbox");
    inbox.is_inbox_project = true;
    app.dialog.update_data(vec![inbox], Vec::new());
    app.dispatch(Action::ShowDialog(DialogType::TaskCreation {
        default_project_uuid: None,
        default_due_date: None,
        default_label_uuid: None,
    }));
    for c in "Water plants".chars() {
        app.route_key(Key::Char(c), false);
    }
    app.task_manager.spawn_task_operation("Refreshing".to_string());
    assert!(matches!(app.route_key(Key::Enter, false), Action::Noop));
    assert!(matches!(app.dialog.dialog_type, Some(DialogType::TaskCreation { .. })));
    assert_eq!(app.dialog.input_buffer, "Water plants");
}

#[test]
fn applying_a_proposal_stops_at_the_first_failure() {
    let done = match ai_apply_step(Vec::new(), "Create project Home".to_string(), Ok(())) {
        AiApplyNext::Continue(d) => d,
        AiApplyNext::Finished(_) => panic!("the first step succeeded"),
    };
    assert_eq!(done, vec!["Create project Home".to_string()]);
    match ai_apply_step(done.clone(), "Move task".to_string(), Err("offline".to_string())) {
        AiApplyNext::Finished(report) => {
            assert_eq!(report.completed_actions, vec!["Create project Home".to_string()]);
            assert_eq!(report.failure, Some("Move task: offline".to_string()));
        },
        AiApplyNext::Continue(_) => panic!("the step failed"),
    }
    let report = ai_apply_finish(done);
    assert_eq!(report.completed_actions.len(), 1);
    assert_eq!(report.failure, None);
}
