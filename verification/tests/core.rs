use terminalist::ai::tools::{run_tool, tool_loop_step, ToolCallLedger, ToolLoopStep, ToolRequest, ToolResult};
use terminalist::ai::{ProposedProject, ProposedTask, ProviderDestination, ProviderProposal};
use terminalist::entities::{project, task};
use terminalist::priority::TaskPriority;
use terminalist::ui::app_core::actions::{
    Action, AiExecutionReport, AiProjectDestination, AiProposedAction, AiProposedActionKind, AiTaskProposal, DialogType,
    SidebarSelection,
};
use terminalist::ui::app_core::operations::{Operation, TaskOperation};
use terminalist::ui::app_core::task_manager::TaskManager;
use terminalist::ui::components::dialogs::common::{
    input_viewport, move_multiline_cursor, multiline_input_layout, responsive_instruction_rows,
};
use terminalist::ui::components::dialogs::task_dialogs::{
    action_list_scroll, action_list_view, apply_confirmation_text, progress_notice, recommendation_max_scroll,
    report_lines, rows_of,
};

fn project(uuid: u128, name: &str) -> project::Model {
    project::Model {
        uuid,
        backend_uuid: 900,
        remote_id: format!("remote-{uuid}"),
        name: name.to_string(),
        is_favorite: false,
        is_inbox_project: false,
        order_index: 0,
        parent_uuid: None,
    }
}

fn task(uuid: u128, project_uuid: u128) -> task::Model {
    task::Model {
        uuid,
        backend_uuid: 900,
        remote_id: format!("remote-{uuid}"),
        content: "Task".into(),
        description: None,
        project_uuid,
        section_uuid: None,
        parent_uuid: None,
        priority: 1,
        order_index: 0,
        due_date: None,
        due_datetime: None,
        is_recurring: false,
        deadline: None,
        duration: None,
        is_completed: false,
        completed_at: None,
        is_deleted: false,
        deleted_at: None,
    }
}

#[test]
fn maps_named_priorities_to_todoist_values() {
    let cases = [
        (TaskPriority::Low, 1),
        (TaskPriority::Medium, 2),
        (TaskPriority::High, 3),
        (TaskPriority::Urgent, 4),
    ];

    for (priority, todoist_value) in cases {
        assert_eq!(priority.todoist_value(), todoist_value);
        assert_eq!(TaskPriority::from_todoist(todoist_value), priority);
    }
}

#[test]
fn priority_labels_and_unknown_values() {
    assert_eq!(TaskPriority::Urgent.label(), "urgent");
    assert_eq!(TaskPriority::Low.label(), "low");
    assert_eq!(TaskPriority::from_todoist(0), TaskPriority::Low);
    assert_eq!(TaskPriority::from_todoist(9), TaskPriority::Low);
}

#[test]
fn long_input_scrolls_to_keep_cursor_inside_field() {
    assert_eq!(input_viewport("abcdefghijklmnopqrstuvwxyz", 26, 10), (17, 9));
}

#[test]
fn short_input_does_not_scroll() {
    assert_eq!(input_viewport("task", 4, 10), (0, 4));
}

#[test]
fn viewport_uses_terminal_column_width_for_wide_characters() {
    assert_eq!(input_viewport("ab🙂cd", 5, 5), (2, 4));
}

#[test]
fn multiline_layout_tracks_wrapped_cursor_position() {
    assert_eq!(multiline_input_layout("abcdefgh", 8, 5), ("abcde\nfgh".to_string(), 1, 3));
}

#[test]
fn multiline_cursor_moves_between_visual_rows() {
    assert_eq!(move_multiline_cursor("abcdefgh", 7, 5, -1), 2);
    assert_eq!(move_multiline_cursor("abcdefgh", 2, 5, 1), 7);
}

#[test]
fn responsive_instructions_add_rows_instead_of_clipping() {
    let instructions = vec![
        ("j/k".to_string(), " select".to_string()),
        ("Space".to_string(), " enable/disable".to_string()),
        ("Enter".to_string(), " continue".to_string()),
        ("Esc".to_string(), " close".to_string()),
    ];
    let rows = responsive_instruction_rows(&instructions, 28);
    assert!(rows.len() > 1);
    let shown = rows.iter().flatten().map(|(i, _)| *i).collect::<Vec<_>>();
    assert_eq!(shown, vec![0, 1, 2, 3]);
    assert!(rows.iter().flatten().all(|(_, with_description)| *with_description));
}

#[test]
fn responsive_instructions_show_only_the_key_when_a_group_is_too_wide() {
    let instructions = vec![
        ("Enter".to_string(), " a description far too wide for the footer".to_string()),
        ("".to_string(), "".to_string()),
    ];
    let rows = responsive_instruction_rows(&instructions, 10);
    assert_eq!(rows, vec![vec![(0, false)]]);
    let empty = responsive_instruction_rows(&Vec::new(), 10);
    assert_eq!(empty, vec![Vec::new()]);
}

#[test]
fn mutation_classification_keeps_read_only_actions_available() {
    assert!(!Action::NextTask.is_mutation());
    assert!(!Action::NavigateToSidebar(SidebarSelection::Today).is_mutation());
    assert!(!Action::SearchTasks("needle".to_string()).is_mutation());
    assert!(!Action::ShowDialog(DialogType::Help).is_mutation());
}

#[test]
fn mutation_classification_includes_edit_entry_points_and_confirmations() {
    assert!(Action::CreateTask {
        content: "New task".to_string(),
        project_uuid: None,
        due_string: None,
        due_date: None,
        label_uuid: None,
    }
    .is_mutation());
    assert!(Action::ShowDialog(DialogType::TaskCreation {
        default_project_uuid: None,
        default_due_date: None,
        default_label_uuid: None,
    })
    .is_mutation());
    assert!(Action::ShowDialog(DialogType::DeleteConfirmation { item_type: "task".to_string(), item_uuid: 5 }).is_mutation());

    let task = task(1, 2);
    let proposal = AiTaskProposal::mock_for(&task, "Handled", Some(3));
    assert!(Action::AiApplyProposal { task: Box::new(task), proposal }.is_mutation());
}

#[test]
fn ai_proposal_validates_destination_and_forces_completion_last() {
    let task = task(1, 2);
    let missing_destination = AiTaskProposal::mock_for(&task, "Handled", None);
    assert!(missing_destination.validate().is_ok());

    let mut proposal = AiTaskProposal::mock_for(&task, "Handled", Some(3));
    proposal.actions.reverse();
    assert!(proposal.validate().is_ok());
    assert!(matches!(
        proposal.enabled_actions_in_execution_order().last().map(|action| &action.kind),
        Some(AiProposedActionKind::CompleteTask)
    ));
}

#[test]
fn proposal_without_enabled_actions_is_refused() {
    let task = task(1, 2);
    let mut proposal = AiTaskProposal::mock_for(&task, "Handled", Some(3));
    for action in proposal.actions.iter_mut() {
        action.enabled = false;
    }
    assert_eq!(proposal.validate(), Err("Select at least one proposed action.".to_string()));
}

#[test]
fn typed_operations_preserve_delimiter_content() {
    let operation = Operation::Task(TaskOperation::Create {
        content: "Review A|B: preserve this exactly".to_string(),
        project_uuid: Some(7),
        due_string: None,
        due_date: None,
        label_uuid: None,
    });

    match operation {
        Operation::Task(TaskOperation::Create { content, .. }) => {
            assert_eq!(content, "Review A|B: preserve this exactly");
        },
        _ => panic!("expected a typed task creation operation"),
    }
}

#[test]
fn maps_existing_and_proposed_destinations() {
    let existing = project(1, "Family");
    let proposal = ProviderProposal {
        summary: "Preserve the result and defer optional work.".into(),
        completion_note: Some("Explained the current workaround.".into()),
        projects_to_create: vec![ProposedProject { reference: "future".into(), name: "Future experiments".into() }],
        tasks_to_create: vec![
            ProposedTask {
                content: "Follow up".into(),
                description: "Preserve this follow-up.".into(),
                destination: ProviderDestination {
                    kind: "existing".into(),
                    project_uuid: Some(existing.uuid),
                    project_reference: None,
                    project_name: "ignored".into(),
                },
                priority: TaskPriority::Urgent,
            },
            ProposedTask {
                content: "Experiment".into(),
                description: "Try this later.".into(),
                destination: ProviderDestination {
                    kind: "proposed".into(),
                    project_uuid: None,
                    project_reference: Some("future".into()),
                    project_name: "Future experiments".into(),
                },
                priority: TaskPriority::Urgent,
            },
        ],
        move_original_to: None,
        complete_original: true,
    }
    .into_proposal(std::slice::from_ref(&existing))
    .unwrap();

    assert!(matches!(
        proposal.actions[2].kind,
        AiProposedActionKind::CreateTask { destination: AiProjectDestination::Existing { uuid, .. }, .. } if uuid == existing.uuid
    ));
    assert!(matches!(
        proposal.actions[3].kind,
        AiProposedActionKind::CreateTask { destination: AiProjectDestination::Proposed { ref reference, .. }, priority: 4, .. }
            if reference == "future"
    ));
}

#[test]
fn proposal_with_an_unknown_project_is_refused() {
    let proposal = ProviderProposal {
        summary: "Move it.".into(),
        completion_note: None,
        projects_to_create: Vec::new(),
        tasks_to_create: Vec::new(),
        move_original_to: Some(ProviderDestination {
            kind: "existing".into(),
            project_uuid: Some(99),
            project_reference: None,
            project_name: "Nowhere".into(),
        }),
        complete_original: false,
    }
    .into_proposal(&[project(1, "Family")]);
    assert_eq!(proposal.unwrap_err(), "AI selected an unknown project UUID");
}

#[test]
fn list_tasks_can_scope_to_project_or_all_projects() {
    let first = project(1, "First");
    let second = project(2, "Second");
    let projects = vec![first.clone(), second.clone()];
    let tasks = vec![task(10, first.uuid), task(11, second.uuid)];

    let scoped = run_tool(&ToolRequest::ListTasks { project_uuid: Some(first.uuid), include_completed: false }, &projects, &tasks);
    let all = run_tool(&ToolRequest::ListTasks { project_uuid: None, include_completed: false }, &projects, &tasks);

    assert_eq!(scoped, ToolResult::Tasks { indices: vec![0], truncated: false });
    assert_eq!(all, ToolResult::Tasks { indices: vec![0, 1], truncated: false });
}

#[test]
fn tools_search_case_insensitively_and_refuse_unknown_projects() {
    let projects = vec![project(1, "Family Errands"), project(2, "Work")];
    let mut described = task(11, 2);
    described.description = Some("Call the PLUMBER".to_string());
    let mut done = task(12, 2);
    done.content = "plumber invoice".to_string();
    done.is_completed = true;
    let tasks = vec![task(10, 1), described, done];

    assert_eq!(
        run_tool(&ToolRequest::ListProjects { query: Some("ERRANDS".to_string()) }, &projects, &tasks),
        ToolResult::Projects { indices: vec![0], truncated: false }
    );
    assert_eq!(
        run_tool(&ToolRequest::ListProjects { query: None }, &projects, &tasks),
        ToolResult::Projects { indices: vec![0, 1], truncated: false }
    );
    assert_eq!(
        run_tool(&ToolRequest::SearchTasks { query: "Plumber".to_string(), project_uuid: None, include_completed: false }, &projects, &tasks),
        ToolResult::Tasks { indices: vec![1], truncated: false }
    );
    assert_eq!(
        run_tool(&ToolRequest::SearchTasks { query: "plumber".to_string(), project_uuid: Some(2), include_completed: true }, &projects, &tasks),
        ToolResult::Tasks { indices: vec![1, 2], truncated: false }
    );
    assert_eq!(
        run_tool(&ToolRequest::ListTasks { project_uuid: Some(99), include_completed: true }, &projects, &tasks),
        ToolResult::Error("Unknown project UUID".to_string())
    );
    assert_eq!(run_tool(&ToolRequest::Unknown, &projects, &tasks), ToolResult::Error("Unknown read-only tool".to_string()));
}

#[test]
fn tools_return_at_most_fifty_items() {
    let projects = vec![project(1, "Only")];
    let tasks = (0..60).map(|i| task(100 + i, 1)).collect::<Vec<_>>();
    match run_tool(&ToolRequest::ListTasks { project_uuid: None, include_completed: false }, &projects, &tasks) {
        ToolResult::Tasks { indices, truncated } => {
            assert_eq!(indices, (0..50).collect::<Vec<_>>());
            assert!(truncated);
        },
        other => panic!("unexpected result: {other:?}"),
    }
}

#[test]
fn repeated_tool_calls_are_recognised() {
    let mut ledger = ToolCallLedger::new();
    assert!(ledger.record("list_tasks", "{}"));
    assert!(!ledger.record("list_tasks", "{}"));
    assert!(ledger.record("list_projects", "{}"));
    assert_eq!(ledger.seen, vec!["list_tasks:{}".to_string(), "list_projects:{}".to_string()]);
}

#[test]
fn tool_rounds_are_bounded() {
    assert_eq!(tool_loop_step(0, false), ToolLoopStep::ParseProposal);
    assert_eq!(tool_loop_step(3, true), ToolLoopStep::RunToolsAndContinue);
    assert_eq!(tool_loop_step(4, true), ToolLoopStep::ExceededRounds);
}

#[test]
fn test_task_manager_creation() {
    let task_manager = TaskManager::new();
    assert_eq!(task_manager.task_count(), 0);
    assert!(!task_manager.is_syncing());
}

#[test]
fn task_operations_expose_blocking_status_immediately() {
    let mut manager = TaskManager::new();
    manager.spawn_task_operation("Completing 2 tasks".to_string());

    assert!(manager.has_blocking_work());
    assert_eq!(manager.processing_description().as_deref(), Some("Completing 2 tasks"));
    manager.cancel_all_tasks();
    assert_eq!(manager.task_count(), 0);
}

#[test]
fn non_blocking_task_operations_keep_input_responsive() {
    let mut manager = TaskManager::new();
    let task_uuid = 42;
    manager.spawn_non_blocking_task_operation(task_uuid, "Complete task".to_string());

    assert!(!manager.has_blocking_work());
    assert!(manager.has_pending_operation_for_task(task_uuid));
    assert_eq!(manager.processing_description().as_deref(), Some("Complete task"));
    manager.cancel_all_tasks();
}

#[test]
fn finished_work_is_cleaned_up() {
    let mut manager = TaskManager::new();
    let first = manager.spawn_task_operation("First".to_string());
    let second = manager.spawn_sync();
    assert_eq!(manager.task_count(), 2);
    assert!(manager.is_syncing());
    let removed = manager.cleanup_finished_tasks(&vec![second]);
    assert_eq!(removed, vec![second]);
    assert_eq!(manager.task_count(), 1);
    assert!(!manager.is_syncing());
    manager.cleanup_finished_tasks(&vec![first]);
    assert_eq!(manager.task_count(), 0);
}

#[test]
fn selected_third_action_remains_visible_after_wrapped_actions() {
    let long_note = "This deliberately long action wraps across several terminal rows so the selected action below it must be located using rendered rows rather than its list index.".repeat(3);
    let proposal = AiTaskProposal {
        summary: "Review the actions.".to_string(),
        actions: vec![
            AiProposedAction { enabled: true, kind: AiProposedActionKind::AddCompletionNote { content: long_note.clone() } },
            AiProposedAction { enabled: true, kind: AiProposedActionKind::AddCompletionNote { content: long_note } },
            AiProposedAction { enabled: true, kind: AiProposedActionKind::CompleteTask },
            AiProposedAction {
                enabled: true,
                kind: AiProposedActionKind::CreateProject { reference: "later".to_string(), name: "Potential Future Tasks".to_string() },
            },
        ],
    };
    let view = action_list_view(&proposal, 60, 2, 8);
    assert_eq!(view.blocks.len(), 4);
    assert_eq!(view.blocks[2], "[x] Complete the original task");
    assert_eq!(view.selected_height, 1);
    assert!(view.row_scroll <= view.selected_start);
    assert!(view.selected_start + view.selected_height <= view.row_scroll + 8);
    assert_eq!(view.total_rows, view.blocks.iter().map(|b| rows_of(b)).sum::<usize>());
    assert_eq!(progress_notice(4, 2), "Action 3 of 4 · ↓ More actions below");
    assert_eq!(progress_notice(4, 3), "Action 4 of 4 · End of actions");
    assert_eq!(progress_notice(0, 0), "No proposed actions.");
}

#[test]
fn action_list_scroll_keeps_the_selection_in_view() {
    assert_eq!(action_list_scroll(0, 2, 5, 20), 0);
    assert_eq!(action_list_scroll(10, 2, 5, 20), 7);
    assert_eq!(action_list_scroll(10, 8, 5, 20), 10);
    assert_eq!(action_list_scroll(18, 2, 5, 20), 15);
}

#[test]
fn ai_recommendation_page_uses_the_full_review_area() {
    let summary = "First paragraph explaining the recommendation in detail.\n\nFinal recommendation remains visible.";
    assert_eq!(recommendation_max_scroll(summary, 80, 20), 0);
    assert_eq!(recommendation_max_scroll(summary, 20, 2), 4);
}

#[test]
fn ai_task_management_dialog_renders_partial_failure_report() {
    let report = AiExecutionReport::failed(
        vec!["Add completion note".to_string()],
        "Create successor: network unavailable".to_string(),
    );
    assert_eq!(
        report_lines(Some(&report)),
        vec![
            "Proposal stopped before all actions completed.".to_string(),
            String::new(),
            "Completed actions:".to_string(),
            "• Add completion note".to_string(),
            String::new(),
            "Stopped: Create successor: network unavailable".to_string(),
        ]
    );
    let success = AiExecutionReport::success(Vec::new());
    assert_eq!(report_lines(Some(&success))[3], "• None");
    assert_eq!(report_lines(None), vec!["No execution report available.".to_string()]);
}

#[test]
fn apply_confirmation_counts_enabled_actions() {
    let task = task(1, 2);
    let mut proposal = AiTaskProposal::mock_for(&task, "Handled", Some(3));
    proposal.actions[0].enabled = false;
    let enabled = proposal.actions.iter().filter(|a| a.enabled).count();
    assert!(apply_confirmation_text(Some(&proposal)).starts_with(&format!("Apply {enabled} approved action(s) to Todoist?")));
    assert!(apply_confirmation_text(None).starts_with("Apply 0 approved action(s)"));
}

#[test]
fn wrapping_only_inserts_line_breaks() {
    let input = "hello world\nagain";
    let (rendered, _, _) = multiline_input_layout(input, 0, 4);
    assert_eq!(rendered.replace('\n', ""), input.replace('\n', ""));
    assert!(rendered.matches('\n').count() >= input.matches('\n').count());
}

#[test]
fn vertical_move_lands_on_the_closest_column_of_the_next_row() {
    let input = "abcdefgh";
    // At width 4 the rows are "abcd" and "efgh"; the cursor after "ab" is at row 0, column 2.
    let (_, row0, col0) = multiline_input_layout(input, 2, 4);
    let r = move_multiline_cursor(input, 2, 4, 1);
    let (_, row1, col1) = multiline_input_layout(input, r, 4);
    assert_eq!(row1, row0 + 1);
    assert_eq!(col1, col0);
}

#[test]
fn wrapped_ascii_lines_fit_the_width() {
    let input = "a fairly long line of plain text\nand another";
    let (rendered, _, col) = multiline_input_layout(input, 100, 7);
    assert!(rendered.split('\n').all(|line| line.chars().count() <= 7));
    assert!(col < 7);
}
