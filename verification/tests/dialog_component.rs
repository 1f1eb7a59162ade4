use terminalist::entities::{project, task};
use terminalist::ui::app_core::actions::{Action, AiAssistStage, AiProposalPage, AiTaskProposal, DialogType};
use terminalist::ui::components::dialog_component::DialogComponent;
use terminalist::ui::components::task_list_component::Key;

fn search_task(uuid: u128, content: &str) -> task::Model {
    task::Model {
        uuid,
        backend_uuid: 900,
        remote_id: format!("remote-{uuid}"),
        content: content.to_string(),
        description: None,
        project_uuid: 500 + uuid,
        section_uuid: None,
        parent_uuid: None,
        priority: 1,
        order_index: 0,
        due_date: None,
        due_datetime: None,
        is_recurring: false,
        deadline: None,
        duration: None,
        is_completed: false,
        completed_at: None,
        is_deleted: false,
        deleted_at: None,
    }
}

fn follow_up_project() -> project::Model {
    project::Model {
        uuid: 77,
        backend_uuid: 900,
        remote_id: "follow-up".to_string(),
        name: "Follow-up".to_string(),
        is_favorite: false,
        is_inbox_project: false,
        order_index: 0,
        parent_uuid: None,
    }
}

fn type_text(dialog: &mut DialogComponent, text: &str) {
    for character in text.chars() {
        dialog.handle_key_events(Key::Char(character));
    }
}

#[test]
fn test_dialog_component_creation() {
    let dialog = DialogComponent::new();
    assert!(dialog.dialog_type.is_none());
    assert!(!dialog.is_visible());
}

#[test]
fn task_creation_collects_a_separate_recurring_schedule() {
    let mut dialog = DialogComponent::new();
    dialog.update(Action::ShowDialog(DialogType::TaskCreation {
        default_project_uuid: None,
        default_due_date: Some("2026-08-03".to_string()),
        default_label_uuid: None,
    }));

    type_text(&mut dialog, "Water plants");
    dialog.handle_key_events(Key::Down);
    type_text(&mut dialog, "every Saturday");

    let action = dialog.handle_key_events(Key::Enter);

    assert!(matches!(
        action,
        Action::CreateTask { content, due_string: Some(due_string), due_date: None, .. }
            if content == "Water plants" && due_string == "every Saturday"
    ));
}

#[test]
fn task_creation_keeps_the_default_date_when_schedule_is_empty() {
    let mut dialog = DialogComponent::new();
    dialog.update(Action::ShowDialog(DialogType::TaskCreation {
        default_project_uuid: None,
        default_due_date: Some("2026-08-03".to_string()),
        default_label_uuid: None,
    }));
    dialog.handle_key_events(Key::Char('x'));

    let action = dialog.handle_key_events(Key::Enter);

    assert!(matches!(
        action,
        Action::CreateTask { due_string: None, due_date: Some(due_date), .. } if due_date == "2026-08-03"
    ));
}

#[test]
fn test_search_result_navigation_is_bounded() {
    let mut dialog = DialogComponent::new();
    dialog.dialog_type = Some(DialogType::TaskSearch);
    dialog.search_results = vec![search_task(1, "first"), search_task(2, "second")];

    dialog.handle_key_events(Key::Down);
    assert!(dialog.search_results_focused);
    assert_eq!(dialog.search_selected_index, 0);
    dialog.handle_key_events(Key::Down);
    assert_eq!(dialog.search_selected_index, 1);
    dialog.handle_key_events(Key::Down);
    assert_eq!(dialog.search_selected_index, 1);

    dialog.handle_key_events(Key::Up);
    assert_eq!(dialog.search_selected_index, 0);
    dialog.handle_key_events(Key::Up);
    assert!(!dialog.search_results_focused);
    assert_eq!(dialog.search_selected_index, 0);
}

#[test]
fn test_all_letters_are_entered_while_search_input_is_focused() {
    let mut dialog = DialogComponent::new();
    dialog.dialog_type = Some(DialogType::TaskSearch);

    for character in 'a'..='z' {
        let action = dialog.handle_key_events(Key::Char(character));
        assert!(matches!(action, Action::SearchTasks(_)));
    }

    assert_eq!(dialog.input_buffer, "abcdefghijklmnopqrstuvwxyz");
    assert_eq!(dialog.cursor_position, 26);
}

#[test]
fn test_t_sets_selected_search_result_due_today() {
    let mut dialog = DialogComponent::new();
    dialog.dialog_type = Some(DialogType::TaskSearch);
    dialog.search_results = vec![search_task(1, "first"), search_task(2, "second")];
    dialog.search_selected_index = 1;
    dialog.search_results_focused = true;
    let selected_uuid = dialog.search_results[1].uuid;

    let action = dialog.handle_key_events(Key::Char('t'));

    assert!(matches!(action, Action::SetTaskDueToday(uuid) if uuid == selected_uuid));
}

#[test]
fn test_space_toggles_selected_incomplete_search_result() {
    let mut dialog = DialogComponent::new();
    dialog.dialog_type = Some(DialogType::TaskSearch);
    dialog.search_results = vec![search_task(1, "first"), search_task(2, "second")];
    dialog.search_selected_index = 1;
    dialog.search_results_focused = true;
    let selected_uuid = dialog.search_results[1].uuid;

    let action = dialog.handle_key_events(Key::Char(' '));

    assert!(matches!(action, Action::ToggleTasks(tasks) if tasks == vec![(selected_uuid, false)]));
}

#[test]
fn test_space_toggles_selected_completed_search_result() {
    let mut dialog = DialogComponent::new();
    dialog.dialog_type = Some(DialogType::TaskSearch);
    let mut completed = search_task(1, "completed");
    completed.is_completed = true;
    let selected_uuid = completed.uuid;
    dialog.search_results = vec![completed];
    dialog.search_results_focused = true;

    let action = dialog.handle_key_events(Key::Char(' '));

    assert!(matches!(action, Action::ToggleTasks(tasks) if tasks == vec![(selected_uuid, true)]));
}

#[test]
fn test_space_is_search_text_while_query_is_focused() {
    let mut dialog = DialogComponent::new();
    dialog.dialog_type = Some(DialogType::TaskSearch);

    let action = dialog.handle_key_events(Key::Char(' '));

    assert!(matches!(action, Action::SearchTasks(query) if query == " "));
    assert_eq!(dialog.input_buffer, " ");
}

#[test]
fn test_enter_has_no_search_action() {
    let mut dialog = DialogComponent::new();
    dialog.dialog_type = Some(DialogType::TaskSearch);

    assert!(matches!(dialog.handle_key_events(Key::Enter), Action::Noop));
}

#[test]
fn test_e_edits_title_from_task_details() {
    let mut dialog = DialogComponent::new();
    let task = search_task(1, "original title");
    let task_uuid = task.uuid;
    let project_uuid = task.project_uuid;
    dialog.dialog_type = Some(DialogType::TaskDetails { task: Box::new(task) });

    let action = dialog.handle_key_events(Key::Char('e'));

    assert!(matches!(
        action,
        Action::ShowDialog(DialogType::TaskEdit { task_uuid: actual_task_uuid, content, project_uuid: actual_project_uuid })
            if actual_task_uuid == task_uuid && content == "original title" && actual_project_uuid == project_uuid
    ));
}

#[test]
fn test_d_edits_description_from_task_details() {
    let mut dialog = DialogComponent::new();
    let mut task = search_task(1, "original title");
    task.description = Some("original description".to_string());
    let task_uuid = task.uuid;
    dialog.dialog_type = Some(DialogType::TaskDetails { task: Box::new(task) });

    let action = dialog.handle_key_events(Key::Char('d'));

    assert!(matches!(
        action,
        Action::ShowDialog(DialogType::TaskDescriptionEdit { task_uuid: actual_task_uuid, description })
            if actual_task_uuid == task_uuid && description == "original description"
    ));
}

#[test]
fn test_description_edit_is_prefilled_and_can_be_cleared() {
    let mut dialog = DialogComponent::new();
    let task_uuid = 42;
    dialog.update(Action::ShowDialog(DialogType::TaskDescriptionEdit {
        task_uuid,
        description: "old description".to_string(),
    }));

    assert_eq!(dialog.input_buffer, "old description");
    for _ in 0.."old description".chars().count() {
        dialog.handle_key_events(Key::Backspace);
    }
    let action = dialog.handle_key_events(Key::Enter);

    assert!(matches!(
        action,
        Action::EditTaskDescription { task_uuid: actual_task_uuid, description }
            if actual_task_uuid == task_uuid && description.is_empty()
    ));
}

#[test]
fn test_m_opens_ai_task_management_from_task_details() {
    let mut dialog = DialogComponent::new();
    let task = search_task(1, "Help Mom with ChatGPT");
    let task_uuid = task.uuid;
    dialog.dialog_type = Some(DialogType::TaskDetails { task: Box::new(task) });

    let action = dialog.handle_key_events(Key::Char('m'));

    assert!(matches!(
        action,
        Action::ShowDialog(DialogType::AiTaskManagement { task, stage: AiAssistStage::ContextEntry, proposal: None, report: None })
            if task.uuid == task_uuid
    ));
}

#[test]
fn test_ai_context_submission_requests_generation_and_accepts_result() {
    let mut dialog = DialogComponent::new();
    let task = search_task(1, "Help Mom with ChatGPT");
    dialog.projects = vec![follow_up_project()];
    dialog.update(Action::ShowDialog(DialogType::AiTaskManagement {
        task: Box::new(task),
        stage: AiAssistStage::ContextEntry,
        proposal: None,
        report: None,
    }));

    type_text(&mut dialog, "The original need is handled.");
    let action = dialog.handle_key_events(Key::Enter);
    assert!(matches!(action, Action::AiAssist { .. }));

    let Action::AiAssist { task, .. } = action else {
        panic!("expected AI assist action");
    };
    let proposal = AiTaskProposal::mock_for(&task, "The original need is handled.", Some(12345));
    let follow_up = dialog.update(Action::AiProposalGenerated { task, proposal });
    assert!(matches!(follow_up, Action::Noop));
    assert!(matches!(
        dialog.dialog_type,
        Some(DialogType::AiTaskManagement { stage: AiAssistStage::ProposalReview, proposal: Some(ref proposal), .. })
            if proposal.actions.len() == 3
    ));
}

#[test]
fn test_ai_context_up_and_down_follow_wrapped_rows() {
    let mut dialog = DialogComponent::new();
    dialog.dialog_type = Some(DialogType::AiTaskManagement {
        task: Box::new(search_task(1, "Example")),
        stage: AiAssistStage::ContextEntry,
        proposal: None,
        report: None,
    });
    dialog.input_buffer = "a".repeat(80);
    dialog.cursor_position = 80;

    dialog.handle_key_events(Key::Up);
    assert_eq!(dialog.cursor_position, 6);
    dialog.handle_key_events(Key::Down);
    assert_eq!(dialog.cursor_position, 80);
}

#[test]
fn test_ai_proposal_actions_can_be_toggled() {
    let mut dialog = DialogComponent::new();
    let task = search_task(1, "Help Mom with ChatGPT");
    let proposal = AiTaskProposal::mock_for(&task, "The original need is handled.", Some(12345));
    dialog.dialog_type = Some(DialogType::AiTaskManagement {
        task: Box::new(task),
        stage: AiAssistStage::ProposalReview,
        proposal: Some(proposal),
        report: None,
    });
    dialog.ai_proposal_page = AiProposalPage::Actions;

    dialog.handle_key_events(Key::Down);
    assert_eq!(dialog.ai_selected_action_index, 1);
    dialog.handle_key_events(Key::Char(' '));

    assert!(matches!(
        dialog.dialog_type,
        Some(DialogType::AiTaskManagement { proposal: Some(ref proposal), .. }) if !proposal.actions[1].enabled
    ));
}

#[test]
fn test_ai_proposal_requires_confirmation_before_apply() {
    let mut dialog = DialogComponent::new();
    let task = search_task(1, "Help Mom with ChatGPT");
    let proposal = AiTaskProposal::mock_for(&task, "The original need is handled.", Some(12345));
    dialog.dialog_type = Some(DialogType::AiTaskManagement {
        task: Box::new(task),
        stage: AiAssistStage::ProposalReview,
        proposal: Some(proposal),
        report: None,
    });
    dialog.ai_proposal_page = AiProposalPage::Actions;

    assert!(matches!(dialog.handle_key_events(Key::Enter), Action::Noop));
    assert!(matches!(
        dialog.dialog_type,
        Some(DialogType::AiTaskManagement { stage: AiAssistStage::ApplyConfirmation, .. })
    ));

    assert!(matches!(dialog.handle_key_events(Key::Enter), Action::AiApplyProposal { .. }));
}

#[test]
fn test_ai_proposal_can_continue_when_unavailable_mock_destination_is_disabled() {
    let mut dialog = DialogComponent::new();
    let task = search_task(1, "Help Mom with ChatGPT");
    let proposal = AiTaskProposal::mock_for(&task, "The original need is handled.", None);
    dialog.dialog_type = Some(DialogType::AiTaskManagement {
        task: Box::new(task),
        stage: AiAssistStage::ProposalReview,
        proposal: Some(proposal),
        report: None,
    });
    dialog.ai_proposal_page = AiProposalPage::Actions;

    assert!(matches!(dialog.handle_key_events(Key::Enter), Action::Noop));
    assert!(matches!(
        dialog.dialog_type,
        Some(DialogType::AiTaskManagement { stage: AiAssistStage::ApplyConfirmation, .. })
    ));
    assert!(dialog.ai_error_message.is_none());
}

#[test]
fn test_ai_proposal_pages_navigate_with_arrows_and_enter() {
    let mut dialog = DialogComponent::new();
    let task = search_task(1, "Example");
    let proposal = AiTaskProposal::mock_for(&task, "Handled", Some(12345));
    dialog.dialog_type = Some(DialogType::AiTaskManagement {
        task: Box::new(task),
        stage: AiAssistStage::ProposalReview,
        proposal: Some(proposal),
        report: None,
    });

    assert_eq!(dialog.ai_proposal_page, AiProposalPage::Recommendation);
    dialog.handle_key_events(Key::Right);
    assert_eq!(dialog.ai_proposal_page, AiProposalPage::Actions);
    dialog.handle_key_events(Key::Left);
    assert_eq!(dialog.ai_proposal_page, AiProposalPage::Recommendation);
    dialog.handle_key_events(Key::Enter);
    assert_eq!(dialog.ai_proposal_page, AiProposalPage::Actions);
}

#[test]
fn test_ai_proposal_revision_preserves_context_and_current_proposal() {
    let mut dialog = DialogComponent::new();
    let task = search_task(1, "Example");
    dialog.dialog_type = Some(DialogType::AiTaskManagement {
        task: Box::new(task.clone()),
        stage: AiAssistStage::ContextEntry,
        proposal: None,
        report: None,
    });
    type_text(&mut dialog, "Original context");
    let _ = dialog.handle_key_events(Key::Enter);

    let proposal = AiTaskProposal::mock_for(&task, "Handled", Some(12345));
    dialog.dialog_type = Some(DialogType::AiTaskManagement {
        task: Box::new(task),
        stage: AiAssistStage::ProposalReview,
        proposal: Some(proposal.clone()),
        report: None,
    });
    dialog.ai_proposal_page = AiProposalPage::Actions;
    dialog.handle_key_events(Key::Char('r'));
    assert!(matches!(
        dialog.dialog_type,
        Some(DialogType::AiTaskManagement { stage: AiAssistStage::RevisionEntry, .. })
    ));
    type_text(&mut dialog, "Use an existing project");
    let action = dialog.handle_key_events(Key::Enter);
    assert!(matches!(
        action,
        Action::AiReviseProposal { original_context, proposal: returned, revision, .. }
            if original_context == "Original context" && returned == proposal && revision == "Use an existing project"
    ));
}

#[test]
fn typing_then_backspace_restores_the_input() {
    let mut dialog = DialogComponent::new();
    dialog.update(Action::ShowDialog(DialogType::TaskDescriptionEdit { task_uuid: 1, description: "note".to_string() }));
    let cursor = dialog.cursor_position;
    dialog.handle_key_events(Key::Char('!'));
    assert_eq!(dialog.input_buffer, "note!");
    dialog.handle_key_events(Key::Backspace);
    assert_eq!(dialog.input_buffer, "note");
    assert_eq!(dialog.cursor_position, cursor);
}
