//! Actions of the interface, AI task-management proposals and their validation.

use vstd::prelude::*;
use crate::entities::task;
use crate::backend::todoist::copy_strings;
use crate::ext::{str_trim, trimmed, uuid_is_nil};
use crate::priority::{priority_label, priority_of, TaskPriority};
use crate::sync::SyncStatus;
use crate::ui::app_core::view_snapshot::ViewSnapshot;

verus! {

/// Counts of incomplete tasks shown beside each navigation entry.  The per-project and
/// per-label counts hold one entry per identifier.
#[derive(Debug, Clone, Default)]
pub struct NavigationCounts {
    pub today: usize,
    pub tomorrow: usize,
    pub upcoming: usize,
    pub trash: usize,
    pub projects: Vec<(u128, usize)>,
    pub labels: Vec<(u128, usize)>,
}

/// Where a "set due date" command moves tasks.
#[derive(Debug, Clone, Copy, PartialEq, Eq, Structural)]
pub enum TaskDueDate {
    Unscheduled,
    Today,
    Tomorrow,
    NextWeek,
    Weekend,
}

/// The stage of the AI task-management dialog.
#[derive(Debug, Clone, Copy, PartialEq, Eq, Structural)]
pub enum AiAssistStage {
    ContextEntry,
    RevisionEntry,
    Generating,
    ProposalReview,
    ApplyConfirmation,
    Applying,
    Result,
}

/// The page of a proposal under review.
#[derive(Debug, Clone, Copy, PartialEq, Eq, Structural)]
pub enum AiProposalPage {
    Recommendation,
    Actions,
}

impl Default for AiProposalPage {
    fn default() -> (p: Self)
        ensures
            p == AiProposalPage::Recommendation,
    {
        AiProposalPage::Recommendation
    }
}

/// A proposal: a recommendation and the actions that would carry it out.
#[derive(Debug, Clone, PartialEq)]
pub struct AiTaskProposal {
    pub summary: String,
    pub actions: Vec<AiProposedAction>,
}

/// One proposed action and whether the user keeps it enabled.
#[derive(Debug, Clone, PartialEq)]
pub struct AiProposedAction {
    pub enabled: bool,
    pub kind: AiProposedActionKind,
}

/// The project that a created or moved task goes to.
#[derive(Debug, Clone, PartialEq)]
pub enum AiProjectDestination {
    Existing { uuid: u128, name: String },
    Proposed { reference: String, name: String },
}

/// What a proposed action does.
#[derive(Debug, Clone, PartialEq)]
pub enum AiProposedActionKind {
    AddCompletionNote { content: String },
    CreateProject { reference: String, name: String },
    CreateTask { content: String, description: String, destination: AiProjectDestination, priority: i32 },
    MoveOriginalTask { destination: AiProjectDestination },
    CompleteTask,
}

impl AiProjectDestination {
    /// A copy of the destination.
    pub fn duplicate(&self) -> (r: Self)
        ensures
            r == *self,
    {
        match self {
            AiProjectDestination::Existing { uuid, name } => AiProjectDestination::Existing { uuid: *uuid, name: name.clone() },
            AiProjectDestination::Proposed { reference, name } => AiProjectDestination::Proposed {
                reference: reference.clone(),
                name: name.clone(),
            },
        }
    }
}

impl AiProposedAction {
    /// A copy of the action.
    pub fn duplicate(&self) -> (r: Self)
        ensures
            r == *self,
    {
        let kind = match &self.kind {
            AiProposedActionKind::AddCompletionNote { content } => AiProposedActionKind::AddCompletionNote {
                content: content.clone(),
            },
            AiProposedActionKind::CreateProject { reference, name } => AiProposedActionKind::CreateProject {
                reference: reference.clone(),
                name: name.clone(),
            },
            AiProposedActionKind::CreateTask { content, description, destination, priority } => AiProposedActionKind::CreateTask {
                content: content.clone(),
                description: description.clone(),
                destination: destination.duplicate(),
                priority: *priority,
            },
            AiProposedActionKind::MoveOriginalTask { destination } => AiProposedActionKind::MoveOriginalTask {
                destination: destination.duplicate(),
            },
            AiProposedActionKind::CompleteTask => AiProposedActionKind::CompleteTask,
        };
        AiProposedAction { enabled: self.enabled, kind }
    }
}

/// Whether two proposals hold the same recommendation and actions.
pub open spec fn same_proposal(p: AiTaskProposal, q: AiTaskProposal) -> bool {
    p.summary == q.summary && p.actions@ == q.actions@
}

impl AiTaskProposal {
    /// A copy of the proposal.
    pub fn duplicate(&self) -> (r: Self)
        ensures
            same_proposal(r, *self),
    {
        let mut actions: Vec<AiProposedAction> = Vec::new();
        let mut i: usize = 0;
        while i < self.actions.len()
            invariant
                i <= self.actions@.len(),
                actions@ == self.actions@.take(i as int),
            decreases self.actions@.len() - i,
        {
            actions.push(self.actions[i].duplicate());
            proof {
                assert(self.actions@.take(i + 1) =~= self.actions@.take(i as int).push(self.actions@[i as int]));
            }
            i = i + 1;
        }
        proof {
            assert(self.actions@.take(i as int) =~= self.actions@);
        }
        AiTaskProposal { summary: self.summary.clone(), actions }
    }
}

/// The outcome of applying a proposal: the actions that completed, and the failure
/// that stopped it, if any.
#[derive(Debug, Clone, PartialEq)]
pub struct AiExecutionReport {
    pub completed_actions: Vec<String>,
    pub failure: Option<String>,
}

impl AiExecutionReport {
    /// A report of a fully applied proposal.
    pub fn success(completed_actions: Vec<String>) -> (r: Self)
        ensures
            r.completed_actions == completed_actions,
            r.failure is None,
    {
        AiExecutionReport { completed_actions, failure: None }
    }

    /// A report of a proposal that stopped at a failure.
    pub fn failed(completed_actions: Vec<String>, failure: String) -> (r: Self)
        ensures
            r.completed_actions == completed_actions,
            r.failure == Some(failure),
    {
        AiExecutionReport { completed_actions, failure: Some(failure) }
    }

    /// A copy of the report.
    pub fn duplicate(&self) -> (r: Self)
        ensures
            same_report(r, *self),
    {
        let completed_actions = copy_strings(&self.completed_actions);
        let failure = match &self.failure {
            Some(f) => Some(f.clone()),
            None => None,
        };
        AiExecutionReport { completed_actions, failure }
    }
}

/// Whether two reports list the same completed actions and the same failure.
pub open spec fn same_report(p: AiExecutionReport, q: AiExecutionReport) -> bool {
    p.completed_actions@ == q.completed_actions@ && p.failure == q.failure
}

/// Whether two dialog kinds are the same, comparing lists by their elements.
pub open spec fn same_dialog_kind(x: DialogType, y: DialogType) -> bool {
    match (x, y) {
        (
            DialogType::AiTaskManagement { task: t1, stage: s1, proposal: p1, report: r1 },
            DialogType::AiTaskManagement { task: t2, stage: s2, proposal: p2, report: r2 },
        ) => {
            &&& t1 == t2
            &&& s1 == s2
            &&& (p1 is Some <==> p2 is Some)
            &&& (p1 is Some ==> same_proposal(p1->0, p2->0))
            &&& (r1 is Some <==> r2 is Some)
            &&& (r1 is Some ==> same_report(r1->0, r2->0))
        },
        _ => x == y,
    }
}

impl DialogType {
    /// A copy of the dialog kind.
    pub fn duplicate(&self) -> (r: Self)
        ensures
            same_dialog_kind(r, *self),
    {
        match self {
            DialogType::TaskDetails { task } => DialogType::TaskDetails { task: Box::new((**task).duplicate()) },
            DialogType::TaskCreation { default_project_uuid, default_due_date, default_label_uuid } => DialogType::TaskCreation {
                default_project_uuid: *default_project_uuid,
                default_due_date: task::copy_opt_string(default_due_date),
                default_label_uuid: *default_label_uuid,
            },
            DialogType::TaskEdit { task_uuid, content, project_uuid } => DialogType::TaskEdit {
                task_uuid: *task_uuid,
                content: content.clone(),
                project_uuid: *project_uuid,
            },
            DialogType::TaskDescriptionEdit { task_uuid, description } => DialogType::TaskDescriptionEdit {
                task_uuid: *task_uuid,
                description: description.clone(),
            },
            DialogType::TaskTime { task_uuid, current_time } => DialogType::TaskTime {
                task_uuid: *task_uuid,
                current_time: task::copy_opt_string(current_time),
            },
            DialogType::AiTaskManagement { task, stage, proposal, report } => {
                let proposal = match proposal {
                    Some(p) => Some(p.duplicate()),
                    None => None,
                };
                let report = match report {
                    Some(x) => Some(x.duplicate()),
                    None => None,
                };
                DialogType::AiTaskManagement { task: Box::new((**task).duplicate()), stage: *stage, proposal, report }
            },
            DialogType::ProjectCreation => DialogType::ProjectCreation,
            DialogType::ProjectEdit { project_uuid, name } => DialogType::ProjectEdit { project_uuid: *project_uuid, name: name.clone() },
            DialogType::LabelCreation => DialogType::LabelCreation,
            DialogType::LabelEdit { label_uuid, name } => DialogType::LabelEdit { label_uuid: *label_uuid, name: name.clone() },
            DialogType::DeleteConfirmation { item_type, item_uuid } => DialogType::DeleteConfirmation {
                item_type: item_type.clone(),
                item_uuid: *item_uuid,
            },
            DialogType::EmptyTrashConfirmation { count } => DialogType::EmptyTrashConfirmation { count: *count },
            DialogType::Error(m) => DialogType::Error(m.clone()),
            DialogType::Info(m) => DialogType::Info(m.clone()),
            DialogType::Help => DialogType::Help,
            DialogType::Logs => DialogType::Logs,
            DialogType::TaskSearch => DialogType::TaskSearch,
        }
    }
}

/// Whether trimming leaves nothing of the text.
pub open spec fn blank(s: Seq<char>) -> bool {
    trimmed(s).len() == 0
}

/// The project name that a destination shows.
pub open spec fn destination_name(d: AiProjectDestination) -> Seq<char> {
    match d {
        AiProjectDestination::Existing { name, .. } => name@,
        AiProjectDestination::Proposed { name, .. } => name@,
    }
}

/// The one-line (or two-line, for created tasks) description of an action.
pub open spec fn action_description(kind: AiProposedActionKind) -> Seq<char> {
    match kind {
        AiProposedActionKind::AddCompletionNote { content } => "Add completion note: "@ + content@,
        AiProposedActionKind::CreateProject { name, .. } => "Create project: "@ + name@,
        AiProposedActionKind::CreateTask { content, description, destination, priority } =>
            "Create undated "@ + priority_label(priority_of(priority as int)) + "-priority task in "@
                + destination_name(destination) + ": "@ + content@ + "\n  "@ + description@,
        AiProposedActionKind::MoveOriginalTask { destination } =>
            "Move the original task to "@ + destination_name(destination),
        AiProposedActionKind::CompleteTask => "Complete the original task"@,
    }
}

fn destination_name_of(d: &AiProjectDestination) -> (r: &String)
    ensures
        r@ == destination_name(*d),
{
    match d {
        AiProjectDestination::Existing { name, .. } => name,
        AiProjectDestination::Proposed { name, .. } => name,
    }
}

impl AiProposedAction {
    /// Describes the action for review.
    pub fn description(&self) -> (s: String)
        ensures
            s@ == action_description(self.kind),
    {
        match &self.kind {
            AiProposedActionKind::AddCompletionNote { content } => {
                let mut s = String::from_str("Add completion note: ");
                s.append(content.as_str());
                s
            },
            AiProposedActionKind::CreateProject { name, .. } => {
                let mut s = String::from_str("Create project: ");
                s.append(name.as_str());
                s
            },
            AiProposedActionKind::CreateTask { content, description, destination, priority } => {
                let label = TaskPriority::from_todoist(*priority).label();
                let mut s = String::from_str("Create undated ");
                s.append(label);
                s.append("-priority task in ");
                s.append(destination_name_of(destination).as_str());
                s.append(": ");
                s.append(content.as_str());
                s.append("\n  ");
                s.append(description.as_str());
                s
            },
            AiProposedActionKind::MoveOriginalTask { destination } => {
                let mut s = String::from_str("Move the original task to ");
                s.append(destination_name_of(destination).as_str());
                s
            },
            AiProposedActionKind::CompleteTask => String::from_str("Complete the original task"),
        }
    }
}

/// The order in which enabled actions run: projects first, then the completion note,
/// then created and moved tasks, and completing the original task last.
pub open spec fn action_rank(kind: AiProposedActionKind) -> int {
    match kind {
        AiProposedActionKind::CreateProject { .. } => 0,
        AiProposedActionKind::AddCompletionNote { .. } => 1,
        AiProposedActionKind::CreateTask { .. } => 2,
        AiProposedActionKind::MoveOriginalTask { .. } => 2,
        AiProposedActionKind::CompleteTask => 3,
    }
}

/// The enabled actions of one rank, in proposal order.
pub open spec fn enabled_of_rank(actions: Seq<AiProposedAction>, rank: int) -> Seq<AiProposedAction> {
    actions.filter(|a: AiProposedAction| a.enabled && action_rank(a.kind) == rank)
}

/// The enabled actions of ranks below `upto`, grouped by rank, each group in proposal order.
pub open spec fn ordered_upto(actions: Seq<AiProposedAction>, upto: int) -> Seq<AiProposedAction>
    decreases upto,
{
    if upto <= 0 {
        Seq::empty()
    } else {
        ordered_upto(actions, upto - 1) + enabled_of_rank(actions, upto - 1)
    }
}

/// The enabled actions in execution order: a stable sort by rank.
pub open spec fn execution_order(actions: Seq<AiProposedAction>) -> Seq<AiProposedAction> {
    ordered_upto(actions, 4)
}

/// Whether a create-project action with this reference and name is enabled.
pub open spec fn creates_project(actions: Seq<AiProposedAction>, reference: Seq<char>, name: Seq<char>) -> bool {
    exists|j: int|
        0 <= j < actions.len() && #[trigger] actions[j].enabled
            && (actions[j].kind matches AiProposedActionKind::CreateProject { reference: r, name: n }
                && r@ == reference && n@ == name)
}

/// Why a destination is refused, if it is.
pub open spec fn destination_error(actions: Seq<AiProposedAction>, d: AiProjectDestination) -> Option<Seq<char>> {
    match d {
        AiProjectDestination::Existing { uuid, name } => {
            if uuid == 0 || blank(name@) {
                Some("Existing project destinations require an ID and name."@)
            } else {
                None
            }
        },
        AiProjectDestination::Proposed { reference, name } => {
            if creates_project(actions, reference@, name@) {
                None
            } else {
                Some("Project destination '"@ + name@ + "' has no enabled create-project action."@)
            }
        },
    }
}

/// Why one enabled action is refused, if it is.
pub open spec fn action_error(actions: Seq<AiProposedAction>, kind: AiProposedActionKind) -> Option<Seq<char>> {
    match kind {
        AiProposedActionKind::AddCompletionNote { content } => {
            if blank(content@) { Some("Completion notes cannot be empty."@) } else { None }
        },
        AiProposedActionKind::CreateProject { reference, name } => {
            if blank(reference@) || blank(name@) {
                Some("Created projects require a reference and name."@)
            } else {
                None
            }
        },
        AiProposedActionKind::CreateTask { content, description, destination, priority } => {
            if blank(content@) || blank(description@) {
                Some("Created tasks require a title and description."@)
            } else if !(1 <= priority <= 4) {
                Some("Todoist priorities must be between 1 and 4."@)
            } else {
                destination_error(actions, destination)
            }
        },
        AiProposedActionKind::MoveOriginalTask { destination } => destination_error(actions, destination),
        AiProposedActionKind::CompleteTask => None,
    }
}

/// The error of the first enabled action from index `i` on that is refused.
pub open spec fn first_action_error(actions: Seq<AiProposedAction>, i: int) -> Option<Seq<char>>
    decreases actions.len() - i,
{
    if i < 0 || i >= actions.len() {
        None
    } else if actions[i].enabled && action_error(actions, actions[i].kind) is Some {
        action_error(actions, actions[i].kind)
    } else {
        first_action_error(actions, i + 1)
    }
}

/// The number of enabled actions.
pub open spec fn enabled_count(actions: Seq<AiProposedAction>) -> nat {
    actions.filter(|a: AiProposedAction| a.enabled).len()
}

/// The outcome of validating a proposal: at least one and at most eight enabled
/// actions, and no enabled action refused.
pub open spec fn validation_of(actions: Seq<AiProposedAction>) -> Result<(), Seq<char>> {
    if enabled_count(actions) == 0 {
        Err("Select at least one proposed action."@)
    } else if enabled_count(actions) > 8 {
        Err("A proposal can apply at most eight actions."@)
    } else {
        match first_action_error(actions, 0) {
            Some(e) => Err(e),
            None => Ok(()),
        }
    }
}

/// Whether trimming leaves nothing of the text.
pub fn is_blank(s: &str) -> (b: bool)
    ensures
        b == blank(s@),
{
    str_trim(s).is_empty()
}

pub(crate) fn count_enabled(actions: &Vec<AiProposedAction>) -> (n: usize)
    ensures
        n == enabled_count(actions@),
{
    let mut n: usize = 0;
    let mut i: usize = 0;
    while i < actions.len()
        invariant
            i <= actions@.len(),
            n == actions@.take(i as int).filter(|a: AiProposedAction| a.enabled).len(),
            n <= i,
        decreases actions@.len() - i,
    {
        proof {
            assert(actions@.take(i + 1) =~= actions@.take(i as int).push(actions@[i as int]));
            actions@.take(i as int).lemma_filter_push(actions@[i as int], |a: AiProposedAction| a.enabled);
        }
        if actions[i].enabled {
            n = n + 1;
        }
        i = i + 1;
    }
    proof {
        assert(actions@.take(i as int) =~= actions@);
    }
    n
}

impl AiTaskProposal {
    /// A fixed proposal used while no provider answers: a completion note from the
    /// context, a follow-up task in the given project (enabled only when there is
    /// one), and completing the original task.
    pub fn mock_for(task: &task::Model, context: &str, project_uuid: Option<u128>) -> (p: Self)
        ensures
            p.summary@ == "The original task may be substantially complete. Preserve its outcome and move optional future work out of active planning."@,
            p.actions@.len() == 3,
            p.actions@[0].enabled,
            ({
                &&& p.actions@[0].kind matches AiProposedActionKind::AddCompletionNote { content }
                &&& content@ == if trimmed(context@).len() == 0 {
                        "Reviewed the task and preserved the current outcome."@
                    } else {
                        "Outcome note: "@ + trimmed(context@)
                    }
            }),
            p.actions@[1].enabled == project_uuid is Some,
            ({
                &&& p.actions@[1].kind matches AiProposedActionKind::CreateTask { content, description, destination, priority }
                &&& content@ == "Revisit: "@ + task.content@
                &&& description@ == "Revisit if the need recurs, a better option appears, or discretionary project time becomes available."@
                &&& priority == 1
                &&& destination matches AiProjectDestination::Existing { uuid, name }
                &&& uuid == (match project_uuid { Some(u) => u, None => 0 })
                &&& name@ == "Follow-up"@
            }),
            p.actions@[2] == (AiProposedAction { enabled: true, kind: AiProposedActionKind::CompleteTask }),
    {
        let context = str_trim(context);
        let completion_note = if context.is_empty() {
            String::from_str("Reviewed the task and preserved the current outcome.")
        } else {
            let mut s = String::from_str("Outcome note: ");
            s.append(context);
            s
        };
        let mut follow_up = String::from_str("Revisit: ");
        follow_up.append(task.content.as_str());
        let mut actions: Vec<AiProposedAction> = Vec::new();
        actions.push(AiProposedAction {
            enabled: true,
            kind: AiProposedActionKind::AddCompletionNote { content: completion_note },
        });
        actions.push(AiProposedAction {
            enabled: project_uuid.is_some(),
            kind: AiProposedActionKind::CreateTask {
                content: follow_up,
                description: String::from_str(
                    "Revisit if the need recurs, a better option appears, or discretionary project time becomes available.",
                ),
                destination: AiProjectDestination::Existing {
                    uuid: match project_uuid {
                        Some(u) => u,
                        None => 0,
                    },
                    name: String::from_str("Follow-up"),
                },
                priority: 1,
            },
        });
        actions.push(AiProposedAction { enabled: true, kind: AiProposedActionKind::CompleteTask });
        AiTaskProposal {
            summary: String::from_str(
                "The original task may be substantially complete. Preserve its outcome and move optional future work out of active planning.",
            ),
            actions,
        }
    }

    fn has_enabled_project(&self, reference: &String, name: &String) -> (b: bool)
        ensures
            b == creates_project(self.actions@, reference@, name@),
    {
        let mut i: usize = 0;
        while i < self.actions.len()
            invariant
                i <= self.actions@.len(),
                forall|j: int|
                    0 <= j < i ==> !(#[trigger] self.actions@[j].enabled
                        && (self.actions@[j].kind matches AiProposedActionKind::CreateProject { reference: r, name: n }
                            && r@ == reference@ && n@ == name@)),
            decreases self.actions@.len() - i,
        {
            let action = &self.actions[i];
            assert(*action == self.actions@[i as int]);
            if action.enabled {
                match &action.kind {
                    AiProposedActionKind::CreateProject { reference: candidate, name: candidate_name } => {
                        if *candidate == *reference && *candidate_name == *name {
                            assert(self.actions@[i as int].kind == AiProposedActionKind::CreateProject { reference: *candidate, name: *candidate_name });
                            assert(self.actions@[i as int].enabled);
                            return true;
                        }
                    },
                    _ => {},
                }
            }
            i = i + 1;
        }
        false
    }

    fn validate_destination(&self, destination: &AiProjectDestination) -> (r: Result<(), String>)
        ensures
            match r {
                Ok(()) => destination_error(self.actions@, *destination) is None,
                Err(e) => destination_error(self.actions@, *destination) == Some(e@),
            },
    {
        match destination {
            AiProjectDestination::Existing { uuid, name } => {
                if uuid_is_nil(*uuid) || is_blank(name.as_str()) {
                    return Err(String::from_str("Existing project destinations require an ID and name."));
                }
            },
            AiProjectDestination::Proposed { reference, name } => {
                if !self.has_enabled_project(reference, name) {
                    let mut message = String::from_str("Project destination '");
                    message.append(name.as_str());
                    message.append("' has no enabled create-project action.");
                    return Err(message);
                }
            },
        }
        Ok(())
    }

    fn action_check(&self, kind: &AiProposedActionKind) -> (r: Result<(), String>)
        ensures
            match r {
                Ok(()) => action_error(self.actions@, *kind) is None,
                Err(e) => action_error(self.actions@, *kind) == Some(e@),
            },
    {
        match kind {
            AiProposedActionKind::AddCompletionNote { content } => {
                if is_blank(content.as_str()) {
                    return Err(String::from_str("Completion notes cannot be empty."));
                }
                Ok(())
            },
            AiProposedActionKind::CreateProject { reference, name } => {
                if is_blank(reference.as_str()) || is_blank(name.as_str()) {
                    return Err(String::from_str("Created projects require a reference and name."));
                }
                Ok(())
            },
            AiProposedActionKind::CreateTask { content, description, destination, priority } => {
                if is_blank(content.as_str()) || is_blank(description.as_str()) {
                    return Err(String::from_str("Created tasks require a title and description."));
                }
                if !(1 <= *priority && *priority <= 4) {
                    return Err(String::from_str("Todoist priorities must be between 1 and 4."));
                }
                self.validate_destination(destination)
            },
            AiProposedActionKind::MoveOriginalTask { destination } => self.validate_destination(destination),
            AiProposedActionKind::CompleteTask => Ok(()),
        }
    }

    /// Checks that the enabled actions can be applied: at least one and at most
    /// eight, and each with the fields and destination it needs.
    pub fn validate(&self) -> (r: Result<(), String>)
        ensures
            match r {
                Ok(()) => validation_of(self.actions@) is Ok,
                Err(e) => validation_of(self.actions@) == Err::<(), Seq<char>>(e@),
            },
    {
        let enabled = count_enabled(&self.actions);
        if enabled == 0 {
            return Err(String::from_str("Select at least one proposed action."));
        }
        if enabled > 8 {
            return Err(String::from_str("A proposal can apply at most eight actions."));
        }
        let mut i: usize = 0;
        while i < self.actions.len()
            invariant
                i <= self.actions@.len(),
                1 <= enabled_count(self.actions@) <= 8,
                first_action_error(self.actions@, 0) == first_action_error(self.actions@, i as int),
            decreases self.actions@.len() - i,
        {
            let action = &self.actions[i];
            assert(*action == self.actions@[i as int]);
            if action.enabled {
                match self.action_check(&action.kind) {
                    Err(e) => {
                        assert(first_action_error(self.actions@, i as int) == Some(e@));
                        assert(validation_of(self.actions@) == Err::<(), Seq<char>>(e@));
                        return Err(e);
                    },
                    Ok(()) => {},
                }
            }
            i = i + 1;
        }
        Ok(())
    }

    /// The enabled actions in the order they run: created projects, the completion
    /// note, created and moved tasks, and completing the original task last.
    pub fn enabled_actions_in_execution_order(&self) -> (r: Vec<&AiProposedAction>)
        ensures
            r@.unref() == execution_order(self.actions@),
            kinds_in_safe_order(r@.unref()),
    {
        proof {
            lemma_execution_order_kinds(self.actions@);
        }
        let mut out: Vec<&AiProposedAction> = Vec::new();
        let mut rank: usize = 0;
        while rank < 4
            invariant
                rank <= 4,
                out@.unref() == ordered_upto(self.actions@, rank as int),
            decreases 4 - rank,
        {
            let mut i: usize = 0;
            let ghost base = out@.unref();
            while i < self.actions.len()
                invariant
                    rank < 4,
                    i <= self.actions@.len(),
                    base == ordered_upto(self.actions@, rank as int),
                    out@.unref() == base + enabled_of_rank(self.actions@.take(i as int), rank as int),
                decreases self.actions@.len() - i,
            {
                let action = &self.actions[i];
                let action_rank_value: usize = match action.kind {
                    AiProposedActionKind::CreateProject { .. } => 0,
                    AiProposedActionKind::AddCompletionNote { .. } => 1,
                    AiProposedActionKind::CreateTask { .. } => 2,
                    AiProposedActionKind::MoveOriginalTask { .. } => 2,
                    AiProposedActionKind::CompleteTask => 3,
                };
                let ghost before = out@;
                proof {
                    assert(self.actions@.take(i + 1) =~= self.actions@.take(i as int).push(self.actions@[i as int]));
                    self.actions@.take(i as int).lemma_filter_push(
                        self.actions@[i as int],
                        |a: AiProposedAction| a.enabled && action_rank(a.kind) == rank as int,
                    );
                }
                if action.enabled && action_rank_value == rank {
                    out.push(action);
                    proof {
                        assert(out@.unref() =~= before.unref().push(self.actions@[i as int]));
                    }
                }
                i = i + 1;
            }
            proof {
                assert(self.actions@.take(i as int) =~= self.actions@);
            }
            rank = rank + 1;
        }
        out
    }
}

/// The ranks of the execution order never decrease; in particular, completing the
/// original task comes after every other enabled action.
pub proof fn lemma_execution_order_ranks(actions: Seq<AiProposedAction>, i: int, j: int)
    requires
        0 <= i < j < execution_order(actions).len(),
    ensures
        action_rank(execution_order(actions)[i].kind) <= action_rank(execution_order(actions)[j].kind),
        execution_order(actions)[i].enabled,
{
    lemma_ordered_ranks(actions, 4);
}

proof fn lemma_ordered_ranks(actions: Seq<AiProposedAction>, upto: int)
    requires
        0 <= upto <= 4,
    ensures
        forall|k: int|
            0 <= k < ordered_upto(actions, upto).len() ==> {
                let a = #[trigger] ordered_upto(actions, upto)[k];
                &&& a.enabled
                &&& 0 <= action_rank(a.kind) < upto
            },
        forall|i: int, j: int|
            0 <= i < j < ordered_upto(actions, upto).len() ==> action_rank(#[trigger] ordered_upto(actions, upto)[i].kind)
                <= action_rank(#[trigger] ordered_upto(actions, upto)[j].kind),
    decreases upto,
{
    if upto > 0 {
        lemma_ordered_ranks(actions, upto - 1);
        let prev = ordered_upto(actions, upto - 1);
        let group = enabled_of_rank(actions, upto - 1);
        let pred = |a: AiProposedAction| a.enabled && action_rank(a.kind) == upto - 1;
        assert forall|k: int| 0 <= k < group.len() implies #[trigger] group[k].enabled && action_rank(group[k].kind) == upto - 1 by {
            actions.lemma_filter_pred(pred, k);
        }
        assert(ordered_upto(actions, upto) == prev + group);
    }
}


/// Whether actions come in a safe order: projects are created before anything else,
/// completion notes before tasks are created or moved, and completing the original
/// task comes after everything else.
pub open spec fn kinds_in_safe_order(e: Seq<AiProposedAction>) -> bool {
    forall|i: int, j: int| 0 <= i < j < e.len() ==> {
        &&& ((#[trigger] e[j]).kind is CreateProject ==> (#[trigger] e[i]).kind is CreateProject)
        &&& (e[j].kind is AddCompletionNote ==> (e[i].kind is CreateProject || e[i].kind is AddCompletionNote))
        &&& (e[i].kind is CompleteTask ==> e[j].kind is CompleteTask)
    }
}

/// The execution order is safe: every enabled project creation runs before every other
/// action, completion notes before creating or moving tasks, and completing the
/// original task last.
pub proof fn lemma_execution_order_kinds(actions: Seq<AiProposedAction>)
    ensures
        kinds_in_safe_order(execution_order(actions)),
{
    let e = execution_order(actions);
    assert forall|i: int, j: int| 0 <= i < j < e.len() implies {
        &&& ((#[trigger] e[j]).kind is CreateProject ==> (#[trigger] e[i]).kind is CreateProject)
        &&& (e[j].kind is AddCompletionNote ==> (e[i].kind is CreateProject || e[i].kind is AddCompletionNote))
        &&& (e[i].kind is CompleteTask ==> e[j].kind is CompleteTask)
    } by {
        lemma_execution_order_ranks(actions, i, j);
    }
}

/// When the original task is to be completed, that action runs last.
pub proof fn lemma_completion_runs_last(actions: Seq<AiProposedAction>, k: int)
    requires
        0 <= k < actions.len(),
        actions[k].enabled,
        actions[k].kind is CompleteTask,
    ensures
        execution_order(actions).len() > 0,
        execution_order(actions).last().kind is CompleteTask,
{
    let pred = |a: AiProposedAction| a.enabled && action_rank(a.kind) == 3;
    actions.lemma_filter_contains(pred, k);
    let group = enabled_of_rank(actions, 3);
    assert(group.len() > 0);
    assert(execution_order(actions) == ordered_upto(actions, 3) + group);
    actions.lemma_filter_pred(pred, group.len() - 1);
    assert(execution_order(actions).last() == group.last());
}

/// Every action in the execution order is an enabled action of the proposal, and
/// every enabled action appears in it.
pub proof fn lemma_execution_order_members(actions: Seq<AiProposedAction>, k: int)
    requires
        0 <= k < actions.len(),
    ensures
        actions[k].enabled <==> execution_order(actions).contains(actions[k]),
{
    lemma_ordered_ranks(actions, 4);
    let r = action_rank(actions[k].kind);
    let pred = |a: AiProposedAction| a.enabled && action_rank(a.kind) == r;
    if actions[k].enabled {
        actions.lemma_filter_contains(pred, k);
        let group = enabled_of_rank(actions, r);
        let j = choose|j: int| 0 <= j < group.len() && group[j] == actions[k];
        assert(r == 0 || r == 1 || r == 2 || r == 3);
        assert(ordered_upto(actions, 4) == ordered_upto(actions, r) + group + (ordered_upto(actions, 4).subrange(ordered_upto(actions, r + 1).len() as int, ordered_upto(actions, 4).len() as int))) by {
            lemma_ordered_prefix(actions, r + 1, 4);
        }
        assert(execution_order(actions)[ordered_upto(actions, r).len() + j] == actions[k]);
    } else {
        if execution_order(actions).contains(actions[k]) {
            let j = choose|j: int| 0 <= j < execution_order(actions).len() && execution_order(actions)[j] == actions[k];
            assert(execution_order(actions)[j].enabled);
        }
    }
}

proof fn lemma_ordered_prefix(actions: Seq<AiProposedAction>, a: int, b: int)
    requires
        0 <= a <= b <= 4,
    ensures
        ordered_upto(actions, b).len() >= ordered_upto(actions, a).len(),
        ordered_upto(actions, b).subrange(0, ordered_upto(actions, a).len() as int) == ordered_upto(actions, a),
        ordered_upto(actions, b) == ordered_upto(actions, a) + ordered_upto(actions, b).subrange(
            ordered_upto(actions, a).len() as int,
            ordered_upto(actions, b).len() as int,
        ),
    decreases b - a,
{
    if a < b {
        lemma_ordered_prefix(actions, a, b - 1);
        assert(ordered_upto(actions, b) == ordered_upto(actions, b - 1) + enabled_of_rank(actions, b - 1));
        assert(ordered_upto(actions, b).subrange(0, ordered_upto(actions, a).len() as int) =~= ordered_upto(actions, a));
    }
    assert(ordered_upto(actions, b) =~= ordered_upto(actions, a) + ordered_upto(actions, b).subrange(
        ordered_upto(actions, a).len() as int,
        ordered_upto(actions, b).len() as int,
    ));
}

/// The selected entry of the navigation sidebar.
#[derive(Debug, Clone, Copy, PartialEq, Eq, Structural)]
pub enum SidebarSelection {
    Today,
    Agenda,
    Tomorrow,
    Upcoming,
    Trash,
    Label(u128),
    Project(u128),
}

impl Default for SidebarSelection {
    fn default() -> (s: Self)
        ensures
            s == SidebarSelection::Today,
    {
        SidebarSelection::Today
    }
}

/// Dialogs that the interface can show.
#[derive(Debug, Clone)]
pub enum DialogType {
    TaskDetails { task: Box<task::Model> },
    TaskCreation { default_project_uuid: Option<u128>, default_due_date: Option<String>, default_label_uuid: Option<u128> },
    TaskEdit { task_uuid: u128, content: String, project_uuid: u128 },
    TaskDescriptionEdit { task_uuid: u128, description: String },
    TaskTime { task_uuid: u128, current_time: Option<String> },
    AiTaskManagement {
        task: Box<task::Model>,
        stage: AiAssistStage,
        proposal: Option<AiTaskProposal>,
        report: Option<AiExecutionReport>,
    },
    ProjectCreation,
    ProjectEdit { project_uuid: u128, name: String },
    LabelCreation,
    LabelEdit { label_uuid: u128, name: String },
    DeleteConfirmation { item_type: String, item_uuid: u128 },
    EmptyTrashConfirmation { count: usize },
    Error(String),
    Info(String),
    Help,
    Logs,
    TaskSearch,
}

/// Everything that the interface can be asked to do.
#[derive(Debug, Clone)]
pub enum Action {
    NavigateToSidebar(SidebarSelection),
    NextTask,
    PreviousTask,
    ToggleTasks(Vec<(u128, bool)>),
    DeleteTask(u128),
    CyclePriority(u128),
    SetTaskDueToday(u128),
    SetTaskDueTomorrow(u128),
    SetTaskDueNextWeek(u128),
    SetTaskDueWeekEnd(u128),
    SetTaskDueTime { task_uuid: u128, due_datetime: String },
    SetTasksDueDate { task_ids: Vec<u128>, due_date: TaskDueDate },
    CreateTask {
        content: String,
        project_uuid: Option<u128>,
        due_string: Option<String>,
        due_date: Option<String>,
        label_uuid: Option<u128>,
    },
    EditTask { task_uuid: u128, content: String },
    EditTaskDescription { task_uuid: u128, description: String },
    AiAssist { task: Box<task::Model>, context: String },
    AiReviseProposal { task: Box<task::Model>, original_context: String, proposal: AiTaskProposal, revision: String },
    AiProposalGenerated { task: Box<task::Model>, proposal: AiTaskProposal },
    AiProposalFailed { task: Box<task::Model>, message: String },
    AiProposalRevisionFailed { task: Box<task::Model>, proposal: AiTaskProposal, message: String },
    AiApplyProposal { task: Box<task::Model>, proposal: AiTaskProposal },
    AiAssistFinished { task: Box<task::Model>, proposal: AiTaskProposal, report: AiExecutionReport },
    RestoreTask(u128),
    EmptyTrash,
    CreateProject { name: String, parent_uuid: Option<u128> },
    EditProject { project_uuid: u128, name: String },
    DeleteProject(u128),
    CreateLabel { name: String },
    EditLabel { label_uuid: u128, name: String },
    DeleteLabel(u128),
    StartSync,
    RefreshLocalData,
    SyncCompleted(SyncStatus),
    SyncFailed(String),
    DataLoaded(Box<ViewSnapshot>),
    DataLoadFailed { generation: u64, selection: SidebarSelection, message: String },
    SearchTasks(String),
    SearchResultsLoaded { query: String, results: Vec<task::Model> },
    RefreshData,
    ToggleSidebar,
    ShowHelp(bool),
    ShowDebug(bool),
    ShowDialog(DialogType),
    HideDialog,
    HelpScrollUp,
    HelpScrollDown,
    HelpScrollToTop,
    HelpScrollToBottom,
    Consumed,
    Quit,
    Noop,
}

/// Whether a dialog is an entry point to a data mutation.
pub open spec fn is_mutation_dialog(d: DialogType) -> bool {
    match d {
        DialogType::TaskCreation { .. } => true,
        DialogType::TaskEdit { .. } => true,
        DialogType::TaskDescriptionEdit { .. } => true,
        DialogType::TaskTime { .. } => true,
        DialogType::ProjectCreation => true,
        DialogType::ProjectEdit { .. } => true,
        DialogType::LabelCreation => true,
        DialogType::LabelEdit { .. } => true,
        DialogType::DeleteConfirmation { .. } => true,
        DialogType::EmptyTrashConfirmation { .. } => true,
        _ => false,
    }
}

/// Whether an action starts or confirms a remote or local data mutation.
pub open spec fn is_mutation_action(a: Action) -> bool {
    match a {
        Action::ToggleTasks(_) => true,
        Action::DeleteTask(_) => true,
        Action::CyclePriority(_) => true,
        Action::SetTaskDueToday(_) => true,
        Action::SetTaskDueTomorrow(_) => true,
        Action::SetTaskDueNextWeek(_) => true,
        Action::SetTaskDueWeekEnd(_) => true,
        Action::SetTaskDueTime { .. } => true,
        Action::SetTasksDueDate { .. } => true,
        Action::CreateTask { .. } => true,
        Action::EditTask { .. } => true,
        Action::EditTaskDescription { .. } => true,
        Action::AiApplyProposal { .. } => true,
        Action::RestoreTask(_) => true,
        Action::EmptyTrash => true,
        Action::CreateProject { .. } => true,
        Action::EditProject { .. } => true,
        Action::DeleteProject(_) => true,
        Action::CreateLabel { .. } => true,
        Action::EditLabel { .. } => true,
        Action::DeleteLabel(_) => true,
        Action::ShowDialog(d) => is_mutation_dialog(d),
        _ => false,
    }
}

/// The completion-toggle entries for tasks: each task with whether it is to be
/// restored (it is completed or deleted) rather than completed.
pub open spec fn toggle_entries(tasks: Seq<task::Model>) -> Seq<(u128, bool)> {
    tasks.map_values(|t: task::Model| (t.uuid, t.is_deleted || t.is_completed))
}

impl Action {
    /// Whether this action starts or confirms a data mutation.  Read-only actions stay
    /// available while blocking background work runs; mutations wait for it.
    pub fn is_mutation(&self) -> (b: bool)
        ensures
            b == is_mutation_action(*self),
    {
        match self {
            Action::ToggleTasks(_) => true,
            Action::DeleteTask(_) => true,
            Action::CyclePriority(_) => true,
            Action::SetTaskDueToday(_) => true,
            Action::SetTaskDueTomorrow(_) => true,
            Action::SetTaskDueNextWeek(_) => true,
            Action::SetTaskDueWeekEnd(_) => true,
            Action::SetTaskDueTime { .. } => true,
            Action::SetTasksDueDate { .. } => true,
            Action::CreateTask { .. } => true,
            Action::EditTask { .. } => true,
            Action::EditTaskDescription { .. } => true,
            Action::AiApplyProposal { .. } => true,
            Action::RestoreTask(_) => true,
            Action::EmptyTrash => true,
            Action::CreateProject { .. } => true,
            Action::EditProject { .. } => true,
            Action::DeleteProject(_) => true,
            Action::CreateLabel { .. } => true,
            Action::EditLabel { .. } => true,
            Action::DeleteLabel(_) => true,
            Action::ShowDialog(d) => match d {
                DialogType::TaskCreation { .. } => true,
                DialogType::TaskEdit { .. } => true,
                DialogType::TaskDescriptionEdit { .. } => true,
                DialogType::TaskTime { .. } => true,
                DialogType::ProjectCreation => true,
                DialogType::ProjectEdit { .. } => true,
                DialogType::LabelCreation => true,
                DialogType::LabelEdit { .. } => true,
                DialogType::DeleteConfirmation { .. } => true,
                DialogType::EmptyTrashConfirmation { .. } => true,
                _ => false,
            },
            _ => false,
        }
    }

    /// The completion toggle for the given tasks, or `Noop` when there are none.
    /// Completed and deleted tasks are restored; others are completed.
    pub fn toggle_tasks(tasks: &[task::Model]) -> (a: Action)
        ensures
            tasks@.len() == 0 ==> a is Noop,
            tasks@.len() > 0 ==> (a matches Action::ToggleTasks(entries) && entries@ == toggle_entries(tasks@)),
    {
        let mut entries: Vec<(u128, bool)> = Vec::new();
        let mut i: usize = 0;
        while i < tasks.len()
            invariant
                i <= tasks@.len(),
                entries@ == toggle_entries(tasks@.take(i as int)),
            decreases tasks@.len() - i,
        {
            let t = &tasks[i];
            entries.push((t.uuid, t.is_deleted || t.is_completed));
            proof {
                assert(toggle_entries(tasks@.take(i + 1)) =~= toggle_entries(tasks@.take(i as int)).push((t.uuid, t.is_deleted || t.is_completed)));
            }
            i = i + 1;
        }
        proof {
            assert(tasks@.take(i as int) =~= tasks@);
        }
        if entries.len() == 0 {
            Action::Noop
        } else {
            Action::ToggleTasks(entries)
        }
    }

    /// The completion toggle for one task.
    pub fn toggle_task(task: &task::Model) -> (a: Action)
        ensures
            a matches Action::ToggleTasks(entries) && entries@ == seq![(task.uuid, task.is_deleted || task.is_completed)],
    {
        let mut entries: Vec<(u128, bool)> = Vec::new();
        entries.push((task.uuid, task.is_deleted || task.is_completed));
        Action::ToggleTasks(entries)
    }
}

} // verus!
