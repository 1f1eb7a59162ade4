//! Turning a provider's structured answer into a validated task-management proposal.
//!
//! The provider's JSON is read into the plain records below by the caller; this module
//! resolves their project references against the cached projects and the projects that
//! the proposal itself creates, and validates the result.

use vstd::prelude::*;
use crate::entities::project;
use crate::priority::{todoist_value_of, TaskPriority};
use crate::ui::app_core::actions::{
    blank, is_blank, validation_of, AiProjectDestination, AiProposedAction, AiProposedActionKind, AiTaskProposal,
};

pub mod tools;

verus! {

/// The provider's answer, field for field.
#[derive(Debug, Clone)]
pub struct ProviderProposal {
    pub summary: String,
    pub completion_note: Option<String>,
    pub projects_to_create: Vec<ProposedProject>,
    pub tasks_to_create: Vec<ProposedTask>,
    pub move_original_to: Option<ProviderDestination>,
    pub complete_original: bool,
}

/// A project that the provider proposes to create, with the reference that its
/// other actions use for it.
#[derive(Debug, Clone)]
pub struct ProposedProject {
    pub reference: String,
    pub name: String,
}

/// A task that the provider proposes to create.
#[derive(Debug, Clone)]
pub struct ProposedTask {
    pub content: String,
    pub description: String,
    pub destination: ProviderDestination,
    pub priority: TaskPriority,
}

/// A destination as the provider names it: `kind` is "existing" (with a project UUID)
/// or "proposed" (with a project reference).
#[derive(Debug, Clone)]
pub struct ProviderDestination {
    pub kind: String,
    pub project_uuid: Option<u128>,
    pub project_reference: Option<String>,
    pub project_name: String,
}

/// The last cached project with this identifier (a map built from the list keeps the
/// last entry of a repeated key).
pub open spec fn last_project_index(projects: Seq<project::Model>, uuid: u128) -> Option<int>
    decreases projects.len(),
{
    if projects.len() == 0 {
        None
    } else if projects.last().uuid == uuid {
        Some(projects.len() - 1)
    } else {
        last_project_index(projects.drop_last(), uuid)
    }
}

/// The first proposed project with this reference.
pub open spec fn reference_index(proposed: Seq<ProposedProject>, reference: Seq<char>) -> Option<int>
    decreases proposed.len(),
{
    if proposed.len() == 0 {
        None
    } else {
        match reference_index(proposed.drop_last(), reference) {
            Some(i) => Some(i),
            None => if proposed.last().reference@ == reference { Some(proposed.len() - 1) } else { None },
        }
    }
}

/// Whether two proposed projects share a reference.
pub open spec fn has_duplicate_reference(proposed: Seq<ProposedProject>) -> bool {
    exists|i: int, j: int|
        0 <= i < j < proposed.len() && #[trigger] proposed[i].reference@ == #[trigger] proposed[j].reference@
}

/// The destination that a provider destination resolves to, or why it does not.
pub open spec fn resolve_destination(
    d: ProviderDestination,
    projects: Seq<project::Model>,
    proposed: Seq<ProposedProject>,
) -> Result<AiProjectDestination, Seq<char>> {
    if d.kind@ == "existing"@ {
        match d.project_uuid {
            None => Err("Existing destination omitted project_uuid"@),
            Some(uuid) => match last_project_index(projects, uuid) {
                None => Err("AI selected an unknown project UUID"@),
                Some(k) => Ok(AiProjectDestination::Existing { uuid, name: projects[k].name }),
            },
        }
    } else if d.kind@ == "proposed"@ {
        match d.project_reference {
            None => Err("Proposed destination omitted project_reference"@),
            Some(reference) => match reference_index(proposed, reference@) {
                None => Err("AI selected an unknown proposed-project reference"@),
                Some(m) => Ok(AiProjectDestination::Proposed { reference, name: proposed[m].name }),
            },
        }
    } else {
        Err("AI returned an unknown destination kind"@)
    }
}

/// The first proposed project, from index `i` on, that lacks a reference or a name.
pub open spec fn first_blank_project(proposed: Seq<ProposedProject>, i: int) -> bool
    decreases proposed.len() - i,
{
    if i < 0 || i >= proposed.len() {
        false
    } else {
        blank(proposed[i].reference@) || blank(proposed[i].name@) || first_blank_project(proposed, i + 1)
    }
}

/// The create-project actions, in proposal order.
pub open spec fn project_actions(proposed: Seq<ProposedProject>) -> Seq<AiProposedAction> {
    proposed.map_values(|p: ProposedProject| AiProposedAction {
        enabled: true,
        kind: AiProposedActionKind::CreateProject { reference: p.reference, name: p.name },
    })
}

/// The completion-note action, when the note has text.
pub open spec fn note_actions(note: Option<String>) -> Seq<AiProposedAction> {
    match note {
        Some(content) => if blank(content@) {
            Seq::empty()
        } else {
            seq![AiProposedAction { enabled: true, kind: AiProposedActionKind::AddCompletionNote { content } }]
        },
        None => Seq::empty(),
    }
}

/// The create-task actions of the first `n` proposed tasks, or the first destination
/// that does not resolve.
pub open spec fn task_actions(
    tasks: Seq<ProposedTask>,
    n: int,
    projects: Seq<project::Model>,
    proposed: Seq<ProposedProject>,
) -> Result<Seq<AiProposedAction>, Seq<char>>
    decreases n,
{
    if n <= 0 {
        Ok(Seq::empty())
    } else {
        match task_actions(tasks, n - 1, projects, proposed) {
            Err(e) => Err(e),
            Ok(prefix) => match resolve_destination(tasks[n - 1].destination, projects, proposed) {
                Err(e) => Err(e),
                Ok(destination) => Ok(prefix.push(AiProposedAction {
                    enabled: true,
                    kind: AiProposedActionKind::CreateTask {
                        content: tasks[n - 1].content,
                        description: tasks[n - 1].description,
                        destination,
                        priority: todoist_value_of(tasks[n - 1].priority) as i32,
                    },
                })),
            },
        }
    }
}

/// The actions that a provider answer stands for, before validation, or why it is refused.
pub open spec fn proposal_actions(p: ProviderProposal, projects: Seq<project::Model>) -> Result<Seq<AiProposedAction>, Seq<char>> {
    let proposed = p.projects_to_create@;
    if blank(p.summary@) {
        Err("AI proposal summary was empty"@)
    } else if has_duplicate_reference(proposed) {
        Err("AI proposal used duplicate project references"@)
    } else if first_blank_project(proposed, 0) {
        Err("AI project creation requires a reference and name"@)
    } else {
        match task_actions(p.tasks_to_create@, p.tasks_to_create@.len() as int, projects, proposed) {
            Err(e) => Err(e),
            Ok(created) => {
                let before_move = project_actions(proposed) + note_actions(p.completion_note) + created;
                let with_move = match p.move_original_to {
                    None => Ok(before_move),
                    Some(d) => match resolve_destination(d, projects, proposed) {
                        Err(e) => Err(e),
                        Ok(destination) => Ok(before_move.push(AiProposedAction {
                            enabled: true,
                            kind: AiProposedActionKind::MoveOriginalTask { destination },
                        })),
                    },
                };
                match with_move {
                    Err(e) => Err(e),
                    Ok(actions) => Ok(if p.complete_original {
                        actions.push(AiProposedAction { enabled: true, kind: AiProposedActionKind::CompleteTask })
                    } else {
                        actions
                    }),
                }
            },
        }
    }
}

fn find_project(projects: &[project::Model], uuid: u128) -> (r: Option<usize>)
    ensures
        r matches Some(k) ==> k < projects@.len(),
        match r {
            Some(k) => last_project_index(projects@, uuid) == Some(k as int),
            None => last_project_index(projects@, uuid) is None,
        },
{
    let mut i: usize = projects.len();
    proof {
        assert(projects@.take(i as int) =~= projects@);
    }
    while i > 0
        invariant
            i <= projects@.len(),
            last_project_index(projects@, uuid) == last_project_index(projects@.take(i as int), uuid),
        decreases i,
    {
        proof {
            assert(projects@.take(i as int).drop_last() =~= projects@.take(i - 1));
        }
        if projects[i - 1].uuid == uuid {
            return Some(i - 1);
        }
        i = i - 1;
    }
    None
}

fn find_reference(proposed: &Vec<ProposedProject>, reference: &String) -> (r: Option<usize>)
    ensures
        r matches Some(m) ==> m < proposed@.len(),
        match r {
            Some(m) => reference_index(proposed@, reference@) == Some(m as int),
            None => reference_index(proposed@, reference@) is None,
        },
{
    let mut i: usize = 0;
    while i < proposed.len()
        invariant
            i <= proposed@.len(),
            reference_index(proposed@.take(i as int), reference@) is None,
        decreases proposed@.len() - i,
    {
        proof {
            assert(proposed@.take(i + 1).drop_last() =~= proposed@.take(i as int));
        }
        if proposed[i].reference == *reference {
            proof {
                lemma_reference_index_extend(proposed@, i as int + 1, reference@);
            }
            return Some(i);
        }
        i = i + 1;
    }
    proof {
        assert(proposed@.take(i as int) =~= proposed@);
    }
    None
}

proof fn lemma_reference_index_extend(proposed: Seq<ProposedProject>, n: int, reference: Seq<char>)
    requires
        0 < n <= proposed.len(),
        reference_index(proposed.take(n - 1), reference) is None,
        proposed[n - 1].reference@ == reference,
    ensures
        reference_index(proposed, reference) == Some(n - 1),
    decreases proposed.len() - n,
{
    assert(proposed.take(n).drop_last() =~= proposed.take(n - 1));
    if n < proposed.len() {
        lemma_reference_index_extend_more(proposed, n, reference);
    } else {
        assert(proposed.take(n) =~= proposed);
    }
}

proof fn lemma_reference_index_extend_more(proposed: Seq<ProposedProject>, n: int, reference: Seq<char>)
    requires
        0 < n <= proposed.len(),
        reference_index(proposed.take(n), reference) is Some,
    ensures
        reference_index(proposed, reference) == reference_index(proposed.take(n), reference),
    decreases proposed.len() - n,
{
    if n < proposed.len() {
        assert(proposed.take(n + 1).drop_last() =~= proposed.take(n));
        lemma_reference_index_extend_more(proposed, n + 1, reference);
    } else {
        assert(proposed.take(n) =~= proposed);
    }
}

fn duplicate_reference(proposed: &Vec<ProposedProject>) -> (b: bool)
    ensures
        b == has_duplicate_reference(proposed@),
{
    let mut j: usize = 0;
    while j < proposed.len()
        invariant
            j <= proposed@.len(),
            forall|a: int, b: int| 0 <= a < b < j ==> proposed@[a].reference@ != proposed@[b].reference@,
        decreases proposed@.len() - j,
    {
        let mut i: usize = 0;
        while i < j
            invariant
                j < proposed@.len(),
                i <= j,
                forall|a: int| 0 <= a < i ==> proposed@[a].reference@ != proposed@[j as int].reference@,
            decreases j - i,
        {
            if proposed[i].reference == proposed[j].reference {
                assert(proposed@[i as int].reference@ == proposed@[j as int].reference@);
                return true;
            }
            i = i + 1;
        }
        j = j + 1;
    }
    false
}

pub(crate) fn text_equals(s: &String, literal: &str) -> (b: bool)
    ensures
        b == (s@ == literal@),
{
    *s == String::from_str(literal)
}

fn resolve(
    destination: &ProviderDestination,
    projects: &[project::Model],
    proposed: &Vec<ProposedProject>,
) -> (r: Result<AiProjectDestination, String>)
    ensures
        match r {
            Ok(d) => resolve_destination(*destination, projects@, proposed@) == Ok::<AiProjectDestination, Seq<char>>(d),
            Err(e) => resolve_destination(*destination, projects@, proposed@) == Err::<AiProjectDestination, Seq<char>>(e@),
        },
{
    if text_equals(&destination.kind, "existing") {
        match destination.project_uuid {
            None => Err(String::from_str("Existing destination omitted project_uuid")),
            Some(uuid) => match find_project(projects, uuid) {
                None => Err(String::from_str("AI selected an unknown project UUID")),
                Some(k) => Ok(AiProjectDestination::Existing { uuid, name: projects[k].name.clone() }),
            },
        }
    } else if text_equals(&destination.kind, "proposed") {
        match &destination.project_reference {
            None => Err(String::from_str("Proposed destination omitted project_reference")),
            Some(reference) => match find_reference(proposed, reference) {
                None => Err(String::from_str("AI selected an unknown proposed-project reference")),
                Some(m) => Ok(AiProjectDestination::Proposed {
                    reference: reference.clone(),
                    name: proposed[m].name.clone(),
                }),
            },
        }
    } else {
        Err(String::from_str("AI returned an unknown destination kind"))
    }
}

impl ProviderProposal {
    /// Resolves the provider's answer into a proposal and validates it.  Existing
    /// destinations take the cached project's name; proposed destinations must name a
    /// project that the same answer creates.
    pub fn into_proposal(self, available_projects: &[project::Model]) -> (r: Result<AiTaskProposal, String>)
        ensures
            match r {
                Ok(p) => {
                    &&& proposal_actions(self, available_projects@) == Ok::<Seq<AiProposedAction>, Seq<char>>(p.actions@)
                    &&& validation_of(p.actions@) is Ok
                    &&& p.summary == self.summary
                },
                Err(e) => {
                    ||| proposal_actions(self, available_projects@) == Err::<Seq<AiProposedAction>, Seq<char>>(e@)
                    ||| (proposal_actions(self, available_projects@) matches Ok(actions)
                        && validation_of(actions) == Err::<(), Seq<char>>(e@))
                },
            },
    {
        let ghost input = self;
        if is_blank(self.summary.as_str()) {
            return Err(String::from_str("AI proposal summary was empty"));
        }
        if duplicate_reference(&self.projects_to_create) {
            return Err(String::from_str("AI proposal used duplicate project references"));
        }
        let proposed = &self.projects_to_create;
        let mut actions: Vec<AiProposedAction> = Vec::new();
        let mut i: usize = 0;
        while i < proposed.len()
            invariant
                proposed@ == self.projects_to_create@,
                !blank(self.summary@),
                !has_duplicate_reference(proposed@),
                i <= proposed@.len(),
                first_blank_project(proposed@, 0) == first_blank_project(proposed@, i as int),
                actions@ == project_actions(proposed@.take(i as int)),
            decreases proposed@.len() - i,
        {
            let project = &proposed[i];
            if is_blank(project.reference.as_str()) || is_blank(project.name.as_str()) {
                return Err(String::from_str("AI project creation requires a reference and name"));
            }
            actions.push(AiProposedAction {
                enabled: true,
                kind: AiProposedActionKind::CreateProject { reference: project.reference.clone(), name: project.name.clone() },
            });
            proof {
                assert(project_actions(proposed@.take(i + 1)) =~= project_actions(proposed@.take(i as int)).push(actions@.last()));
            }
            i = i + 1;
        }
        proof {
            assert(proposed@.take(i as int) =~= proposed@);
            assert(!first_blank_project(proposed@, i as int));
        }
        let ghost after_projects = actions@;
        match &self.completion_note {
            Some(content) => {
                if !is_blank(content.as_str()) {
                    actions.push(AiProposedAction {
                        enabled: true,
                        kind: AiProposedActionKind::AddCompletionNote { content: content.clone() },
                    });
                }
            },
            None => {},
        }
        proof {
            assert(actions@ =~= after_projects + note_actions(self.completion_note));
        }
        let ghost after_note = actions@;
        let tasks = &self.tasks_to_create;
        let mut t: usize = 0;
        while t < tasks.len()
            invariant
                proposed@ == self.projects_to_create@,
                tasks@ == self.tasks_to_create@,
                !blank(self.summary@),
                !has_duplicate_reference(proposed@),
                !first_blank_project(proposed@, 0),
                after_note == project_actions(proposed@) + note_actions(self.completion_note),
                t <= tasks@.len(),
                task_actions(tasks@, t as int, available_projects@, proposed@) matches Ok(created)
                    && actions@ == after_note + created,
            decreases tasks@.len() - t,
        {
            let task = &tasks[t];
            let destination = match resolve(&task.destination, available_projects, proposed) {
                Ok(d) => d,
                Err(e) => {
                    proof {
                        lemma_task_actions_err_sticks(tasks@, t as int + 1, tasks@.len() as int, available_projects@, proposed@);
                    }
                    return Err(e);
                },
            };
            let ghost prev = actions@;
            actions.push(AiProposedAction {
                enabled: true,
                kind: AiProposedActionKind::CreateTask {
                    content: task.content.clone(),
                    description: task.description.clone(),
                    destination,
                    priority: task.priority.todoist_value(),
                },
            });
            proof {
                let created = task_actions(tasks@, t as int, available_projects@, proposed@)->Ok_0;
                assert(actions@ =~= after_note + created.push(actions@.last()));
            }
            t = t + 1;
        }
        match &self.move_original_to {
            Some(d) => {
                let destination = match resolve(d, available_projects, proposed) {
                    Ok(dest) => dest,
                    Err(e) => {
                        return Err(e);
                    },
                };
                actions.push(AiProposedAction {
                    enabled: true,
                    kind: AiProposedActionKind::MoveOriginalTask { destination },
                });
            },
            None => {},
        }
        if self.complete_original {
            actions.push(AiProposedAction { enabled: true, kind: AiProposedActionKind::CompleteTask });
        }
        let proposal = AiTaskProposal { summary: self.summary, actions };
        match proposal.validate() {
            Ok(()) => Ok(proposal),
            Err(e) => Err(e),
        }
    }
}

proof fn lemma_task_actions_err_sticks(
    tasks: Seq<ProposedTask>,
    n: int,
    m: int,
    projects: Seq<project::Model>,
    proposed: Seq<ProposedProject>,
)
    requires
        0 < n <= m,
        task_actions(tasks, n, projects, proposed) is Err,
    ensures
        task_actions(tasks, m, projects, proposed) == task_actions(tasks, n, projects, proposed),
    decreases m - n,
{
    if n < m {
        lemma_task_actions_err_sticks(tasks, n, m - 1, projects, proposed);
    }
}

} // verus!
