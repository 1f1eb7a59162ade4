//! The application's decisions: how each action changes the interface state, which
//! background work it starts, and what the keys do that no component takes.

use vstd::prelude::*;
use crate::ui::app_core::actions::AiExecutionReport;
use crate::ai::text_equals;
use crate::decimal::{decimal, push_decimal};
use crate::entities::{label, project, section, task};
use crate::ext::{parse_uuid, uuid_text_value};
use crate::sync::SyncStatus;
use crate::ui::app_core::actions::{
    same_proposal, validation_of, Action, AiAssistStage, AiProjectDestination, AiProposedActionKind, AiTaskProposal,
    DialogType, NavigationCounts, SidebarSelection, TaskDueDate,
};
use crate::ui::app_core::operations::{operation_description, LabelOperation, Operation, ProjectOperation, TaskOperation};
use crate::ui::app_core::task_manager::{entries, loading_text, TaskId, TaskManager};
use crate::ui::app_core::view_snapshot::ViewSnapshot;
use crate::ui::components::dialog_component::{dialog_updated, results_taken, DialogComponent};
use crate::ui::components::task_list_component::{fresh_task_list, key_handled, moved, opt_text, selected_task};
use crate::ui::components::dialog_component::{dialog_key_handled, fresh_dialog, same_dialog};
use crate::ui::app_core::actions::is_mutation_action;
use crate::ui::components::task_list_component::{clock_fits, data_updated, in_area, mouse_handled, Area, Key, Mouse, MouseKind, TaskListComponent, ViewClock};
use crate::ext::{fifths_layout, split_fifths};

verus! {

/// The application's data and transient messages.
pub struct AppState {
    pub projects: Vec<project::Model>,
    pub tasks: Vec<task::Model>,
    pub all_tasks: Vec<task::Model>,
    pub labels: Vec<label::Model>,
    pub sections: Vec<section::Model>,
    pub sidebar_selection: SidebarSelection,
    pub loading: bool,
    pub error_message: Option<String>,
    pub info_message: Option<String>,
    pub show_help: bool,
    pub navigation_counts: NavigationCounts,
    pub help_scroll_offset: usize,
}

impl AppState {
    /// The state before any data is loaded.
    pub fn new() -> (s: Self)
        ensures
            s.projects@.len() == 0,
            s.tasks@.len() == 0,
            s.all_tasks@.len() == 0,
            s.labels@.len() == 0,
            s.sections@.len() == 0,
            s.sidebar_selection == SidebarSelection::Today,
            !s.loading,
            s.error_message is None,
            s.info_message is None,
            !s.show_help,
            s.help_scroll_offset == 0,
            s.navigation_counts.today == 0,
            s.navigation_counts.tomorrow == 0,
            s.navigation_counts.upcoming == 0,
            s.navigation_counts.trash == 0,
            s.navigation_counts.projects@.len() == 0,
            s.navigation_counts.labels@.len() == 0,
    {
        AppState {
            projects: Vec::new(),
            tasks: Vec::new(),
            all_tasks: Vec::new(),
            labels: Vec::new(),
            sections: Vec::new(),
            sidebar_selection: SidebarSelection::Today,
            loading: false,
            error_message: None,
            info_message: None,
            show_help: false,
            navigation_counts: NavigationCounts {
                today: 0,
                tomorrow: 0,
                upcoming: 0,
                trash: 0,
                projects: Vec::new(),
                labels: Vec::new(),
            },
            help_scroll_offset: 0,
        }
    }

    /// Replaces all data at once.
    pub fn update_data(
        &mut self,
        projects: Vec<project::Model>,
        labels: Vec<label::Model>,
        sections: Vec<section::Model>,
        tasks: Vec<task::Model>,
        all_tasks: Vec<task::Model>,
        navigation_counts: NavigationCounts,
    )
        ensures
            *final(self) == (AppState { projects, labels, sections, tasks, all_tasks, navigation_counts, ..*old(self) }),
    {
        self.projects = projects;
        self.labels = labels;
        self.sections = sections;
        self.tasks = tasks;
        self.all_tasks = all_tasks;
        self.navigation_counts = navigation_counts;
    }

    /// Drops the transient messages.
    pub fn clear_messages(&mut self)
        ensures
            *final(self) == (AppState { error_message: None, info_message: None, ..*old(self) }),
    {
        self.error_message = None;
        self.info_message = None;
    }
}

/// The five smart views, in the order the arrow keys go through them.
pub open spec fn smart_view_seq() -> Seq<SidebarSelection> {
    seq![
        SidebarSelection::Today,
        SidebarSelection::Agenda,
        SidebarSelection::Tomorrow,
        SidebarSelection::Upcoming,
        SidebarSelection::Trash,
    ]
}

/// The place of a view among the smart views.
pub open spec fn smart_view_index(s: SidebarSelection) -> Option<int> {
    match s {
        SidebarSelection::Today => Some(0),
        SidebarSelection::Agenda => Some(1),
        SidebarSelection::Tomorrow => Some(2),
        SidebarSelection::Upcoming => Some(3),
        SidebarSelection::Trash => Some(4),
        _ => None,
    }
}

/// The smart view after or before a view, wrapping around; from a project or label
/// view, forward gives the first and backward the last.
pub open spec fn adjacent_view(s: SidebarSelection, forward: bool) -> SidebarSelection {
    let i = match smart_view_index(s) {
        Some(i) => if forward { (i + 1) % 5 } else { (i + 4) % 5 },
        None => if forward { 0 } else { 4 },
    };
    smart_view_seq()[i]
}

/// Stepping to the next smart view and back returns to the view, and so does stepping
/// back and then forward.
pub proof fn lemma_adjacent_round_trip(s: SidebarSelection)
    requires
        smart_view_index(s) is Some,
    ensures
        adjacent_view(adjacent_view(s, true), false) == s,
        adjacent_view(adjacent_view(s, false), true) == s,
{
}

/// Five steps forward through the smart views come back to the start.
pub proof fn lemma_adjacent_cycle(s: SidebarSelection)
    requires
        smart_view_index(s) is Some,
    ensures
        adjacent_view(adjacent_view(adjacent_view(adjacent_view(adjacent_view(s, true), true), true), true), true) == s,
{
}

/// The smart views, in order.
pub fn smart_views() -> (v: Vec<SidebarSelection>)
    ensures
        v@ == smart_view_seq(),
{
    let v = vec![
        SidebarSelection::Today,
        SidebarSelection::Agenda,
        SidebarSelection::Tomorrow,
        SidebarSelection::Upcoming,
        SidebarSelection::Trash,
    ];
    assert(v@ =~= smart_view_seq());
    v
}

/// The smart view after (or before) the given view.
pub fn adjacent_smart_view(selection: SidebarSelection, forward: bool) -> (r: SidebarSelection)
    ensures
        r == adjacent_view(selection, forward),
{
    let views = smart_views();
    let current: Option<usize> = match selection {
        SidebarSelection::Today => Some(0),
        SidebarSelection::Agenda => Some(1),
        SidebarSelection::Tomorrow => Some(2),
        SidebarSelection::Upcoming => Some(3),
        SidebarSelection::Trash => Some(4),
        _ => None,
    };
    let index: usize = match current {
        Some(i) => if forward { (i + 1) % 5 } else { (i + 4) % 5 },
        None => if forward { 0 } else { 4 },
    };
    views[index]
}

/// The key hints shown for a view.
pub open spec fn shortcut_hints(selection: SidebarSelection) -> Seq<(Seq<char>, Seq<char>)> {
    if selection == SidebarSelection::Trash {
        seq![
            ("j/k"@, "navigate"@),
            ("Enter"@, "details"@),
            ("x"@, "select"@),
            ("d"@, "restore"@),
            ("D"@, "empty trash"@),
            ("/"@, "search"@),
            ("r"@, "sync"@),
            ("?"@, "help"@),
            ("q"@, "quit"@),
        ]
    } else if selection == SidebarSelection::Agenda {
        seq![
            ("j/k"@, "navigate"@),
            ("Enter"@, "details"@),
            ("Space"@, "toggle complete"@),
            ("s"@, "set time"@),
            ("/"@, "search"@),
            ("r"@, "sync"@),
            ("?"@, "help"@),
            ("q"@, "quit"@),
        ]
    } else {
        seq![
            ("j/k"@, "navigate"@),
            ("Enter"@, "details"@),
            ("x"@, "select"@),
            ("Space"@, "toggle complete"@),
            ("a"@, "add"@),
            ("t"@, "today"@),
            ("/"@, "search"@),
            ("r"@, "sync"@),
            ("?"@, "help"@),
            ("q"@, "quit"@),
        ]
    }
}

/// The key hints as the program holds them.
pub open spec fn hints_view(v: Seq<(&str, &str)>) -> Seq<(Seq<char>, Seq<char>)> {
    v.map_values(|h: (&str, &str)| (h.0@, h.1@))
}

/// The key hints shown for a view: restoring in the Trash, setting times in the Agenda.
pub fn shortcut_bar_items(selection: SidebarSelection) -> (v: Vec<(&'static str, &'static str)>)
    ensures
        hints_view(v@) == shortcut_hints(selection),
{
    let v = if selection == SidebarSelection::Trash {
        vec![
            ("j/k", "navigate"),
            ("Enter", "details"),
            ("x", "select"),
            ("d", "restore"),
            ("D", "empty trash"),
            ("/", "search"),
            ("r", "sync"),
            ("?", "help"),
            ("q", "quit"),
        ]
    } else if selection == SidebarSelection::Agenda {
        vec![
            ("j/k", "navigate"),
            ("Enter", "details"),
            ("Space", "toggle complete"),
            ("s", "set time"),
            ("/", "search"),
            ("r", "sync"),
            ("?", "help"),
            ("q", "quit"),
        ]
    } else {
        vec![
            ("j/k", "navigate"),
            ("Enter", "details"),
            ("x", "select"),
            ("Space", "toggle complete"),
            ("a", "add"),
            ("t", "today"),
            ("/", "search"),
            ("r", "sync"),
            ("?", "help"),
            ("q", "quit"),
        ]
    };
    assert(hints_view(v@) =~= shortcut_hints(selection));
    v
}

/// The one task to complete without blocking input: a toggle of exactly one task that
/// is to be completed rather than restored.
pub open spec fn single_completion(tasks: Seq<(u128, bool)>) -> Option<u128> {
    if tasks.len() == 1 && !tasks[0].1 { Some(tasks[0].0) } else { None }
}

/// The task that a toggle completes in the background without blocking input, if any.
pub fn single_task_completion(tasks: &[(u128, bool)]) -> (r: Option<u128>)
    ensures
        r == single_completion(tasks@),
{
    if tasks.len() == 1 && !tasks[0].1 {
        Some(tasks[0].0)
    } else {
        None
    }
}

/// The project identifier of a reference created earlier in an AI run.
pub open spec fn created_lookup(created: Seq<(String, u128)>, reference: Seq<char>) -> Option<u128>
    decreases created.len(),
{
    if created.len() == 0 {
        None
    } else if created.last().0@ == reference {
        Some(created.last().1)
    } else {
        created_lookup(created.drop_last(), reference)
    }
}

/// Where a created or moved task goes: an existing project, or one that an earlier
/// action of the run created under the reference.
pub open spec fn resolved_destination(d: AiProjectDestination, created: Seq<(String, u128)>) -> Result<u128, Seq<char>> {
    match d {
        AiProjectDestination::Existing { uuid, .. } => Ok(uuid),
        AiProjectDestination::Proposed { reference, name } => match created_lookup(created, reference@) {
            Some(u) => Ok(u),
            None => Err("Created project '"@ + name@ + "' was not available to a dependent action."@),
        },
    }
}

/// Resolves the project of a proposed destination; the latest project created under a
/// reference wins.
pub fn resolve_ai_destination(destination: &AiProjectDestination, created_projects: &Vec<(String, u128)>) -> (r: Result<u128, String>)
    ensures
        match r {
            Ok(u) => resolved_destination(*destination, created_projects@) == Ok::<u128, Seq<char>>(u),
            Err(e) => resolved_destination(*destination, created_projects@) == Err::<u128, Seq<char>>(e@),
        },
{
    match destination {
        AiProjectDestination::Existing { uuid, .. } => Ok(*uuid),
        AiProjectDestination::Proposed { reference, name } => {
            let mut i: usize = created_projects.len();
            proof {
                assert(created_projects@.take(i as int) =~= created_projects@);
            }
            while i > 0
                invariant
                    i <= created_projects@.len(),
                    *destination == (AiProjectDestination::Proposed { reference: *reference, name: *name }),
                    created_lookup(created_projects@, reference@) == created_lookup(created_projects@.take(i as int), reference@),
                decreases i,
            {
                proof {
                    assert(created_projects@.take(i as int).drop_last() =~= created_projects@.take(i - 1));
                    assert(created_projects@.take(i as int).last() == created_projects@[i - 1]);
                }
                if text_equals(&created_projects[i - 1].0, reference.as_str()) {
                    return Ok(created_projects[i - 1].1);
                }
                i = i - 1;
            }
            let mut e = String::from_str("Created project '");
            e.append(name.as_str());
            e.append("' was not available to a dependent action.");
            Err(e)
        },
    }
}

/// Background work that the application asks to be started.
pub enum Effect {
    /// Save the sidebar layout.
    PersistUiState { sidebar_collapsed: bool },
    /// Sync with the backend.
    StartSync { id: TaskId },
    /// Load the cached data of a view.
    LoadData { id: TaskId, selection: SidebarSelection, generation: u64, initial: bool },
    /// Run a data operation.
    RunOperation { id: TaskId, operation: Operation },
    /// Complete one task without blocking input.
    CompleteTask { id: TaskId, task_uuid: u128 },
    /// Complete or restore several tasks.
    ToggleTasks { id: TaskId, tasks: Vec<(u128, bool)> },
    /// Move several tasks to a due date.
    SetTasksDueDate { id: TaskId, task_ids: Vec<u128>, due_date: TaskDueDate },
    /// Set the time of a task.
    SetTaskDueTime { id: TaskId, task_uuid: u128, due_datetime: String },
    /// Delete the trashed tasks for good.
    EmptyTrash { id: TaskId },
    /// Search the cached tasks.
    SearchTasks { id: TaskId, query: String },
    /// Ask the AI provider for a proposal (or a revision of `previous`).
    GenerateProposal {
        task: Box<task::Model>,
        context: String,
        project_name: String,
        section_name: Option<String>,
        previous: Option<AiTaskProposal>,
        revision: Option<String>,
    },
    /// Carry out the enabled actions of a proposal.
    ApplyProposal { id: TaskId, task: Box<task::Model>, proposal: AiTaskProposal },
    /// Read a task's priority before cycling it.
    LookUpPriority { task_uuid: u128 },
}

/// The application's state and components.
pub struct AppComponent {
    pub task_list: TaskListComponent,
    pub dialog: DialogComponent,
    pub state: AppState,
    pub task_manager: TaskManager,
    pub should_quit: bool,
    pub active_sync_task: Option<TaskId>,
    pub is_initial_sync: bool,
    pub next_load_generation: u64,
    pub latest_requested_generation: u64,
    pub latest_applied_generation: u64,
    pub sidebar_collapsed: bool,
    /// Whether the sync service works without a backend.
    pub debug_mode: bool,
    /// The configured first view: `inbox`, a smart view's name, or a project's
    /// identifier or name.
    pub default_project: String,
    /// Where things are on the screen, and the sidebar's resizing.
    pub layout: ScreenLayout,
}

/// Where things are on the screen, the sidebar's resizing, and the limits it obeys.
#[derive(Debug, Clone, Copy)]
pub struct ScreenLayout {
    pub sidebar_width: u16,
    pub sidebar_width_override: Option<u16>,
    pub resizing_sidebar: bool,
    pub screen_width: u16,
    pub screen_height: u16,
    pub smart_view_bar: Area,
    pub main_content: Area,
    pub sidebar_default_width: u16,
    pub sidebar_min_width: u16,
    pub main_area_min_width: u16,
}

/// `a` registers one more piece of work than `b`.
pub open spec fn registered(b: TaskManager, a: TaskManager, d: Seq<char>, blocks: bool, u: Option<u128>) -> bool {
    &&& a.next_task_id == b.next_task_id.wrapping_add(1)
    &&& entries(a.tasks@) == entries(b.tasks@).push((b.next_task_id, d, blocks, u))
}

/// The successor of a generation counter.
pub open spec fn next_generation(g: u64) -> u64 {
    g.wrapping_add(1)
}

/// `a` is `b` after asking for the data of the current view under the next
/// generation.
pub open spec fn load_scheduled(b: AppComponent, a: AppComponent, initial: bool, e: Effect) -> bool {
    let g = b.next_load_generation;
    &&& registered(b.task_manager, a.task_manager, loading_text(), true, None)
    &&& e == (Effect::LoadData { id: b.task_manager.next_task_id, selection: b.state.sidebar_selection, generation: g, initial })
    &&& a == (AppComponent {
        next_load_generation: next_generation(g),
        latest_requested_generation: g,
        state: AppState { loading: true, ..b.state },
        task_manager: a.task_manager,
        ..b
    })
}

/// Whether an operation runs without blocking input: completing one task.
pub open spec fn completes_one(op: Operation) -> Option<u128> {
    match op {
        Operation::Task(TaskOperation::Complete(u)) => Some(u),
        _ => None,
    }
}

/// `a` is `b` after starting an operation.
pub open spec fn operation_spawned(b: AppComponent, a: AppComponent, op: Operation, e: Seq<Effect>) -> bool {
    &&& registered(b.task_manager, a.task_manager, operation_description(op), completes_one(op) is None, completes_one(op))
    &&& e == seq![Effect::RunOperation { id: b.task_manager.next_task_id, operation: op }]
    &&& a == (AppComponent { task_manager: a.task_manager, ..b })
}

/// `a` shows the state's data in its components.
pub open spec fn components_synced(b: AppComponent, a: AppComponent) -> bool {
    let st = b.state;
    &&& a == (AppComponent { task_list: a.task_list, dialog: a.dialog, ..b })
    &&& a.dialog == (DialogComponent { projects: a.dialog.projects, labels: a.dialog.labels, tasks: a.dialog.tasks, ..b.dialog })
    &&& a.dialog.projects@ == st.projects@ && a.dialog.labels@ == st.labels@ && a.dialog.tasks@ == st.tasks@
    &&& exists|mid: TaskListComponent, clock: ViewClock| {
        &&& mid == (TaskListComponent { all_tasks: mid.all_tasks, ..b.task_list })
        &&& mid.all_tasks@ == st.all_tasks@
        &&& clock_fits(clock, st.tasks@)
        &&& data_updated(mid, a.task_list, st.tasks@, st.sections@, st.projects@, st.labels@, st.sidebar_selection, clock)
    }
}

impl AppComponent {
    /// The application's invariant: its components keep theirs.
    pub open spec fn wf(&self) -> bool {
        self.task_list.wf() && self.dialog.wf()
    }

    /// The application before anything is loaded: loading, the first generation next.
    pub fn new(debug_mode: bool, default_project: String, sidebar_collapsed: bool, layout: ScreenLayout) -> (app: Self)
        ensures
            app.layout == layout,
            app.wf(),
            app.state.loading,
            app.state.projects@.len() == 0,
            app.state.sidebar_selection == SidebarSelection::Today,
            !app.should_quit,
            app.active_sync_task is None,
            app.next_load_generation == 1,
            app.latest_requested_generation == 0,
            app.latest_applied_generation == 0,
            app.task_manager.tasks@.len() == 0,
            app.sidebar_collapsed == sidebar_collapsed,
            app.debug_mode == debug_mode,
            app.default_project == default_project,
            !app.is_initial_sync,
            fresh_dialog(app.dialog),
            fresh_task_list(app.task_list),
            app.state.tasks@.len() == 0,
            app.state.all_tasks@.len() == 0,
            app.state.labels@.len() == 0,
            app.state.sections@.len() == 0,
            app.state.error_message is None,
            app.state.info_message is None,
            !app.state.show_help,
            app.state.help_scroll_offset == 0,
    {
        let mut state = AppState::new();
        state.loading = true;
        AppComponent {
            task_list: TaskListComponent::new(),
            dialog: DialogComponent::new(),
            state,
            task_manager: TaskManager::new(),
            should_quit: false,
            active_sync_task: None,
            is_initial_sync: false,
            next_load_generation: 1,
            latest_requested_generation: 0,
            latest_applied_generation: 0,
            sidebar_collapsed,
            debug_mode,
            default_project,
            layout,
        }
    }

    /// Whether the application is to stop.
    pub fn should_quit(&self) -> (b: bool)
        ensures
            b == self.should_quit,
    {
        self.should_quit
    }

    /// The number of running background tasks.
    pub fn active_task_count(&self) -> (n: usize)
        ensures
            n == self.task_manager.tasks@.len(),
    {
        self.task_manager.task_count()
    }

    /// Whether a sync runs.
    pub fn is_syncing(&self) -> (b: bool)
        ensures
            b == self.active_sync_task is Some,
    {
        self.active_sync_task.is_some()
    }

    /// The number of listed tasks.
    pub fn total_tasks(&self) -> (n: usize)
        ensures
            n == self.state.tasks@.len(),
    {
        self.state.tasks.len()
    }

    /// The number of projects.
    pub fn total_projects(&self) -> (n: usize)
        ensures
            n == self.state.projects@.len(),
    {
        self.state.projects.len()
    }

    /// Whether background work runs.
    pub fn is_busy(&self) -> (b: bool)
        ensures
            b == (self.task_manager.tasks@.len() > 0),
    {
        self.task_manager.task_count() > 0
    }

    /// Asks for the data of the current view under the next generation.
    fn schedule_load(&mut self, initial: bool) -> (e: Effect)
        ensures
            load_scheduled(*old(self), *final(self), initial, e),
    {
        let generation = self.next_load_generation;
        self.next_load_generation = self.next_load_generation.wrapping_add(1);
        self.latest_requested_generation = generation;
        self.state.loading = true;
        let id = self.task_manager.spawn_data_load();
        Effect::LoadData { id, selection: self.state.sidebar_selection, generation, initial }
    }

    /// Starts an operation; completing one task leaves input free.
    fn spawn_operation(&mut self, operation: Operation) -> (e: Vec<Effect>)
        ensures
            operation_spawned(*old(self), *final(self), operation, e@),
    {
        let description = operation.description();
        let complete = match &operation {
            Operation::Task(TaskOperation::Complete(u)) => Some(*u),
            _ => None,
        };
        let id = match complete {
            Some(u) => self.task_manager.spawn_non_blocking_task_operation(u, description),
            None => self.task_manager.spawn_task_operation(description),
        };
        let mut e: Vec<Effect> = Vec::new();
        e.push(Effect::RunOperation { id, operation });
        e
    }

    /// Shows the state's data in the task list and the dialog.
    fn sync_component_data(&mut self)
        requires
            old(self).wf(),
        ensures
            final(self).wf(),
            components_synced(*old(self), *final(self)),
    {
        let ghost before = *self;
        self.task_list.update_all_tasks(task::duplicate_all(&self.state.all_tasks));
        let ghost mid = self.task_list;
        self.task_list.update_data(
            task::duplicate_all(&self.state.tasks),
            section::duplicate_all(&self.state.sections),
            project::duplicate_all(&self.state.projects),
            label::duplicate_all(&self.state.labels),
            self.state.sidebar_selection,
        );
        self.dialog.update_data_with_tasks(
            project::duplicate_all(&self.state.projects),
            label::duplicate_all(&self.state.labels),
            task::duplicate_all(&self.state.tasks),
        );
        proof {
            assert(mid == (TaskListComponent { all_tasks: mid.all_tasks, ..before.task_list }));
        }
    }
}

/// The first inbox project.
pub open spec fn first_inbox(ps: Seq<project::Model>) -> Option<project::Model>
    decreases ps.len(),
{
    if ps.len() == 0 {
        None
    } else if ps[0].is_inbox_project {
        Some(ps[0])
    } else {
        first_inbox(ps.drop_first())
    }
}

/// The first project with the name.
pub open spec fn first_named(ps: Seq<project::Model>, name: Seq<char>) -> Option<project::Model>
    decreases ps.len(),
{
    if ps.len() == 0 {
        None
    } else if ps[0].name@ == name {
        Some(ps[0])
    } else {
        first_named(ps.drop_first(), name)
    }
}

/// Whether some project has the identifier.
pub open spec fn has_project(ps: Seq<project::Model>, u: u128) -> bool {
    exists|k: int| 0 <= k < ps.len() && #[trigger] ps[k].uuid == u
}

/// The project view named by a project's name, or Today.
pub open spec fn named_or_today(ps: Seq<project::Model>, name: Seq<char>) -> SidebarSelection {
    match first_named(ps, name) {
        Some(p) => SidebarSelection::Project(p.uuid),
        None => SidebarSelection::Today,
    }
}

/// The first view after startup: the inbox, a smart view by name, or a project by
/// identifier or name; Today when nothing matches.
pub open spec fn initial_selection(default: Seq<char>, ps: Seq<project::Model>) -> SidebarSelection {
    if default == "inbox"@ {
        match first_inbox(ps) {
            Some(p) => SidebarSelection::Project(p.uuid),
            None => SidebarSelection::Today,
        }
    } else if default == "today"@ {
        SidebarSelection::Today
    } else if default == "agenda"@ {
        SidebarSelection::Agenda
    } else if default == "tomorrow"@ {
        SidebarSelection::Tomorrow
    } else if default == "upcoming"@ {
        SidebarSelection::Upcoming
    } else {
        match uuid_text_value(default) {
            Some(u) => if has_project(ps, u) { SidebarSelection::Project(u) } else { named_or_today(ps, default) },
            None => named_or_today(ps, default),
        }
    }
}

fn find_inbox(ps: &Vec<project::Model>) -> (r: Option<u128>)
    ensures
        r == match first_inbox(ps@) {
            Some(p) => Some(p.uuid),
            None => None::<u128>,
        },
{
    let mut i: usize = 0;
    proof {
        assert(ps@.skip(0) =~= ps@);
    }
    while i < ps.len()
        invariant
            i <= ps@.len(),
            first_inbox(ps@) == first_inbox(ps@.skip(i as int)),
        decreases ps@.len() - i,
    {
        proof {
            assert(ps@.skip(i as int)[0] == ps@[i as int]);
            assert(ps@.skip(i as int).drop_first() =~= ps@.skip(i + 1));
        }
        if ps[i].is_inbox_project {
            return Some(ps[i].uuid);
        }
        i = i + 1;
    }
    None
}

fn find_named(ps: &Vec<project::Model>, name: &str) -> (r: Option<u128>)
    ensures
        r == match first_named(ps@, name@) {
            Some(p) => Some(p.uuid),
            None => None::<u128>,
        },
{
    let mut i: usize = 0;
    proof {
        assert(ps@.skip(0) =~= ps@);
    }
    while i < ps.len()
        invariant
            i <= ps@.len(),
            first_named(ps@, name@) == first_named(ps@.skip(i as int), name@),
        decreases ps@.len() - i,
    {
        proof {
            assert(ps@.skip(i as int)[0] == ps@[i as int]);
            assert(ps@.skip(i as int).drop_first() =~= ps@.skip(i + 1));
        }
        if text_equals(&ps[i].name, name) {
            return Some(ps[i].uuid);
        }
        i = i + 1;
    }
    None
}

fn project_exists(ps: &Vec<project::Model>, u: u128) -> (b: bool)
    ensures
        b == has_project(ps@, u),
{
    let mut i: usize = 0;
    while i < ps.len()
        invariant
            i <= ps@.len(),
            forall|k: int| 0 <= k < i ==> #[trigger] ps@[k].uuid != u,
        decreases ps@.len() - i,
    {
        if ps[i].uuid == u {
            return true;
        }
        i = i + 1;
    }
    false
}

/// The first view after startup for the configured default.
pub fn initial_sidebar_selection(default: &String, projects: &Vec<project::Model>) -> (s: SidebarSelection)
    ensures
        s == initial_selection(default@, projects@),
{
    if text_equals(default, "inbox") {
        match find_inbox(projects) {
            Some(u) => SidebarSelection::Project(u),
            None => SidebarSelection::Today,
        }
    } else if text_equals(default, "today") {
        SidebarSelection::Today
    } else if text_equals(default, "agenda") {
        SidebarSelection::Agenda
    } else if text_equals(default, "tomorrow") {
        SidebarSelection::Tomorrow
    } else if text_equals(default, "upcoming") {
        SidebarSelection::Upcoming
    } else {
        let named = match find_named(projects, default.as_str()) {
            Some(u) => SidebarSelection::Project(u),
            None => SidebarSelection::Today,
        };
        match parse_uuid(default.as_str()) {
            Some(u) => if project_exists(projects, u) {
                SidebarSelection::Project(u)
            } else {
                named
            },
            None => named,
        }
    }
}

/// The priority after a cycle: 1 through 4, then back to 1.
pub open spec fn next_priority(p: i32) -> i32 {
    if p == 4 { 1 } else { (p + 1) as i32 }
}

/// The name of a task's project, or "Unknown".
pub open spec fn project_name_of(ps: Seq<project::Model>, u: u128) -> Seq<char>
    decreases ps.len(),
{
    if ps.len() == 0 {
        "Unknown"@
    } else if ps[0].uuid == u {
        ps[0].name@
    } else {
        project_name_of(ps.drop_first(), u)
    }
}

/// The name of a task's section, if it has one that is listed.
pub open spec fn section_name_of(ss: Seq<section::Model>, u: Option<u128>) -> Option<Seq<char>>
    decreases ss.len(),
{
    match u {
        None => None,
        Some(id) => if ss.len() == 0 {
            None
        } else if ss[0].uuid == id {
            Some(ss[0].name@)
        } else {
            section_name_of(ss.drop_first(), u)
        },
    }
}

fn find_project_name(ps: &Vec<project::Model>, u: u128) -> (r: String)
    ensures
        r@ == project_name_of(ps@, u),
{
    let mut i: usize = 0;
    proof {
        assert(ps@.skip(0) =~= ps@);
    }
    while i < ps.len()
        invariant
            i <= ps@.len(),
            project_name_of(ps@, u) == project_name_of(ps@.skip(i as int), u),
        decreases ps@.len() - i,
    {
        proof {
            assert(ps@.skip(i as int)[0] == ps@[i as int]);
            assert(ps@.skip(i as int).drop_first() =~= ps@.skip(i + 1));
        }
        if ps[i].uuid == u {
            return ps[i].name.clone();
        }
        i = i + 1;
    }
    String::from_str("Unknown")
}

fn find_section_name(ss: &Vec<section::Model>, u: Option<u128>) -> (r: Option<String>)
    ensures
        crate::ui::components::task_list_component::opt_text(r) == section_name_of(ss@, u),
{
    let id = match u {
        Some(id) => id,
        None => {
            return None;
        },
    };
    let mut i: usize = 0;
    proof {
        assert(ss@.skip(0) =~= ss@);
    }
    while i < ss.len()
        invariant
            i <= ss@.len(),
            u == Some(id),
            section_name_of(ss@, u) == section_name_of(ss@.skip(i as int), u),
        decreases ss@.len() - i,
    {
        proof {
            assert(ss@.skip(i as int)[0] == ss@[i as int]);
            assert(ss@.skip(i as int).drop_first() =~= ss@.skip(i + 1));
        }
        if ss[i].uuid == id {
            return Some(ss[i].name.clone());
        }
        i = i + 1;
    }
    None
}

/// The description of a due-date change of several tasks.
pub open spec fn due_change_text(due: TaskDueDate, count: nat) -> Seq<char> {
    let verb = match due {
        TaskDueDate::Unscheduled => "Unscheduling"@,
        TaskDueDate::Today => "Scheduling for today"@,
        TaskDueDate::Tomorrow => "Scheduling for tomorrow"@,
        TaskDueDate::NextWeek => "Scheduling for next week"@,
        TaskDueDate::Weekend => "Scheduling for the weekend"@,
    };
    verb + " "@ + decimal(count) + " task(s)"@
}

/// The description of a toggle of several tasks.
pub open spec fn toggle_text(count: nat) -> Seq<char> {
    "Toggle "@ + decimal(count) + " selected task(s)"@
}

fn due_change_description(due: TaskDueDate, count: usize) -> (s: String)
    ensures
        s@ == due_change_text(due, count as nat),
{
    let verb = match due {
        TaskDueDate::Unscheduled => "Unscheduling",
        TaskDueDate::Today => "Scheduling for today",
        TaskDueDate::Tomorrow => "Scheduling for tomorrow",
        TaskDueDate::NextWeek => "Scheduling for next week",
        TaskDueDate::Weekend => "Scheduling for the weekend",
    };
    let mut s = String::from_str(verb);
    s.append(" ");
    push_decimal(&mut s, count as u64);
    s.append(" task(s)");
    s
}

fn toggle_description(count: usize) -> (s: String)
    ensures
        s@ == toggle_text(count as nat),
{
    let mut s = String::from_str("Toggle ");
    push_decimal(&mut s, count as u64);
    s.append(" selected task(s)");
    s
}

/// The message shown when a sync completes.
pub open spec fn sync_done_text() -> Seq<char> {
    "Sync completed successfully"@
}

/// `a` is `b` after the background sync is started.
pub open spec fn sync_started(b: AppComponent, a: AppComponent, e: Seq<Effect>) -> bool {
    &&& registered(b.task_manager, a.task_manager, "Background sync"@, false, None)
    &&& e == seq![Effect::StartSync { id: b.task_manager.next_task_id }]
    &&& a == (AppComponent {
        task_manager: a.task_manager,
        active_sync_task: Some(b.task_manager.next_task_id),
        ..b
    })
}

/// What a finished sync does.
pub open spec fn sync_completed(b: AppComponent, a: AppComponent, status: SyncStatus, r: Action, e: Seq<Effect>) -> bool {
    let c = AppComponent { active_sync_task: None, state: AppState { loading: false, ..b.state }, ..b };
    match status {
        SyncStatus::Success => {
            &&& e.len() == 1
            &&& r matches Action::ShowDialog(DialogType::Info(m)) && m@ == sync_done_text()
            &&& exists|mid: AppComponent, synced: AppComponent| {
                &&& (if b.is_initial_sync {
                    load_scheduled(c, mid, true, e[0])
                } else {
                    load_scheduled(c, mid, false, e[0])
                })
                &&& components_synced(AppComponent { is_initial_sync: false, ..mid }, synced)
                &&& a.state.info_message matches Some(m) && m@ == sync_done_text()
                &&& a == (AppComponent { state: AppState { info_message: a.state.info_message, ..synced.state }, ..synced })
            }
        },
        SyncStatus::Error { message } => {
            &&& e.len() == 0
            &&& r matches Action::ShowDialog(DialogType::Error(m)) && m@ == message@
            &&& a == (AppComponent { is_initial_sync: false, state: AppState { error_message: Some(message), ..c.state }, ..c })
        },
        _ => e.len() == 0 && r is Noop && a == c,
    }
}

/// Whether a snapshot answers the latest request for the current view.
pub open spec fn snapshot_current(b: AppComponent, generation: u64, selection: SidebarSelection) -> bool {
    generation == b.latest_requested_generation && selection == b.state.sidebar_selection
}

/// What loaded data does: a stale snapshot is ignored; a current one replaces the
/// data, is shown, and at startup also picks the configured first view and loads it.
pub open spec fn data_loaded(b: AppComponent, a: AppComponent, snap: ViewSnapshot, r: Action, e: Seq<Effect>) -> bool {
    &&& r is Noop
    &&& if !snapshot_current(b, snap.generation, snap.selection) {
        a == b && e.len() == 0
    } else {
        let applied = AppComponent {
            latest_applied_generation: snap.generation,
            state: AppState {
                loading: false,
                projects: snap.projects,
                labels: snap.labels,
                sections: snap.sections,
                tasks: snap.tasks,
                all_tasks: snap.all_tasks,
                navigation_counts: snap.navigation_counts,
                ..b.state
            },
            ..b
        };
        exists|synced: AppComponent| {
            &&& components_synced(applied, synced)
            &&& if snap.is_initial {
                e.len() == 1 && load_scheduled(
                    AppComponent {
                        state: AppState {
                            sidebar_selection: initial_selection(b.default_project@, snap.projects@),
                            ..synced.state
                        },
                        ..synced
                    },
                    a,
                    false,
                    e[0],
                )
            } else {
                e.len() == 0 && a == synced
            }
        }
    }
}

/// A snapshot for an older request, or for a view that is no longer selected, changes
/// nothing: the last accepted data stays.
pub proof fn lemma_stale_snapshot_ignored(b: AppComponent, a: AppComponent, snap: ViewSnapshot, r: Action, e: Seq<Effect>)
    requires
        app_action_handled(b, a, Action::DataLoaded(Box::new(snap)), r, e),
        snap.generation != b.latest_requested_generation || snap.selection != b.state.sidebar_selection,
    ensures
        a == b,
        e.len() == 0,
{
}

/// Data that is accepted is that of the latest request, for the selected view.
pub proof fn lemma_applied_snapshot_is_latest(b: AppComponent, a: AppComponent, snap: ViewSnapshot, r: Action, e: Seq<Effect>)
    requires
        app_action_handled(b, a, Action::DataLoaded(Box::new(snap)), r, e),
        a != b,
    ensures
        snap.generation == b.latest_requested_generation,
        snap.selection == b.state.sidebar_selection,
{
}

/// What a request for an AI proposal does: the dialog shows that a proposal is being
/// generated, and the provider is asked with the task's project and section names.
pub open spec fn ai_requested(
    b: AppComponent,
    a: AppComponent,
    task: Box<task::Model>,
    context: String,
    previous: Option<AiTaskProposal>,
    revision: Option<String>,
    e: Seq<Effect>,
) -> bool {
    &&& a == (AppComponent { dialog: a.dialog, ..b })
    &&& exists|dr: Action, shown_previous: Option<AiTaskProposal>| {
        &&& (previous is None ==> shown_previous is None)
        &&& (previous matches Some(p) ==> shown_previous matches Some(q) && same_proposal(q, p))
        &&& dialog_updated(
            b.dialog,
            a.dialog,
            Action::ShowDialog(
                DialogType::AiTaskManagement {
                    task,
                    stage: AiAssistStage::Generating,
                    proposal: shown_previous,
                    report: None,
                },
            ),
            dr,
        )
    }
    &&& e.len() == 1
    &&& e[0] matches Effect::GenerateProposal { task: t, context: c, project_name, section_name, previous: p, revision: rv }
        && t == task && c == context && p == previous && rv == revision
        && project_name@ == project_name_of(b.state.projects@, task.project_uuid)
        && opt_text(section_name) == section_name_of(b.state.sections@, task.section_uuid)
}

/// What applying a proposal does: an invalid proposal is shown as an error; a valid
/// one is shown as being applied and its actions are started.
pub open spec fn ai_apply_requested(
    b: AppComponent,
    a: AppComponent,
    task: Box<task::Model>,
    proposal: AiTaskProposal,
    e: Seq<Effect>,
) -> bool {
    match validation_of(proposal.actions@) {
        Err(m) => {
            &&& e.len() == 0
            &&& a == (AppComponent { dialog: a.dialog, ..b })
            &&& exists|dr: Action, msg: String| msg@ == m && dialog_updated(b.dialog, a.dialog, Action::ShowDialog(DialogType::Error(msg)), dr)
        },
        Ok(_) => {
            &&& registered(b.task_manager, a.task_manager, "Applying AI task-management proposal"@, true, Some(task.uuid))
            &&& e == seq![Effect::ApplyProposal { id: b.task_manager.next_task_id, task, proposal }]
            &&& a == (AppComponent { dialog: a.dialog, task_manager: a.task_manager, ..b })
            &&& exists|dr: Action, q: AiTaskProposal| same_proposal(q, proposal) && dialog_updated(
                b.dialog,
                a.dialog,
                Action::ShowDialog(
                    DialogType::AiTaskManagement { task, stage: AiAssistStage::Applying, proposal: Some(q), report: None },
                ),
                dr,
            )
        },
    }
}

/// Whether some running work concerns the task.
pub open spec fn pending_for(m: TaskManager, u: u128) -> bool {
    exists|k: int| 0 <= k < m.tasks@.len() && #[trigger] m.tasks@[k].task_uuid == Some(u)
}

/// What a completion toggle does: completing a single task runs without blocking input
/// (and is skipped while that task has pending work); anything else blocks.
pub open spec fn tasks_toggled(b: AppComponent, a: AppComponent, tasks: Vec<(u128, bool)>, e: Seq<Effect>) -> bool {
    match single_completion(tasks@) {
        Some(u) => if pending_for(b.task_manager, u) {
            a == b && e.len() == 0
        } else {
            &&& registered(b.task_manager, a.task_manager, "Complete task"@, false, Some(u))
            &&& e == seq![Effect::CompleteTask { id: b.task_manager.next_task_id, task_uuid: u }]
            &&& a == (AppComponent { task_manager: a.task_manager, ..b })
        },
        None => {
            &&& registered(b.task_manager, a.task_manager, toggle_text(tasks@.len()), true, None)
            &&& e == seq![Effect::ToggleTasks { id: b.task_manager.next_task_id, tasks }]
            &&& a == (AppComponent { task_manager: a.task_manager, ..b })
        },
    }
}

/// `a` is `b` after registering blocking work with the description and starting `effect`.
pub open spec fn blocking_started(b: AppComponent, a: AppComponent, d: Seq<char>, e: Seq<Effect>, effect: Effect) -> bool {
    &&& registered(b.task_manager, a.task_manager, d, true, None)
    &&& e == seq![effect]
    &&& a == (AppComponent { task_manager: a.task_manager, ..b })
}

/// What a refresh after an operation does: the view is reloaded, and an open search is
/// run again for its query.
pub open spec fn refresh_requested(b: AppComponent, a: AppComponent, e: Seq<Effect>) -> bool {
    exists|mid: AppComponent| {
        &&& e.len() >= 1
        &&& load_scheduled(b, mid, false, e[0])
        &&& if b.dialog.dialog_type matches Some(DialogType::TaskSearch) {
            &&& e.len() == 2
            &&& registered(mid.task_manager, a.task_manager, "Searching tasks: '"@ + b.dialog.input_buffer@ + "'"@, false, None)
            &&& e[1] matches Effect::SearchTasks { id, query } && id == mid.task_manager.next_task_id
                && query@ == b.dialog.input_buffer@
            &&& a == (AppComponent { task_manager: a.task_manager, ..mid })
        } else {
            e.len() == 1 && a == mid
        }
    }
}

/// `a` is `b` with the help panel's state changed.
pub open spec fn help_set(b: AppComponent, a: AppComponent, show: bool, offset: usize) -> bool {
    a == (AppComponent { state: AppState { show_help: show, help_scroll_offset: offset, ..b.state }, ..b })
}

/// What each action does to the application, the action it passes on, and the work it
/// starts.
pub open spec fn app_action_handled(b: AppComponent, a: AppComponent, action: Action, r: Action, e: Seq<Effect>) -> bool {
    let off = b.state.help_scroll_offset;
    match action {
        Action::ToggleSidebar => r is Noop && a == (AppComponent { sidebar_collapsed: !b.sidebar_collapsed, ..b })
            && e == seq![Effect::PersistUiState { sidebar_collapsed: !b.sidebar_collapsed }],
        Action::Quit => r is Noop && e.len() == 0 && a == (AppComponent { should_quit: true, ..b }),
        Action::StartSync => r is Noop && if b.active_sync_task is None {
            sync_started(AppComponent { state: AppState { loading: true, ..b.state }, ..b }, a, e)
        } else {
            a == b && e.len() == 0
        },
        Action::RefreshLocalData => r is Noop && e.len() == 1 && load_scheduled(b, a, false, e[0]),
        Action::SyncCompleted(status) => sync_completed(b, a, status, r, e),
        Action::SyncFailed(error) => {
            &&& e.len() == 0
            &&& r matches Action::ShowDialog(DialogType::Error(m)) && m@ == error@
            &&& a == (AppComponent {
                active_sync_task: None,
                is_initial_sync: false,
                state: AppState { loading: false, error_message: Some(error), ..b.state },
                ..b
            })
        },
        Action::ShowDialog(_) => r == action && a == b && e.len() == 0,
        Action::HideDialog => r == action && a == b && e.len() == 0,
        Action::NavigateToSidebar(sel) => r is Noop && e.len() == 1 && load_scheduled(
            AppComponent { state: AppState { sidebar_selection: sel, ..b.state }, ..b },
            a,
            false,
            e[0],
        ),
        Action::AiAssist { task, context } => r is Noop && ai_requested(b, a, task, context, None, None, e),
        Action::AiReviseProposal { task, original_context, proposal, revision } => r is Noop && ai_requested(
            b,
            a,
            task,
            original_context,
            Some(proposal),
            Some(revision),
            e,
        ),
        Action::AiApplyProposal { task, proposal } => r is Noop && ai_apply_requested(b, a, task, proposal, e),
        Action::CreateTask { content, project_uuid, due_string, due_date, label_uuid } => r is Noop && operation_spawned(
            b,
            a,
            Operation::Task(TaskOperation::Create { content, project_uuid, due_string, due_date, label_uuid }),
            e,
        ),
        Action::ToggleTasks(tasks) => r is Noop && tasks_toggled(b, a, tasks, e),
        Action::CyclePriority(id) => r is Noop && a == b && e == seq![Effect::LookUpPriority { task_uuid: id }],
        Action::DeleteTask(id) => r is Noop && operation_spawned(b, a, Operation::Task(TaskOperation::Delete(id)), e),
        Action::SetTaskDueToday(id) => r is Noop && operation_spawned(
            b,
            a,
            Operation::Task(TaskOperation::SetDueDate { task_uuid: id, due_date: TaskDueDate::Today }),
            e,
        ),
        Action::SetTaskDueTomorrow(id) => r is Noop && operation_spawned(
            b,
            a,
            Operation::Task(TaskOperation::SetDueDate { task_uuid: id, due_date: TaskDueDate::Tomorrow }),
            e,
        ),
        Action::SetTaskDueNextWeek(id) => r is Noop && operation_spawned(
            b,
            a,
            Operation::Task(TaskOperation::SetDueDate { task_uuid: id, due_date: TaskDueDate::NextWeek }),
            e,
        ),
        Action::SetTaskDueWeekEnd(id) => r is Noop && operation_spawned(
            b,
            a,
            Operation::Task(TaskOperation::SetDueDate { task_uuid: id, due_date: TaskDueDate::Weekend }),
            e,
        ),
        Action::SetTasksDueDate { task_ids, due_date } => r is Noop && blocking_started(
            b,
            a,
            due_change_text(due_date, task_ids@.len()),
            e,
            Effect::SetTasksDueDate { id: b.task_manager.next_task_id, task_ids, due_date },
        ),
        Action::SetTaskDueTime { task_uuid, due_datetime } => r is Noop && blocking_started(
            b,
            a,
            "Set task time"@,
            e,
            Effect::SetTaskDueTime { id: b.task_manager.next_task_id, task_uuid, due_datetime },
        ),
        Action::EditTask { task_uuid, content } => r is Noop && operation_spawned(
            b,
            a,
            Operation::Task(TaskOperation::Edit { task_uuid, content }),
            e,
        ),
        Action::EditTaskDescription { task_uuid, description } => r is Noop && operation_spawned(
            b,
            a,
            Operation::Task(TaskOperation::EditDescription { task_uuid, description }),
            e,
        ),
        Action::RestoreTask(id) => r is Noop && operation_spawned(b, a, Operation::Task(TaskOperation::Restore(id)), e),
        Action::EmptyTrash => r is Noop && blocking_started(
            b,
            a,
            "Empty trash"@,
            e,
            Effect::EmptyTrash { id: b.task_manager.next_task_id },
        ),
        Action::CreateProject { name, parent_uuid } => r is Noop && operation_spawned(
            b,
            a,
            Operation::Project(ProjectOperation::Create { name, parent_uuid }),
            e,
        ),
        Action::DeleteProject(id) => r is Noop && operation_spawned(b, a, Operation::Project(ProjectOperation::Delete(id)), e),
        Action::DeleteLabel(id) => r is Noop && operation_spawned(b, a, Operation::Label(LabelOperation::Delete(id)), e),
        Action::CreateLabel { name } => r is Noop && operation_spawned(b, a, Operation::Label(LabelOperation::Create { name }), e),
        Action::EditProject { project_uuid, name } => r is Noop && operation_spawned(
            b,
            a,
            Operation::Project(ProjectOperation::Edit { project_uuid, name }),
            e,
        ),
        Action::EditLabel { label_uuid, name } => r is Noop && operation_spawned(
            b,
            a,
            Operation::Label(LabelOperation::Edit { label_uuid, name }),
            e,
        ),
        Action::DataLoaded(snapshot) => data_loaded(b, a, *snapshot, r, e),
        Action::DataLoadFailed { generation, selection, message } => if !snapshot_current(b, generation, selection) {
            a == b && r is Noop && e.len() == 0
        } else {
            &&& e.len() == 0
            &&& r matches Action::ShowDialog(DialogType::Error(m)) && m@ == message@
            &&& a == (AppComponent { state: AppState { loading: false, error_message: Some(message), ..b.state }, ..b })
        },
        Action::SearchTasks(q) => r is Noop && exists|query: String| query@ == q@ && blocking_or_free(b, a, q@, e, query),
        Action::SearchResultsLoaded { query, results } => {
            &&& r is Noop
            &&& e.len() == 0
            &&& a == (AppComponent { dialog: a.dialog, ..b })
            &&& results_taken(b.dialog, a.dialog, query@, results)
        },
        Action::NextTask => r == action && a == b && e.len() == 0,
        Action::PreviousTask => r == action && a == b && e.len() == 0,
        Action::RefreshData => r is Noop && refresh_requested(b, a, e),
        Action::HelpScrollUp => r is Noop && e.len() == 0 && help_set(
            b,
            a,
            b.state.show_help,
            if off > 0 { (off - 1) as usize } else { 0 },
        ),
        Action::HelpScrollDown => r is Noop && e.len() == 0 && help_set(
            b,
            a,
            b.state.show_help,
            if off < usize::MAX { (off + 1) as usize } else { off },
        ),
        Action::HelpScrollToTop => r is Noop && e.len() == 0 && help_set(b, a, b.state.show_help, 0),
        Action::HelpScrollToBottom => r is Noop && e.len() == 0 && help_set(b, a, b.state.show_help, usize::MAX),
        Action::ShowHelp(show) => r == action && e.len() == 0 && help_set(b, a, show, if show { off } else { 0 }),
        _ => r == action && a == b && e.len() == 0,
    }
}

/// A search is registered without blocking input and started for the query.
pub open spec fn blocking_or_free(b: AppComponent, a: AppComponent, q: Seq<char>, e: Seq<Effect>, query: String) -> bool {
    &&& registered(b.task_manager, a.task_manager, "Searching tasks: '"@ + q + "'"@, false, None)
    &&& e == seq![Effect::SearchTasks { id: b.task_manager.next_task_id, query }]
    &&& a == (AppComponent { task_manager: a.task_manager, ..b })
}

impl AppComponent {
    fn start_background_sync(&mut self) -> (e: Vec<Effect>)
        ensures
            sync_started(*old(self), *final(self), e@),
    {
        let id = self.task_manager.spawn_sync();
        self.active_sync_task = Some(id);
        let mut e: Vec<Effect> = Vec::new();
        e.push(Effect::StartSync { id });
        e
    }

    fn sync_finished(&mut self, status: SyncStatus) -> (r: (Action, Vec<Effect>))
        requires
            old(self).wf(),
        ensures
            final(self).wf(),
            sync_completed(*old(self), *final(self), status, r.0, r.1@),
    {
        self.active_sync_task = None;
        self.state.loading = false;
        let mut e: Vec<Effect> = Vec::new();
        match status {
            SyncStatus::Success => {
                let ghost c = *self;
                let load = if self.is_initial_sync {
                    let l = self.schedule_load(true);
                    self.is_initial_sync = false;
                    l
                } else {
                    self.schedule_load(false)
                };
                let ghost mid = *self;
                e.push(load);
                self.sync_component_data();
                let ghost synced = *self;
                self.state.info_message = Some(String::from_str("Sync completed successfully"));
                let message = String::from_str("Sync completed successfully");
                proof {
                    assert(components_synced(AppComponent { is_initial_sync: false, ..mid }, synced));
                }
                (Action::ShowDialog(DialogType::Info(message)), e)
            },
            SyncStatus::Error { message } => {
                self.is_initial_sync = false;
                let shown = message.clone();
                self.state.error_message = Some(message);
                (Action::ShowDialog(DialogType::Error(shown)), e)
            },
            _ => (Action::Noop, e),
        }
    }

    fn apply_data(&mut self, snapshot: ViewSnapshot) -> (r: (Action, Vec<Effect>))
        requires
            old(self).wf(),
        ensures
            final(self).wf(),
            data_loaded(*old(self), *final(self), snapshot, r.0, r.1@),
    {
        let mut e: Vec<Effect> = Vec::new();
        if snapshot.generation != self.latest_requested_generation || snapshot.selection != self.state.sidebar_selection {
            return (Action::Noop, e);
        }
        let initial = snapshot.is_initial;
        self.latest_applied_generation = snapshot.generation;
        self.state.loading = false;
        self.state.update_data(
            snapshot.projects,
            snapshot.labels,
            snapshot.sections,
            snapshot.tasks,
            snapshot.all_tasks,
            snapshot.navigation_counts,
        );
        self.sync_component_data();
        let ghost synced = *self;
        if initial {
            self.state.sidebar_selection = initial_sidebar_selection(&self.default_project, &self.state.projects);
            e.push(self.schedule_load(false));
        }
        proof {
            assert(components_synced(
                AppComponent {
                    latest_applied_generation: snapshot.generation,
                    state: AppState {
                        loading: false,
                        projects: snapshot.projects,
                        labels: snapshot.labels,
                        sections: snapshot.sections,
                        tasks: snapshot.tasks,
                        all_tasks: snapshot.all_tasks,
                        navigation_counts: snapshot.navigation_counts,
                        ..old(self).state
                    },
                    ..*old(self)
                },
                synced,
            ));
        }
        (Action::Noop, e)
    }

    fn request_proposal(
        &mut self,
        task: Box<task::Model>,
        context: String,
        previous: Option<AiTaskProposal>,
        revision: Option<String>,
    ) -> (e: Vec<Effect>)
        requires
            old(self).wf(),
        ensures
            final(self).wf(),
            ai_requested(*old(self), *final(self), task, context, previous, revision, e@),
    {
        let shown_previous = match &previous {
            Some(p) => Some(p.duplicate()),
            None => None,
        };
        let _ = self.dialog.update(
            Action::ShowDialog(
                DialogType::AiTaskManagement {
                    task: Box::new(task.duplicate()),
                    stage: AiAssistStage::Generating,
                    proposal: shown_previous,
                    report: None,
                },
            ),
        );
        let project_name = find_project_name(&self.state.projects, task.project_uuid);
        let section_name = find_section_name(&self.state.sections, task.section_uuid);
        let mut e: Vec<Effect> = Vec::new();
        e.push(Effect::GenerateProposal { task, context, project_name, section_name, previous, revision });
        e
    }

    fn apply_proposal(&mut self, task: Box<task::Model>, proposal: AiTaskProposal) -> (e: Vec<Effect>)
        requires
            old(self).wf(),
        ensures
            final(self).wf(),
            ai_apply_requested(*old(self), *final(self), task, proposal, e@),
    {
        let mut e: Vec<Effect> = Vec::new();
        match proposal.validate() {
            Err(message) => {
                let _ = self.dialog.update(Action::ShowDialog(DialogType::Error(message)));
            },
            Ok(()) => {
                let _ = self.dialog.update(
                    Action::ShowDialog(
                        DialogType::AiTaskManagement {
                            task: Box::new(task.duplicate()),
                            stage: AiAssistStage::Applying,
                            proposal: Some(proposal.duplicate()),
                            report: None,
                        },
                    ),
                );
                let id = self.task_manager.spawn_ai_assist_operation(task.uuid);
                e.push(Effect::ApplyProposal { id, task, proposal });
            },
        }
        e
    }

    fn toggle(&mut self, tasks: Vec<(u128, bool)>) -> (e: Vec<Effect>)
        ensures
            tasks_toggled(*old(self), *final(self), tasks, e@),
    {
        let mut e: Vec<Effect> = Vec::new();
        match single_task_completion(tasks.as_slice()) {
            Some(u) => {
                if self.task_manager.has_pending_operation_for_task(u) {
                    return e;
                }
                let id = self.task_manager.spawn_non_blocking_task_operation(u, String::from_str("Complete task"));
                e.push(Effect::CompleteTask { id, task_uuid: u });
            },
            None => {
                let id = self.task_manager.spawn_task_operation(toggle_description(tasks.len()));
                e.push(Effect::ToggleTasks { id, tasks });
            },
        }
        e
    }

    fn refresh(&mut self) -> (e: Vec<Effect>)
        ensures
            refresh_requested(*old(self), *final(self), e@),
    {
        let mut e: Vec<Effect> = Vec::new();
        e.push(self.schedule_load(false));
        let ghost mid = *self;
        let searching = match &self.dialog.dialog_type {
            Some(DialogType::TaskSearch) => true,
            _ => false,
        };
        if searching {
            let query = self.dialog.input_buffer.clone();
            let id = self.task_manager.spawn_task_search(query.as_str());
            e.push(Effect::SearchTasks { id, query });
        }
        assert(load_scheduled(*old(self), mid, false, e@[0]));
        e
    }

    /// Applies an action: changes the state, and gives the action passed on and the
    /// background work to start.
    #[verifier::rlimit(100)]
    #[verifier::spinoff_prover]
    pub fn handle_app_action(&mut self, action: Action) -> (r: (Action, Vec<Effect>))
        requires
            old(self).wf(),
        ensures
            final(self).wf(),
            app_action_handled(*old(self), *final(self), action, r.0, r.1@),
    {
        let mut e: Vec<Effect> = Vec::new();
        match action {
            Action::ToggleSidebar => {
                self.sidebar_collapsed = !self.sidebar_collapsed;
                e.push(Effect::PersistUiState { sidebar_collapsed: self.sidebar_collapsed });
                (Action::Noop, e)
            },
            Action::Quit => {
                self.should_quit = true;
                (Action::Noop, e)
            },
            Action::StartSync => {
                if self.active_sync_task.is_none() {
                    self.state.loading = true;
                    e = self.start_background_sync();
                }
                (Action::Noop, e)
            },
            Action::RefreshLocalData => {
                e.push(self.schedule_load(false));
                (Action::Noop, e)
            },
            Action::SyncCompleted(status) => self.sync_finished(status),
            Action::SyncFailed(error) => {
                self.active_sync_task = None;
                self.state.loading = false;
                self.is_initial_sync = false;
                let shown = error.clone();
                self.state.error_message = Some(error);
                (Action::ShowDialog(DialogType::Error(shown)), e)
            },
            Action::ShowDialog(d) => (Action::ShowDialog(d), e),
            Action::HideDialog => (Action::HideDialog, e),
            Action::NavigateToSidebar(selection) => {
                self.state.sidebar_selection = selection;
                e.push(self.schedule_load(false));
                (Action::Noop, e)
            },
            Action::AiAssist { task, context } => (Action::Noop, self.request_proposal(task, context, None, None)),
            Action::AiReviseProposal { task, original_context, proposal, revision } => (
                Action::Noop,
                self.request_proposal(task, original_context, Some(proposal), Some(revision)),
            ),
            Action::AiApplyProposal { task, proposal } => (Action::Noop, self.apply_proposal(task, proposal)),
            Action::CreateTask { content, project_uuid, due_string, due_date, label_uuid } => (
                Action::Noop,
                self.spawn_operation(
                    Operation::Task(TaskOperation::Create { content, project_uuid, due_string, due_date, label_uuid }),
                ),
            ),
            Action::ToggleTasks(tasks) => (Action::Noop, self.toggle(tasks)),
            Action::CyclePriority(id) => {
                e.push(Effect::LookUpPriority { task_uuid: id });
                (Action::Noop, e)
            },
            Action::DeleteTask(id) => (Action::Noop, self.spawn_operation(Operation::Task(TaskOperation::Delete(id)))),
            Action::SetTaskDueToday(id) => (
                Action::Noop,
                self.spawn_operation(Operation::Task(TaskOperation::SetDueDate { task_uuid: id, due_date: TaskDueDate::Today })),
            ),
            Action::SetTaskDueTomorrow(id) => (
                Action::Noop,
                self.spawn_operation(Operation::Task(TaskOperation::SetDueDate { task_uuid: id, due_date: TaskDueDate::Tomorrow })),
            ),
            Action::SetTaskDueNextWeek(id) => (
                Action::Noop,
                self.spawn_operation(Operation::Task(TaskOperation::SetDueDate { task_uuid: id, due_date: TaskDueDate::NextWeek })),
            ),
            Action::SetTaskDueWeekEnd(id) => (
                Action::Noop,
                self.spawn_operation(Operation::Task(TaskOperation::SetDueDate { task_uuid: id, due_date: TaskDueDate::Weekend })),
            ),
            Action::SetTasksDueDate { task_ids, due_date } => {
                let id = self.task_manager.spawn_task_operation(due_change_description(due_date, task_ids.len()));
                e.push(Effect::SetTasksDueDate { id, task_ids, due_date });
                (Action::Noop, e)
            },
            Action::SetTaskDueTime { task_uuid, due_datetime } => {
                let id = self.task_manager.spawn_task_operation(String::from_str("Set task time"));
                e.push(Effect::SetTaskDueTime { id, task_uuid, due_datetime });
                (Action::Noop, e)
            },
            Action::EditTask { task_uuid, content } => (
                Action::Noop,
                self.spawn_operation(Operation::Task(TaskOperation::Edit { task_uuid, content })),
            ),
            Action::EditTaskDescription { task_uuid, description } => (
                Action::Noop,
                self.spawn_operation(Operation::Task(TaskOperation::EditDescription { task_uuid, description })),
            ),
            Action::RestoreTask(id) => (Action::Noop, self.spawn_operation(Operation::Task(TaskOperation::Restore(id)))),
            Action::EmptyTrash => {
                let id = self.task_manager.spawn_task_operation(String::from_str("Empty trash"));
                e.push(Effect::EmptyTrash { id });
                (Action::Noop, e)
            },
            Action::CreateProject { name, parent_uuid } => (
                Action::Noop,
                self.spawn_operation(Operation::Project(ProjectOperation::Create { name, parent_uuid })),
            ),
            Action::DeleteProject(id) => (Action::Noop, self.spawn_operation(Operation::Project(ProjectOperation::Delete(id)))),
            Action::DeleteLabel(id) => (Action::Noop, self.spawn_operation(Operation::Label(LabelOperation::Delete(id)))),
            Action::CreateLabel { name } => (Action::Noop, self.spawn_operation(Operation::Label(LabelOperation::Create { name }))),
            Action::EditProject { project_uuid, name } => (
                Action::Noop,
                self.spawn_operation(Operation::Project(ProjectOperation::Edit { project_uuid, name })),
            ),
            Action::EditLabel { label_uuid, name } => (
                Action::Noop,
                self.spawn_operation(Operation::Label(LabelOperation::Edit { label_uuid, name })),
            ),
            Action::DataLoaded(snapshot) => self.apply_data(*snapshot),
            Action::DataLoadFailed { generation, selection, message } => {
                if generation != self.latest_requested_generation || selection != self.state.sidebar_selection {
                    return (Action::Noop, e);
                }
                self.state.loading = false;
                let shown = message.clone();
                self.state.error_message = Some(message);
                (Action::ShowDialog(DialogType::Error(shown)), e)
            },
            Action::SearchTasks(query) => {
                let id = self.task_manager.spawn_task_search(query.as_str());
                e.push(Effect::SearchTasks { id, query });
                (Action::Noop, e)
            },
            Action::SearchResultsLoaded { query, results } => {
                self.dialog.update_search_results(query.as_str(), results);
                (Action::Noop, e)
            },
            Action::NextTask => (Action::NextTask, e),
            Action::PreviousTask => (Action::PreviousTask, e),
            Action::RefreshData => (Action::Noop, self.refresh()),
            Action::HelpScrollUp => {
                if self.state.help_scroll_offset > 0 {
                    self.state.help_scroll_offset = self.state.help_scroll_offset - 1;
                }
                (Action::Noop, e)
            },
            Action::HelpScrollDown => {
                if self.state.help_scroll_offset < usize::MAX {
                    self.state.help_scroll_offset = self.state.help_scroll_offset + 1;
                }
                (Action::Noop, e)
            },
            Action::HelpScrollToTop => {
                self.state.help_scroll_offset = 0;
                (Action::Noop, e)
            },
            Action::HelpScrollToBottom => {
                self.state.help_scroll_offset = usize::MAX;
                (Action::Noop, e)
            },
            Action::ShowHelp(show) => {
                self.state.show_help = show;
                if !show {
                    self.state.help_scroll_offset = 0;
                }
                (Action::ShowHelp(show), e)
            },
            other => (other, e),
        }
    }

    /// Starts the cycle of a task's priority, given its current priority.
    pub fn cycle_priority(&mut self, task_uuid: u128, current_priority: i32) -> (e: Vec<Effect>)
        requires
            current_priority < i32::MAX,
        ensures
            operation_spawned(
                *old(self),
                *final(self),
                Operation::Task(TaskOperation::CyclePriority { task_uuid, priority: next_priority(current_priority) }),
                e@,
            ),
    {
        let priority = if current_priority == 4 { 1 } else { current_priority + 1 };
        self.spawn_operation(Operation::Task(TaskOperation::CyclePriority { task_uuid, priority }))
    }
}

/// The message shown when a due-date key finds no selected task.
pub open spec fn no_task_text() -> Seq<char> {
    "No task selected"@
}

/// The first label with the identifier.
pub open spec fn first_label(ls: Seq<label::Model>, u: u128) -> Option<label::Model>
    decreases ls.len(),
{
    if ls.len() == 0 {
        None
    } else if ls[0].uuid == u {
        Some(ls[0])
    } else {
        first_label(ls.drop_first(), u)
    }
}

/// The first project with the identifier.
pub open spec fn first_project(ps: Seq<project::Model>, u: u128) -> Option<project::Model>
    decreases ps.len(),
{
    if ps.len() == 0 {
        None
    } else if ps[0].uuid == u {
        Some(ps[0])
    } else {
        first_project(ps.drop_first(), u)
    }
}

/// `r` shows an information dialog with the text.
pub open spec fn shows_info(r: Action, text: Seq<char>) -> bool {
    r matches Action::ShowDialog(DialogType::Info(m)) && m@ == text
}

/// `r` shows an error dialog with the text.
pub open spec fn shows_error(r: Action, text: Seq<char>) -> bool {
    r matches Action::ShowDialog(DialogType::Error(m)) && m@ == text
}

/// `D`: confirm deleting the selected project or label, or emptying the Trash; the
/// smart views cannot be deleted.
pub open spec fn delete_view_key(app: AppComponent, r: Action) -> bool {
    match app.state.sidebar_selection {
        SidebarSelection::Project(u) => match first_project(app.state.projects@, u) {
            Some(p) => r matches Action::ShowDialog(DialogType::DeleteConfirmation { item_type, item_uuid })
                && item_type@ == "project"@ && item_uuid == p.uuid,
            None => shows_error(r, "No project selected to delete"@),
        },
        SidebarSelection::Today => shows_info(r, "Cannot delete the Today view"@),
        SidebarSelection::Agenda => shows_info(r, "Cannot delete the Agenda view"@),
        SidebarSelection::Tomorrow => shows_info(r, "Cannot delete the Tomorrow view"@),
        SidebarSelection::Upcoming => shows_info(r, "Cannot delete the Upcoming view"@),
        SidebarSelection::Trash => r == Action::ShowDialog(DialogType::EmptyTrashConfirmation {
            count: app.state.all_tasks@.filter(|t: task::Model| t.is_deleted).len() as usize,
        }),
        SidebarSelection::Label(u) => match first_label(app.state.labels@, u) {
            Some(l) => r matches Action::ShowDialog(DialogType::DeleteConfirmation { item_type, item_uuid })
                && item_type@ == "label"@ && item_uuid == l.uuid,
            None => shows_error(r, "No label selected to delete"@),
        },
    }
}

/// `E`: edit the selected project or label; the smart views cannot be edited.
pub open spec fn edit_view_key(app: AppComponent, r: Action) -> bool {
    match app.state.sidebar_selection {
        SidebarSelection::Project(u) => match first_project(app.state.projects@, u) {
            Some(p) => r matches Action::ShowDialog(DialogType::ProjectEdit { project_uuid, name })
                && project_uuid == p.uuid && name@ == p.name@,
            None => shows_error(r, "No project selected to edit"@),
        },
        SidebarSelection::Today => shows_info(r, "Cannot edit the Today view"@),
        SidebarSelection::Agenda => shows_info(r, "Cannot edit the Agenda view"@),
        SidebarSelection::Tomorrow => shows_info(r, "Cannot edit the Tomorrow view"@),
        SidebarSelection::Upcoming => shows_info(r, "Cannot edit the Upcoming view"@),
        SidebarSelection::Trash => shows_info(r, "Cannot edit the Trash view"@),
        SidebarSelection::Label(u) => match first_label(app.state.labels@, u) {
            Some(l) => r matches Action::ShowDialog(DialogType::LabelEdit { label_uuid, name })
                && label_uuid == l.uuid && name@ == l.name@,
            None => shows_error(r, "No label selected to edit"@),
        },
    }
}

/// A due-date key: the selected task's due date, or a note that none is selected.
pub open spec fn due_key(app: AppComponent, due: TaskDueDate, r: Action) -> bool {
    match selected_task(app.task_list) {
        Some(t) => r == match due {
            TaskDueDate::Today => Action::SetTaskDueToday(t.uuid),
            TaskDueDate::Tomorrow => Action::SetTaskDueTomorrow(t.uuid),
            TaskDueDate::NextWeek => Action::SetTaskDueNextWeek(t.uuid),
            _ => Action::SetTaskDueWeekEnd(t.uuid),
        },
        None => shows_info(r, no_task_text()),
    }
}

/// What a key does when no component takes it; while help is shown, the arrow, Home
/// and End keys scroll it and `?` or Esc close it.
pub open spec fn global_key_handled(app: AppComponent, key: Key, control: bool, r: Action) -> bool {
    if app.state.show_help && (key is Up || key is Down || key is Home || key is End || key is Esc || key == Key::Char('?')) {
        match key {
            Key::Up => r is HelpScrollUp,
            Key::Down => r is HelpScrollDown,
            Key::Home => r is HelpScrollToTop,
            Key::End => r is HelpScrollToBottom,
            _ => r == Action::ShowHelp(false),
        }
    } else {
        match key {
            Key::Left => r == Action::NavigateToSidebar(adjacent_view(app.state.sidebar_selection, false)),
            Key::Right => r == Action::NavigateToSidebar(adjacent_view(app.state.sidebar_selection, true)),
            Key::Esc => if app.dialog.dialog_type is Some { r is HideDialog } else { r is Quit },
            Key::Char(c) => if c == 'b' {
                r is ToggleSidebar
            } else if c == 'q' {
                r is Quit
            } else if c == 'c' && control {
                r is Quit
            } else if c == '?' || c == 'h' {
                r == Action::ShowDialog(DialogType::Help)
            } else if c == 'G' {
                r == Action::ShowDialog(DialogType::Logs)
            } else if c == 'A' {
                r == Action::ShowDialog(DialogType::ProjectCreation)
            } else if c == 'D' {
                delete_view_key(app, r)
            } else if c == 'E' {
                edit_view_key(app, r)
            } else if c == 'r' {
                r is StartSync
            } else if c == 'R' {
                if app.debug_mode { r is RefreshLocalData } else { r is Noop }
            } else if c == '/' {
                r == Action::ShowDialog(DialogType::TaskSearch)
            } else if c == 't' {
                due_key(app, TaskDueDate::Today, r)
            } else if c == 'T' {
                due_key(app, TaskDueDate::Tomorrow, r)
            } else if c == 'w' {
                due_key(app, TaskDueDate::NextWeek, r)
            } else if c == 'W' {
                due_key(app, TaskDueDate::Weekend, r)
            } else {
                r is Noop
            },
            _ => r is Noop,
        }
    }
}

fn find_project_model(ps: &Vec<project::Model>, u: u128) -> (r: Option<&project::Model>)
    ensures
        match r {
            Some(p) => first_project(ps@, u) == Some(*p),
            None => first_project(ps@, u) is None,
        },
{
    let mut i: usize = 0;
    proof {
        assert(ps@.skip(0) =~= ps@);
    }
    while i < ps.len()
        invariant
            i <= ps@.len(),
            first_project(ps@, u) == first_project(ps@.skip(i as int), u),
        decreases ps@.len() - i,
    {
        proof {
            assert(ps@.skip(i as int)[0] == ps@[i as int]);
            assert(ps@.skip(i as int).drop_first() =~= ps@.skip(i + 1));
        }
        if ps[i].uuid == u {
            return Some(&ps[i]);
        }
        i = i + 1;
    }
    None
}

fn find_label_model(ls: &Vec<label::Model>, u: u128) -> (r: Option<&label::Model>)
    ensures
        match r {
            Some(l) => first_label(ls@, u) == Some(*l),
            None => first_label(ls@, u) is None,
        },
{
    let mut i: usize = 0;
    proof {
        assert(ls@.skip(0) =~= ls@);
    }
    while i < ls.len()
        invariant
            i <= ls@.len(),
            first_label(ls@, u) == first_label(ls@.skip(i as int), u),
        decreases ls@.len() - i,
    {
        proof {
            assert(ls@.skip(i as int)[0] == ls@[i as int]);
            assert(ls@.skip(i as int).drop_first() =~= ls@.skip(i + 1));
        }
        if ls[i].uuid == u {
            return Some(&ls[i]);
        }
        i = i + 1;
    }
    None
}

fn count_deleted(ts: &Vec<task::Model>) -> (n: usize)
    ensures
        n == ts@.filter(|t: task::Model| t.is_deleted).len(),
{
    let mut n: usize = 0;
    let mut i: usize = 0;
    while i < ts.len()
        invariant
            i <= ts@.len(),
            n <= i,
            n == ts@.take(i as int).filter(|t: task::Model| t.is_deleted).len(),
        decreases ts@.len() - i,
    {
        proof {
            assert(ts@.take(i + 1) =~= ts@.take(i as int).push(ts@[i as int]));
            ts@.take(i as int).lemma_filter_push(ts@[i as int], |t: task::Model| t.is_deleted);
        }
        if ts[i].is_deleted {
            n = n + 1;
        }
        i = i + 1;
    }
    proof {
        assert(ts@.take(i as int) =~= ts@);
    }
    n
}

fn info(text: &str) -> (r: Action)
    ensures
        shows_info(r, text@),
{
    Action::ShowDialog(DialogType::Info(String::from_str(text)))
}

fn error_dialog(text: &str) -> (r: Action)
    ensures
        shows_error(r, text@),
{
    Action::ShowDialog(DialogType::Error(String::from_str(text)))
}

impl AppComponent {
    fn delete_view(&self) -> (r: Action)
        ensures
            delete_view_key(*self, r),
    {
        match self.state.sidebar_selection {
            SidebarSelection::Project(u) => match find_project_model(&self.state.projects, u) {
                Some(p) => Action::ShowDialog(
                    DialogType::DeleteConfirmation { item_type: String::from_str("project"), item_uuid: p.uuid },
                ),
                None => error_dialog("No project selected to delete"),
            },
            SidebarSelection::Today => info("Cannot delete the Today view"),
            SidebarSelection::Agenda => info("Cannot delete the Agenda view"),
            SidebarSelection::Tomorrow => info("Cannot delete the Tomorrow view"),
            SidebarSelection::Upcoming => info("Cannot delete the Upcoming view"),
            SidebarSelection::Trash => Action::ShowDialog(
                DialogType::EmptyTrashConfirmation { count: count_deleted(&self.state.all_tasks) },
            ),
            SidebarSelection::Label(u) => match find_label_model(&self.state.labels, u) {
                Some(l) => Action::ShowDialog(
                    DialogType::DeleteConfirmation { item_type: String::from_str("label"), item_uuid: l.uuid },
                ),
                None => error_dialog("No label selected to delete"),
            },
        }
    }

    fn edit_view(&self) -> (r: Action)
        ensures
            edit_view_key(*self, r),
    {
        match self.state.sidebar_selection {
            SidebarSelection::Project(u) => match find_project_model(&self.state.projects, u) {
                Some(p) => Action::ShowDialog(DialogType::ProjectEdit { project_uuid: p.uuid, name: p.name.clone() }),
                None => error_dialog("No project selected to edit"),
            },
            SidebarSelection::Today => info("Cannot edit the Today view"),
            SidebarSelection::Agenda => info("Cannot edit the Agenda view"),
            SidebarSelection::Tomorrow => info("Cannot edit the Tomorrow view"),
            SidebarSelection::Upcoming => info("Cannot edit the Upcoming view"),
            SidebarSelection::Trash => info("Cannot edit the Trash view"),
            SidebarSelection::Label(u) => match find_label_model(&self.state.labels, u) {
                Some(l) => Action::ShowDialog(DialogType::LabelEdit { label_uuid: l.uuid, name: l.name.clone() }),
                None => error_dialog("No label selected to edit"),
            },
        }
    }

    fn due_action(&self, due: TaskDueDate) -> (r: Action)
        requires
            self.wf(),
        ensures
            due_key(*self, due, r),
    {
        match self.task_list.get_selected_task() {
            Some(t) => match due {
                TaskDueDate::Today => Action::SetTaskDueToday(t.uuid),
                TaskDueDate::Tomorrow => Action::SetTaskDueTomorrow(t.uuid),
                TaskDueDate::NextWeek => Action::SetTaskDueNextWeek(t.uuid),
                _ => Action::SetTaskDueWeekEnd(t.uuid),
            },
            None => info("No task selected"),
        }
    }

    /// The action of a key that no component takes; `control` tells whether Control is
    /// held.
    pub fn handle_global_key(&self, key: Key, control: bool) -> (r: Action)
        requires
            self.wf(),
        ensures
            global_key_handled(*self, key, control, r),
    {
        if self.state.show_help {
            match key {
                Key::Up => {
                    return Action::HelpScrollUp;
                },
                Key::Down => {
                    return Action::HelpScrollDown;
                },
                Key::Home => {
                    return Action::HelpScrollToTop;
                },
                Key::End => {
                    return Action::HelpScrollToBottom;
                },
                Key::Esc => {
                    return Action::ShowHelp(false);
                },
                Key::Char(c) => if c == '?' {
                    return Action::ShowHelp(false);
                },
                _ => {},
            }
        }
        match key {
            Key::Left => Action::NavigateToSidebar(adjacent_smart_view(self.state.sidebar_selection, false)),
            Key::Right => Action::NavigateToSidebar(adjacent_smart_view(self.state.sidebar_selection, true)),
            Key::Esc => if self.dialog.is_visible() {
                Action::HideDialog
            } else {
                Action::Quit
            },
            Key::Char(c) => if c == 'b' {
                Action::ToggleSidebar
            } else if c == 'q' {
                Action::Quit
            } else if c == 'c' && control {
                Action::Quit
            } else if c == '?' || c == 'h' {
                Action::ShowDialog(DialogType::Help)
            } else if c == 'G' {
                Action::ShowDialog(DialogType::Logs)
            } else if c == 'A' {
                Action::ShowDialog(DialogType::ProjectCreation)
            } else if c == 'D' {
                self.delete_view()
            } else if c == 'E' {
                self.edit_view()
            } else if c == 'r' {
                Action::StartSync
            } else if c == 'R' {
                if self.debug_mode {
                    Action::RefreshLocalData
                } else {
                    Action::Noop
                }
            } else if c == '/' {
                Action::ShowDialog(DialogType::TaskSearch)
            } else if c == 't' {
                self.due_action(TaskDueDate::Today)
            } else if c == 'T' {
                self.due_action(TaskDueDate::Tomorrow)
            } else if c == 'w' {
                self.due_action(TaskDueDate::NextWeek)
            } else if c == 'W' {
                self.due_action(TaskDueDate::Weekend)
            } else {
                Action::Noop
            },
            _ => Action::Noop,
        }
    }
}

/// What starting the application does: the cached data is loaded first; outside debug
/// mode a sync starts too, unless one runs.
pub open spec fn initial_sync_triggered(b: AppComponent, a: AppComponent, e: Seq<Effect>) -> bool {
    let marked = AppComponent { is_initial_sync: true, ..b };
    if b.debug_mode {
        exists|mid: AppComponent| e.len() == 1 && load_scheduled(marked, mid, true, e[0])
            && a == (AppComponent { is_initial_sync: false, ..mid })
    } else if b.active_sync_task is None {
        exists|mid: AppComponent| {
            &&& e.len() == 2
            &&& load_scheduled(marked, mid, true, e[0])
            &&& sync_started(mid, a, seq![e[1]])
        }
    } else {
        a == b && e.len() == 0
    }
}

/// The note shown when a change is asked for while data is being refreshed.
pub open spec fn refresh_note() -> Seq<char> {
    "Finishing data refresh. Navigation and other read-only actions are still available."@
}

/// Keys that belong to the sidebar.
pub open spec fn sidebar_key(key: Key) -> bool {
    key == Key::Char('J') || key == Key::Char('K') || key == Key::Char('[') || key == Key::Char(']')
        || key == Key::Char('H') || key == Key::Char('L')
}

/// Whether work that blocks changes is running.
pub open spec fn blocking(b: AppComponent) -> bool {
    exists|k: int| 0 <= k < b.task_manager.tasks@.len() && #[trigger] b.task_manager.tasks@[k].blocks_input
}

/// Outside a dialog, while blocking work runs, a change is held back with a note.
pub open spec fn held_back(b: AppComponent, raw: Action, r: Action) -> bool {
    if blocking(b) && is_mutation_action(raw) {
        shows_info(r, refresh_note())
    } else {
        r == raw
    }
}

/// How a key becomes an action: an open dialog takes every key, but while blocking work
/// runs a key that would submit a change is dropped and the dialog stays as it was
/// before the key, its draft kept; the sidebar keys step through the projects and
/// labels; otherwise the task list takes the key first and the application's own keys
/// apply when the list does nothing with it.
pub open spec fn key_routed(b: AppComponent, a: AppComponent, key: Key, control: bool, r: Action) -> bool {
    if b.dialog.dialog_type is Some {
        exists|raw: Action, d: DialogComponent, today: i32| {
            &&& dialog_key_handled(b.dialog, d, key, today, raw)
            &&& if blocking(b) && is_mutation_action(raw) {
                &&& r is Noop
                &&& same_dialog(a.dialog, b.dialog)
                &&& a == (AppComponent { dialog: a.dialog, ..b })
            } else {
                r == raw && a == (AppComponent { dialog: d, ..b })
            }
        }
    } else {
        exists|raw: Action| {
            &&& held_back(b, raw, r)
            &&& if sidebar_key(key) {
                a == b && (if sidebar_step(b, key) is Noop { global_key_handled(b, key, control, raw) } else { raw == sidebar_step(b, key) })
            } else {
                &&& a == (AppComponent { task_list: a.task_list, ..b })
                &&& exists|listed: Action, clock: ViewClock| {
                    &&& clock_fits(clock, b.task_list.tasks@)
                    &&& key_handled(b.task_list, a.task_list, key, clock, listed)
                    &&& if listed is Noop { global_key_handled(a, key, control, raw) } else { raw == listed }
                }
            }
        }
    }
}

/// The projects and then the labels, in the order the application holds them: the
/// entries that the sidebar steps through.
pub open spec fn sidebar_entries(projects: Seq<project::Model>, labels: Seq<label::Model>) -> Seq<SidebarSelection> {
    projects.map_values(|p: project::Model| SidebarSelection::Project(p.uuid))
        + labels.map_values(|l: label::Model| SidebarSelection::Label(l.uuid))
}

/// The position of the first occurrence of an entry.
pub open spec fn first_position(entries: Seq<SidebarSelection>, current: SidebarSelection) -> int {
    choose|i: int| 0 <= i < entries.len() && entries[i] == current && forall|j: int| 0 <= j < i ==> entries[j] != current
}

/// The entry after (or before) the selected one, going round at the ends; from a view
/// that is not among the entries, forward goes to the first entry and back to the last.
pub open spec fn sidebar_neighbour(entries: Seq<SidebarSelection>, current: SidebarSelection, forward: bool) -> Option<SidebarSelection> {
    let n = entries.len();
    if n == 0 {
        None
    } else if entries.contains(current) {
        let i = first_position(entries, current);
        Some(if forward { entries[(i + 1) % (n as int)] } else { entries[(i + n - 1) % (n as int)] })
    } else {
        Some(if forward { entries[0] } else { entries[n - 1] })
    }
}

/// What the sidebar does with a key: `]` and `J` go to the next project or label, `[`
/// and `K` to the previous one; other keys, and a sidebar without entries, do nothing.
pub open spec fn sidebar_step(b: AppComponent, key: Key) -> Action {
    let entries = sidebar_entries(b.state.projects@, b.state.labels@);
    let forward = key == Key::Char(']') || key == Key::Char('J');
    let back = key == Key::Char('[') || key == Key::Char('K');
    if forward || back {
        match sidebar_neighbour(entries, b.state.sidebar_selection, forward) {
            Some(s) => Action::NavigateToSidebar(s),
            None => Action::Noop,
        }
    } else {
        Action::Noop
    }
}

/// How an action is carried out: the dialog, then the task list, then the application
/// take it in turn, and the components show the result.
pub open spec fn action_dispatched(b: AppComponent, a: AppComponent, action: Action, r: Action, e: Seq<Effect>) -> bool {
    exists|a1: AppComponent, r1: Action, a2: AppComponent, r2: Action, a3: AppComponent| {
        &&& a1 == (AppComponent { dialog: a1.dialog, ..b })
        &&& dialog_updated(b.dialog, a1.dialog, action, r1)
        &&& a2 == (AppComponent { task_list: a2.task_list, ..a1 })
        &&& task_list_updated(a1.task_list, a2.task_list, r1, r2)
        &&& app_action_handled(a2, a3, r2, r, e)
        &&& components_synced(a3, a)
    }
}

/// The task list's handling of a passed-on action.
pub open spec fn task_list_updated(b: TaskListComponent, a: TaskListComponent, action: Action, r: Action) -> bool {
    &&& (action is NextTask ==> r is Noop && moved(b, a, true))
    &&& (action is PreviousTask ==> r is Noop && moved(b, a, false))
    &&& (!(action is NextTask || action is PreviousTask) ==> r == action && a == b)
}

impl AppComponent {
    /// Loads the cached data and, outside debug mode, starts the first sync.
    pub fn trigger_initial_sync(&mut self) -> (e: Vec<Effect>)
        ensures
            initial_sync_triggered(*old(self), *final(self), e@),
    {
        let mut e: Vec<Effect> = Vec::new();
        if self.debug_mode {
            self.is_initial_sync = true;
            e.push(self.schedule_load(true));
            let ghost mid = *self;
            self.is_initial_sync = false;
            proof {
                assert(load_scheduled(AppComponent { is_initial_sync: true, ..*old(self) }, mid, true, e@[0]));
            }
        } else if self.active_sync_task.is_none() {
            self.is_initial_sync = true;
            e.push(self.schedule_load(true));
            let ghost mid = *self;
            let mut s = self.start_background_sync();
            let ghost sync_effects = s@;
            e.append(&mut s);
            proof {
                assert(seq![e@[1]] =~= sync_effects);
                assert(load_scheduled(AppComponent { is_initial_sync: true, ..*old(self) }, mid, true, e@[0]));
            }
        }
        e
    }

    /// Turns a key into an action; `control` tells whether Control is held.
    pub fn route_key(&mut self, key: Key, control: bool) -> (r: Action)
        requires
            old(self).wf(),
        ensures
            final(self).wf(),
            key_routed(*old(self), *final(self), key, control, r),
    {
        let blocked = self.task_manager.has_blocking_work();
        if self.dialog.is_visible() {
            let saved = self.dialog.duplicate();
            let raw = self.dialog.handle_key_events(key);
            if blocked && raw.is_mutation() {
                self.dialog = saved;
                return Action::Noop;
            }
            return raw;
        }
        let raw = if key == Key::Char('J') || key == Key::Char('K') || key == Key::Char('[') || key == Key::Char(']')
            || key == Key::Char('H') || key == Key::Char('L') {
            assert(sidebar_key(key));
            let stepped = self.sidebar_key_action(key);
            let raw = match stepped {
                Action::Noop => self.handle_global_key(key, control),
                other => other,
            };
            assert(if sidebar_step(*self, key) is Noop { global_key_handled(*self, key, control, raw) } else { raw == sidebar_step(*self, key) });
            raw
        } else {
            assert(!sidebar_key(key));
            let listed = self.task_list.handle_key_events(key);
            match listed {
                Action::Noop => self.handle_global_key(key, control),
                other => other,
            }
        };
        let ghost raw_action = raw;
        let r = if blocked && raw.is_mutation() {
            info("Finishing data refresh. Navigation and other read-only actions are still available.")
        } else {
            raw
        };
        assert(blocked == blocking(*old(self)));
        assert(held_back(*old(self), raw_action, r));
        r
    }

    /// What the sidebar does with a key: `]` and `J` go to the next project or label,
    /// `[` and `K` to the previous one, going round at the ends.
    pub fn sidebar_key_action(&self, key: Key) -> (r: Action)
        ensures
            r == sidebar_step(*self, key),
    {
        let forward = key == Key::Char(']') || key == Key::Char('J');
        let back = key == Key::Char('[') || key == Key::Char('K');
        if !forward && !back {
            return Action::Noop;
        }
        let mut entries: Vec<SidebarSelection> = Vec::new();
        let mut i: usize = 0;
        while i < self.state.projects.len()
            invariant
                i <= self.state.projects@.len(),
                entries@ == self.state.projects@.take(i as int).map_values(|p: project::Model| SidebarSelection::Project(p.uuid)),
            decreases self.state.projects@.len() - i,
        {
            entries.push(SidebarSelection::Project(self.state.projects[i].uuid));
            proof {
                assert(self.state.projects@.take(i + 1) =~= self.state.projects@.take(i as int).push(self.state.projects@[i as int]));
            }
            i = i + 1;
        }
        proof {
            assert(self.state.projects@.take(i as int) =~= self.state.projects@);
        }
        let ghost first = entries@;
        let mut i: usize = 0;
        while i < self.state.labels.len()
            invariant
                i <= self.state.labels@.len(),
                entries@ == first + self.state.labels@.take(i as int).map_values(|l: label::Model| SidebarSelection::Label(l.uuid)),
            decreases self.state.labels@.len() - i,
        {
            entries.push(SidebarSelection::Label(self.state.labels[i].uuid));
            proof {
                assert(self.state.labels@.take(i + 1) =~= self.state.labels@.take(i as int).push(self.state.labels@[i as int]));
            }
            i = i + 1;
        }
        proof {
            assert(self.state.labels@.take(i as int) =~= self.state.labels@);
        }
        let ghost all = sidebar_entries(self.state.projects@, self.state.labels@);
        assert(entries@ =~= all);
        let n = entries.len();
        if n == 0 {
            return Action::Noop;
        }
        let current = self.state.sidebar_selection;
        let mut k: usize = 0;
        while k < n && entries[k] != current
            invariant
                k <= n,
                n == entries@.len(),
                forall|j: int| 0 <= j < k ==> entries@[j] != current,
            decreases n - k,
        {
            k = k + 1;
        }
        let chosen = if k == n {
            proof {
                assert(!entries@.contains(current));
            }
            if forward { entries[0] } else { entries[n - 1] }
        } else {
            proof {
                assert(entries@.contains(current));
                let c = first_position(entries@, current);
                assert(0 <= c < entries@.len() && entries@[c] == current && forall|j: int| 0 <= j < c ==> entries@[j] != current);
                if c < k {
                    assert(entries@[c] != current);
                }
                if k < c {
                    assert(entries@[k as int] != current);
                }
                assert(c == k);
            }
            if forward {
                if k + 1 == n { entries[0] } else { entries[k + 1] }
            } else {
                if k == 0 { entries[n - 1] } else { entries[k - 1] }
            }
        };
        proof {
            if k < n {
                if forward {
                    if k + 1 == n {
                        assert((k + 1) % (n as int) == 0) by (nonlinear_arith) requires k + 1 == n, n > 0;
                    } else {
                        assert((k + 1) % (n as int) == k + 1) by (nonlinear_arith) requires k + 1 < n;
                    }
                } else {
                    if k == 0 {
                        assert((k + n - 1) % (n as int) == n - 1) by (nonlinear_arith) requires k == 0, n > 0;
                    } else {
                        assert((k + n - 1) % (n as int) == k - 1) by (nonlinear_arith) requires 0 < k < n;
                    }
                }
            }
        }
        Action::NavigateToSidebar(chosen)
    }

    /// Carries out an action through the components and the application.
    pub fn dispatch(&mut self, action: Action) -> (r: (Action, Vec<Effect>))
        requires
            old(self).wf(),
        ensures
            final(self).wf(),
            action_dispatched(*old(self), *final(self), action, r.0, r.1@),
    {
        let r1 = self.dialog.update(action);
        let ghost a1 = *self;
        let r2 = self.task_list.update(r1);
        let ghost a2 = *self;
        let (r, e) = self.handle_app_action(r2);
        let ghost a3 = *self;
        self.sync_component_data();
        proof {
            assert(task_list_updated(a1.task_list, a2.task_list, r1, r2));
        }
        (r, e)
    }
}

/// One step of applying an AI proposal, with the projects it needs resolved.
pub enum AiStep {
    CreateProject { reference: String, name: String },
    AddComment { content: String },
    CreateTask { content: String, description: String, project_uuid: u128, priority: i32 },
    MoveTask { project_uuid: u128 },
    CompleteTask,
}

/// What a proposed action asks of the backend, or why it cannot run.
pub open spec fn step_planned(kind: AiProposedActionKind, created: Seq<(String, u128)>, r: Result<AiStep, String>) -> bool {
    match kind {
        AiProposedActionKind::CreateProject { reference, name } => r matches Ok(AiStep::CreateProject { reference: rf, name: n })
            && rf@ == reference@ && n@ == name@,
        AiProposedActionKind::AddCompletionNote { content } => r matches Ok(AiStep::AddComment { content: c }) && c@ == content@,
        AiProposedActionKind::CreateTask { content, description, destination, priority } => match resolved_destination(destination, created) {
            Ok(u) => r matches Ok(AiStep::CreateTask { content: c, description: d, project_uuid, priority: p })
                && c@ == content@ && d@ == description@ && project_uuid == u && p == priority,
            Err(m) => r matches Err(e) && e@ == m,
        },
        AiProposedActionKind::MoveOriginalTask { destination } => match resolved_destination(destination, created) {
            Ok(u) => r matches Ok(AiStep::MoveTask { project_uuid }) && project_uuid == u,
            Err(m) => r matches Err(e) && e@ == m,
        },
        AiProposedActionKind::CompleteTask => r matches Ok(AiStep::CompleteTask),
    }
}

/// Plans one enabled action of a proposal, given the projects the run created so far.
pub fn plan_ai_step(kind: &AiProposedActionKind, created: &Vec<(String, u128)>) -> (r: Result<AiStep, String>)
    ensures
        step_planned(*kind, created@, r),
{
    match kind {
        AiProposedActionKind::CreateProject { reference, name } => Ok(
            AiStep::CreateProject { reference: reference.clone(), name: name.clone() },
        ),
        AiProposedActionKind::AddCompletionNote { content } => Ok(AiStep::AddComment { content: content.clone() }),
        AiProposedActionKind::CreateTask { content, description, destination, priority } => match resolve_ai_destination(
            destination,
            created,
        ) {
            Ok(u) => Ok(
                AiStep::CreateTask {
                    content: content.clone(),
                    description: description.clone(),
                    project_uuid: u,
                    priority: *priority,
                },
            ),
            Err(e) => Err(e),
        },
        AiProposedActionKind::MoveOriginalTask { destination } => match resolve_ai_destination(destination, created) {
            Ok(u) => Ok(AiStep::MoveTask { project_uuid: u }),
            Err(e) => Err(e),
        },
        AiProposedActionKind::CompleteTask => Ok(AiStep::CompleteTask),
    }
}

/// The failure of a step as the report gives it: the step's description, a colon and
/// the error.
pub fn step_failure(description: &String, error: &str) -> (s: String)
    ensures
        s@ == description@ + ": "@ + error@,
{
    let mut s = description.clone();
    s.append(": ");
    s.append(error);
    s
}

/// What applying a proposal does after one step: go on with the steps done so far, or
/// stop with the report.
pub enum AiApplyNext {
    Continue(Vec<String>),
    Finished(AiExecutionReport),
}

/// The decision after one step of applying a proposal: a step that succeeded is added
/// to the steps done and the next one runs; the first step that fails stops the run,
/// and the report lists the steps done before it and the failure.
pub fn ai_apply_step(done: Vec<String>, description: String, outcome: Result<(), String>) -> (r: AiApplyNext)
    ensures
        outcome is Ok ==> (r matches AiApplyNext::Continue(d) && d@ == done@.push(description)),
        outcome matches Err(e) ==> (r matches AiApplyNext::Finished(rep)
            && rep.completed_actions@ == done@
            && rep.failure is Some
            && rep.failure->0@ == description@ + ": "@ + e@),
{
    match outcome {
        Ok(()) => {
            let mut done = done;
            done.push(description);
            AiApplyNext::Continue(done)
        },
        Err(e) => {
            let failure = step_failure(&description, e.as_str());
            AiApplyNext::Finished(AiExecutionReport::failed(done, failure))
        },
    }
}

/// The report of a run in which every step succeeded.
pub fn ai_apply_finish(done: Vec<String>) -> (r: AiExecutionReport)
    ensures
        r.completed_actions@ == done@,
        r.failure is None,
{
    AiExecutionReport::success(done)
}

/// The report of a whole run, given each step's description and outcome in order: the
/// steps before the first failure, and that failure; no failure where all succeeded.
pub open spec fn apply_report(descriptions: Seq<Seq<char>>, outcomes: Seq<Result<(), Seq<char>>>, done: Seq<Seq<char>>) -> (Seq<Seq<char>>, Option<Seq<char>>)
    decreases descriptions.len(),
{
    if descriptions.len() == 0 || outcomes.len() == 0 {
        (done, None)
    } else {
        match outcomes[0] {
            Ok(()) => apply_report(descriptions.drop_first(), outcomes.drop_first(), done.push(descriptions[0])),
            Err(e) => (done, Some(descriptions[0] + ": "@ + e)),
        }
    }
}

/// A run stops at its first failure: the report lists exactly the steps before it, in
/// order, and names that step; a run without failure lists every step.
pub proof fn lemma_apply_stops_at_first_failure(descriptions: Seq<Seq<char>>, outcomes: Seq<Result<(), Seq<char>>>, done: Seq<Seq<char>>)
    requires
        descriptions.len() == outcomes.len(),
    ensures
        (forall|k: int| 0 <= k < outcomes.len() ==> outcomes[k] is Ok)
            ==> apply_report(descriptions, outcomes, done) == (done + descriptions, None::<Seq<char>>),
        forall|f: int| 0 <= f < outcomes.len() && outcomes[f] is Err
            && (forall|k: int| 0 <= k < f ==> outcomes[k] is Ok)
            ==> apply_report(descriptions, outcomes, done) == (done + descriptions.take(f),
                Some(descriptions[f] + ": "@ + outcomes[f]->Err_0)),
    decreases descriptions.len(),
{
    if descriptions.len() > 0 {
        lemma_apply_stops_at_first_failure(descriptions.drop_first(), outcomes.drop_first(), done.push(descriptions[0]));
        assert(done.push(descriptions[0]) + descriptions.drop_first() =~= done + descriptions);
        assert forall|f: int| 0 <= f < outcomes.len() && outcomes[f] is Err
            && (forall|k: int| 0 <= k < f ==> outcomes[k] is Ok)
            implies apply_report(descriptions, outcomes, done) == (done + descriptions.take(f),
                Some(descriptions[f] + ": "@ + outcomes[f]->Err_0)) by {
            if f > 0 {
                assert(outcomes.drop_first()[f - 1] == outcomes[f]);
                assert forall|k: int| 0 <= k < f - 1 implies outcomes.drop_first()[k] is Ok by {
                    assert(outcomes.drop_first()[k] == outcomes[k + 1]);
                }
                assert(done.push(descriptions[0]) + descriptions.drop_first().take(f - 1) =~= done + descriptions.take(f));
            } else {
                assert(done + descriptions.take(0) =~= done);
            }
        }
        assert((forall|k: int| 0 <= k < outcomes.len() ==> outcomes[k] is Ok) ==>
            (forall|k: int| 0 <= k < outcomes.drop_first().len() ==> outcomes.drop_first()[k] is Ok)) by {
            if forall|k: int| 0 <= k < outcomes.len() ==> outcomes[k] is Ok {
                assert forall|k: int| 0 <= k < outcomes.drop_first().len() implies outcomes.drop_first()[k] is Ok by {
                    assert(outcomes.drop_first()[k] == outcomes[k + 1]);
                }
            }
        }
    } else {
        assert(done + descriptions =~= done);
    }
}

impl ScreenLayout {
    /// The layout of a 100 by 50 screen before it is first drawn, with the sidebar at
    /// its default width and the given limits.
    pub fn new(sidebar_default_width: u16, sidebar_min_width: u16, main_area_min_width: u16, sidebar_width_override: Option<u16>) -> (r: Self)
        ensures
            r.sidebar_width == sidebar_default_width,
            r.sidebar_width_override == sidebar_width_override,
            !r.resizing_sidebar,
            r.screen_width == 100,
            r.screen_height == 50,
            r.sidebar_default_width == sidebar_default_width,
            r.sidebar_min_width == sidebar_min_width,
            r.main_area_min_width == main_area_min_width,
    {
        let empty = Area { x: 0, y: 0, width: 0, height: 0 };
        ScreenLayout {
            sidebar_width: sidebar_default_width,
            sidebar_width_override,
            resizing_sidebar: false,
            screen_width: 100,
            screen_height: 50,
            smart_view_bar: empty,
            main_content: empty,
            sidebar_default_width,
            sidebar_min_width,
            main_area_min_width,
        }
    }
}

/// The sidebar's width on a screen of the given width: the chosen width, or the default,
/// leaving the main area its minimum.
pub open spec fn sidebar_width_for(l: ScreenLayout, screen_width: u16) -> u16 {
    let columns = match l.sidebar_width_override {
        Some(w) => w,
        None => l.sidebar_default_width,
    };
    let max = if screen_width > l.main_area_min_width { (screen_width - l.main_area_min_width) as u16 } else { 0u16 };
    if columns < max { columns } else { max }
}

/// The area of a smart view tab as a plain area.
pub open spec fn tab_area(t: (u16, u16, u16, u16)) -> Area {
    Area { x: t.0, y: t.1, width: t.2, height: t.3 }
}

/// The five tab areas inside the bar's border; none where the bar has no inside.
pub open spec fn smart_view_tabs(area: Area) -> Seq<(u16, u16, u16, u16)> {
    if area.width < 2 || area.height < 2 {
        Seq::empty()
    } else {
        fifths_layout((sat_add(area.x, 1), sat_add(area.y, 1), (area.width - 2) as u16, (area.height - 2) as u16))
    }
}

/// `a - b`, or 0 where `b` is larger.
pub open spec fn sat_sub(a: u16, b: u16) -> u16 {
    if a > b { (a - b) as u16 } else { 0u16 }
}

/// `a + b`, or the largest `u16` where it does not fit.
pub open spec fn sat_add(a: u16, b: u16) -> u16 {
    if a + b > 65535 { 65535u16 } else { (a + b) as u16 }
}

/// The first tab at or after `k` that holds the mouse's cell.
pub open spec fn first_tab_hit(m: Mouse, tabs: Seq<(u16, u16, u16, u16)>, k: int) -> Option<int>
    decreases tabs.len() - k,
{
    if k < 0 || k >= tabs.len() {
        None
    } else if in_area(m, tab_area(tabs[k])) {
        Some(k)
    } else {
        first_tab_hit(m, tabs, k + 1)
    }
}

/// The action of a click on the smart view bar: a left click on a tab selects its view.
pub open spec fn smart_view_click(m: Mouse, area: Area) -> Action {
    if !(m.kind is LeftDown) {
        Action::Noop
    } else {
        match first_tab_hit(m, smart_view_tabs(area), 0) {
            Some(i) => Action::NavigateToSidebar(smart_view_seq()[i]),
            None => Action::Noop,
        }
    }
}

/// The tab areas of the smart view bar.
pub fn smart_view_rects(area: Area) -> (r: Vec<(u16, u16, u16, u16)>)
    ensures
        r@ == smart_view_tabs(area),
        r@.len() == 0 || r@.len() == 5,
{
    if area.width < 2 || area.height < 2 {
        return Vec::new();
    }
    split_fifths((area.x.saturating_add(1), area.y.saturating_add(1), area.width - 2, area.height - 2))
}

/// The action of a click on the smart view bar: a left click on a tab selects its view.
pub fn handle_smart_view_mouse(mouse: Mouse, area: Area) -> (r: Action)
    ensures
        r == smart_view_click(mouse, area),
{
    if !matches!(mouse.kind, MouseKind::LeftDown) {
        return Action::Noop;
    }
    let tabs = smart_view_rects(area);
    let views = smart_views();
    let mut i: usize = 0;
    while i < tabs.len()
        invariant
            tabs@ == smart_view_tabs(area),
            views@ == smart_view_seq(),
            tabs@.len() == 0 || tabs@.len() == 5,
            i <= tabs@.len(),
            first_tab_hit(mouse, tabs@, 0) == first_tab_hit(mouse, tabs@, i as int),
            mouse.kind is LeftDown,
        decreases tabs@.len() - i,
    {
        let (x, y, w, h) = tabs[i];
        if x <= mouse.column && (mouse.column as u32) < x as u32 + w as u32 && y <= mouse.row && (mouse.row as u32) < y as u32 + h as u32 {
            assert(in_area(mouse, tab_area(tabs@[i as int])));
            assert(first_tab_hit(mouse, tabs@, i as int) == Some(i as int));
            return Action::NavigateToSidebar(views[i]);
        }
        i = i + 1;
    }
    Action::Noop
}

/// Whether a row lies in the main content's rows.
pub open spec fn in_main_rows(l: ScreenLayout, row: u16) -> bool {
    l.main_content.y <= row < l.main_content.y + l.main_content.height
}

/// `a` is `b` after a mouse event: a drag while resizing sets the sidebar's width
/// within its limits and a release ends the resizing (saving the layout); a click on the
/// smart view bar selects a view; a left click on the sidebar's edge starts resizing;
/// a left click on the collapsed sidebar expands it; events over the task list go to
/// it.  While a dialog is open, or over the open sidebar, nothing happens here.
pub open spec fn mouse_routed(b: AppComponent, a: AppComponent, m: Mouse, r: Action, e: Seq<Effect>) -> bool {
    let l = b.layout;
    if b.dialog.dialog_type is Some {
        a == b && r is Noop && e.len() == 0
    } else if l.resizing_sidebar {
        &&& r is Noop
        &&& (m.kind is Drag ==> a == (AppComponent { layout: ScreenLayout {
                sidebar_width_override: Some(if m.column < l.sidebar_min_width { l.sidebar_min_width }
                    else if m.column > sat_sub(l.screen_width, l.main_area_min_width) { sat_sub(l.screen_width, l.main_area_min_width) }
                    else { m.column }), ..l }, ..b }) && e.len() == 0)
        &&& (m.kind is LeftUp ==> a == (AppComponent { layout: ScreenLayout { resizing_sidebar: false, ..l }, ..b })
                && e == seq![Effect::PersistUiState { sidebar_collapsed: b.sidebar_collapsed }])
        &&& (!(m.kind is Drag || m.kind is LeftUp) ==> a == b && e.len() == 0)
    } else if in_area(m, l.smart_view_bar) {
        a == b && r == smart_view_click(m, l.smart_view_bar) && e.len() == 0
    } else if !b.sidebar_collapsed && in_main_rows(l, m.row)
        && (if m.column > l.sidebar_width { m.column - l.sidebar_width } else { l.sidebar_width - m.column }) <= 1
        && m.kind is LeftDown {
        a == (AppComponent { layout: ScreenLayout { resizing_sidebar: true, ..l }, ..b }) && r is Noop && e.len() == 0
    } else if m.column < l.sidebar_width && in_main_rows(l, m.row) {
        &&& a == b
        &&& e.len() == 0
        &&& (b.sidebar_collapsed && m.kind is LeftDown ==> r is ToggleSidebar)
        &&& (!(b.sidebar_collapsed && m.kind is LeftDown) ==> r is Noop)
    } else {
        let width = if l.screen_width > l.sidebar_width { (l.screen_width - l.sidebar_width) as u16 } else { 0u16 };
        let area = Area { x: l.sidebar_width, y: l.main_content.y, width: if width < 1 { 1u16 } else { width }, height: l.main_content.height };
        &&& a == (AppComponent { task_list: a.task_list, ..b })
        &&& mouse_handled(b.task_list, a.task_list, m, area)
        &&& e.len() == 0
    }
}

impl AppComponent {
    /// Handles a mouse event.
    pub fn route_mouse(&mut self, mouse: Mouse) -> (r: (Action, Vec<Effect>))
        requires
            old(self).wf(),
            old(self).layout.resizing_sidebar && mouse.kind is Drag
                ==> old(self).layout.sidebar_min_width <= (if old(self).layout.screen_width > old(self).layout.main_area_min_width { old(self).layout.screen_width - old(self).layout.main_area_min_width } else { 0 }),
        ensures
            final(self).wf(),
            mouse_routed(*old(self), *final(self), mouse, r.0, r.1@),
    {
        let mut e: Vec<Effect> = Vec::new();
        if self.dialog.is_visible() {
            return (Action::Noop, e);
        }
        let l = self.layout;
        if l.resizing_sidebar {
            match mouse.kind {
                MouseKind::Drag => {
                    let max = l.screen_width.saturating_sub(l.main_area_min_width);
                    let w = if mouse.column < l.sidebar_min_width {
                        l.sidebar_min_width
                    } else if mouse.column > max {
                        max
                    } else {
                        mouse.column
                    };
                    self.layout.sidebar_width_override = Some(w);
                },
                MouseKind::LeftUp => {
                    self.layout.resizing_sidebar = false;
                    e.push(Effect::PersistUiState { sidebar_collapsed: self.sidebar_collapsed });
                },
                _ => {},
            }
            return (Action::Noop, e);
        }
        let in_rows = l.main_content.y <= mouse.row && (mouse.row as u32) < l.main_content.y as u32 + l.main_content.height as u32;
        let in_bar = l.smart_view_bar.x <= mouse.column && (mouse.column as u32) < l.smart_view_bar.x as u32 + l.smart_view_bar.width as u32
            && l.smart_view_bar.y <= mouse.row && (mouse.row as u32) < l.smart_view_bar.y as u32 + l.smart_view_bar.height as u32;
        if in_bar {
            return (handle_smart_view_mouse(mouse, l.smart_view_bar), e);
        }
        let distance = if mouse.column > l.sidebar_width { mouse.column - l.sidebar_width } else { l.sidebar_width - mouse.column };
        let left_down = matches!(mouse.kind, MouseKind::LeftDown);
        if !self.sidebar_collapsed && in_rows && distance <= 1 && left_down {
            self.layout.resizing_sidebar = true;
            return (Action::Noop, e);
        }
        if mouse.column < l.sidebar_width && in_rows {
            if self.sidebar_collapsed && left_down {
                return (Action::ToggleSidebar, e);
            }
            return (Action::Noop, e);
        }
        let width = l.screen_width.saturating_sub(l.sidebar_width);
        let area = Area { x: l.sidebar_width, y: l.main_content.y, width: if width < 1 { 1 } else { width }, height: l.main_content.height };
        let r = self.task_list.handle_mouse(mouse, area);
        (r, e)
    }

    /// Records where the frame about to be drawn puts things: the smart view bar, the
    /// content below it, and the sidebar's width in that content (a rail of three
    /// columns while collapsed).
    pub fn arrange(&mut self, bar: Area, content: Area, screen_width: u16, screen_height: u16) -> (sidebar_width: u16)
        ensures
            sidebar_width == (if old(self).sidebar_collapsed {
                let room = sat_sub(content.width, 1);
                if 3 < room { 3u16 } else { room }
            } else {
                sidebar_width_for(old(self).layout, content.width)
            }),
            *final(self) == (AppComponent { layout: ScreenLayout {
                sidebar_width,
                screen_width,
                screen_height,
                smart_view_bar: bar,
                main_content: content,
                ..old(self).layout
            }, ..*old(self) }),
    {
        let width = if self.sidebar_collapsed {
            let room = content.width.saturating_sub(1);
            if 3 < room { 3 } else { room }
        } else {
            let columns = match self.layout.sidebar_width_override {
                Some(w) => w,
                None => self.layout.sidebar_default_width,
            };
            let max = content.width.saturating_sub(self.layout.main_area_min_width);
            if columns < max { columns } else { max }
        };
        self.layout.sidebar_width = width;
        self.layout.screen_width = screen_width;
        self.layout.screen_height = screen_height;
        self.layout.smart_view_bar = bar;
        self.layout.main_content = content;
        width
    }

    /// Takes a new screen size: the sidebar keeps its width where the main area keeps
    /// its minimum.
    pub fn resize(&mut self, width: u16, height: u16)
        ensures
            *final(self) == (AppComponent { layout: ScreenLayout {
                sidebar_width: sidebar_width_for(old(self).layout, width),
                screen_width: width,
                screen_height: height,
                ..old(self).layout
            }, ..*old(self) }),
    {
        let columns = match self.layout.sidebar_width_override {
            Some(w) => w,
            None => self.layout.sidebar_default_width,
        };
        let max = width.saturating_sub(self.layout.main_area_min_width);
        self.layout.sidebar_width = if columns < max { columns } else { max };
        self.layout.screen_width = width;
        self.layout.screen_height = height;
    }
}

} // verus!
