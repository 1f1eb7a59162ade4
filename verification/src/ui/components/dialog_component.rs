//! The modal dialog: text entry with a cursor, project choice, task search, the AI
//! task-management stages, and what each dialog submits.

use vstd::prelude::*;
use crate::entities::{label, project, task};
use crate::ai::text_equals;
use crate::datetime::{invalid_time_message, local_datetime_text, time_of_day, today_at_time_on};
use crate::ext::{push_char, str_trim, trimmed};
use crate::ui::components::task_list_component::opt_text;
use crate::ui::app_core::actions::{
    AiProposedAction, same_proposal, toggle_entries, same_dialog_kind, validation_of, Action, AiAssistStage, AiProposalPage, AiTaskProposal, DialogType,
};
use crate::ui::components::dialogs::common::{chars_of, cursor_move_spec, move_multiline_cursor, wrap_layout};
use crate::ui::components::task_list_component::Key;

verus! {

/// Rows moved by a page key in a scrolling dialog.
pub const PAGE_ROWS: usize = 10;

/// The dialog's state.
pub struct DialogComponent {
    pub dialog_type: Option<DialogType>,
    pub input_buffer: String,
    pub task_schedule_buffer: String,
    pub task_schedule_focused: bool,
    pub cursor_position: usize,
    pub projects: Vec<project::Model>,
    pub labels: Vec<label::Model>,
    pub tasks: Vec<task::Model>,
    pub selected_project_index: usize,
    /// The chosen parent among the root projects when creating a project.
    pub selected_parent_project_index: Option<usize>,
    /// The chosen project among the non-inbox projects when creating a task.
    pub selected_task_project_index: Option<usize>,
    pub selected_task_project_uuid: Option<u128>,
    /// Whether the project of a new task was chosen with Tab.
    pub task_project_explicitly_selected: bool,
    pub scroll_offset: usize,
    pub search_results: Vec<task::Model>,
    pub search_selected_index: usize,
    pub search_results_focused: bool,
    pub ai_selected_action_index: usize,
    pub ai_proposal_page: AiProposalPage,
    pub ai_recommendation_scroll: usize,
    pub ai_recommendation_max_scroll: usize,
    pub ai_original_context: String,
    pub ai_error_message: Option<String>,
    /// The width, in columns, of the AI context input.
    pub ai_input_width: u16,
}

/// Whether two dialogs hold the same kind, texts, lists and settings, comparing lists by
/// their elements.
pub open spec fn same_dialog(x: DialogComponent, y: DialogComponent) -> bool {
    &&& (x.dialog_type is Some <==> y.dialog_type is Some)
    &&& (x.dialog_type is Some ==> same_dialog_kind(x.dialog_type->0, y.dialog_type->0))
    &&& x.input_buffer == y.input_buffer
    &&& x.task_schedule_buffer == y.task_schedule_buffer
    &&& x.task_schedule_focused == y.task_schedule_focused
    &&& x.cursor_position == y.cursor_position
    &&& x.projects@ == y.projects@
    &&& x.labels@ == y.labels@
    &&& x.tasks@ == y.tasks@
    &&& x.selected_project_index == y.selected_project_index
    &&& x.selected_parent_project_index == y.selected_parent_project_index
    &&& x.selected_task_project_index == y.selected_task_project_index
    &&& x.selected_task_project_uuid == y.selected_task_project_uuid
    &&& x.task_project_explicitly_selected == y.task_project_explicitly_selected
    &&& x.scroll_offset == y.scroll_offset
    &&& x.search_results@ == y.search_results@
    &&& x.search_selected_index == y.search_selected_index
    &&& x.search_results_focused == y.search_results_focused
    &&& x.ai_selected_action_index == y.ai_selected_action_index
    &&& x.ai_proposal_page == y.ai_proposal_page
    &&& x.ai_recommendation_scroll == y.ai_recommendation_scroll
    &&& x.ai_recommendation_max_scroll == y.ai_recommendation_max_scroll
    &&& x.ai_original_context == y.ai_original_context
    &&& x.ai_error_message == y.ai_error_message
    &&& x.ai_input_width == y.ai_input_width
}

/// A dialog as it is first made: hidden, with empty inputs and lists and nothing chosen.
pub open spec fn fresh_dialog(d: DialogComponent) -> bool {
    &&& d.dialog_type is None
    &&& d.input_buffer@.len() == 0
    &&& d.task_schedule_buffer@.len() == 0
    &&& d.cursor_position == 0
    &&& d.projects@.len() == 0
    &&& d.labels@.len() == 0
    &&& d.tasks@.len() == 0
    &&& !d.task_schedule_focused
    &&& d.selected_project_index == 0
    &&& d.selected_parent_project_index is None
    &&& d.selected_task_project_index is None
    &&& d.selected_task_project_uuid is None
    &&& !d.task_project_explicitly_selected
    &&& d.scroll_offset == 0
    &&& d.search_results@.len() == 0
    &&& d.search_selected_index == 0
    &&& !d.search_results_focused
    &&& d.ai_selected_action_index == 0
    &&& d.ai_proposal_page == AiProposalPage::Recommendation
    &&& d.ai_recommendation_scroll == 0
    &&& d.ai_recommendation_max_scroll == 0
    &&& d.ai_original_context@.len() == 0
    &&& d.ai_error_message is None
    &&& d.ai_input_width == 74
}

/// Whether a dialog of this kind is a task creation.
pub open spec fn is_task_creation(d: Option<DialogType>) -> bool {
    d matches Some(DialogType::TaskCreation { .. })
}

/// The text being edited: the schedule while it has focus in a task creation, the
/// main input otherwise.
pub open spec fn active_text(c: DialogComponent) -> Seq<char> {
    if is_task_creation(c.dialog_type) && c.task_schedule_focused {
        c.task_schedule_buffer@
    } else {
        c.input_buffer@
    }
}

/// The projects a new task can go to: every project but the inbox, in order.
pub open spec fn task_projects(projects: Seq<project::Model>) -> Seq<project::Model> {
    projects.filter(|p: project::Model| !p.is_inbox_project)
}

/// The projects that can be parents: those without a parent, in order.
pub open spec fn root_projects(projects: Seq<project::Model>) -> Seq<project::Model> {
    projects.filter(|p: project::Model| p.parent_uuid is None)
}

/// The dialog after search results arrive: they replace the shown results when they
/// answer the query now typed; the selection stays within them and focus leaves them
/// when there are none.
pub open spec fn results_taken(b: DialogComponent, a: DialogComponent, query: Seq<char>, results: Vec<task::Model>) -> bool {
    if query != b.input_buffer@ {
        a == b
    } else {
        &&& a == (DialogComponent {
            search_results: results,
            search_selected_index: a.search_selected_index,
            search_results_focused: a.search_results_focused,
            ..b
        })
        &&& a.search_selected_index == if results@.len() == 0 {
            0
        } else if b.search_selected_index < results@.len() {
            b.search_selected_index as int
        } else {
            results@.len() - 1
        }
        &&& a.search_results_focused == (b.search_results_focused && results@.len() > 0)
    }
}

impl DialogComponent {
    /// The dialog's invariant: the cursor lies within the text being edited.
    pub open spec fn wf(&self) -> bool {
        self.cursor_position <= active_text(*self).len()
    }

    /// A copy of the dialog, with the same texts, lists and settings.
    pub fn duplicate(&self) -> (r: Self)
        ensures
            same_dialog(r, *self),
    {
        let dialog_type = match &self.dialog_type {
            Some(k) => Some(k.duplicate()),
            None => None,
        };
        DialogComponent {
            dialog_type,
            input_buffer: self.input_buffer.clone(),
            task_schedule_buffer: self.task_schedule_buffer.clone(),
            task_schedule_focused: self.task_schedule_focused,
            cursor_position: self.cursor_position,
            projects: project::duplicate_all(&self.projects),
            labels: label::duplicate_all(&self.labels),
            tasks: task::duplicate_all(&self.tasks),
            selected_project_index: self.selected_project_index,
            selected_parent_project_index: self.selected_parent_project_index,
            selected_task_project_index: self.selected_task_project_index,
            selected_task_project_uuid: self.selected_task_project_uuid,
            task_project_explicitly_selected: self.task_project_explicitly_selected,
            scroll_offset: self.scroll_offset,
            search_results: task::duplicate_all(&self.search_results),
            search_selected_index: self.search_selected_index,
            search_results_focused: self.search_results_focused,
            ai_selected_action_index: self.ai_selected_action_index,
            ai_proposal_page: self.ai_proposal_page,
            ai_recommendation_scroll: self.ai_recommendation_scroll,
            ai_recommendation_max_scroll: self.ai_recommendation_max_scroll,
            ai_original_context: self.ai_original_context.clone(),
            ai_error_message: task::copy_opt_string(&self.ai_error_message),
            ai_input_width: self.ai_input_width,
        }
    }

    /// A hidden dialog with empty inputs.
    pub fn new() -> (d: Self)
        ensures
            d.wf(),
            d.dialog_type is None,
            d.input_buffer@.len() == 0,
            d.task_schedule_buffer@.len() == 0,
            d.cursor_position == 0,
            d.projects@.len() == 0,
            d.labels@.len() == 0,
            d.tasks@.len() == 0,
            !d.task_schedule_focused,
            d.selected_project_index == 0,
            d.selected_parent_project_index is None,
            d.selected_task_project_index is None,
            d.selected_task_project_uuid is None,
            !d.task_project_explicitly_selected,
            d.scroll_offset == 0,
            d.search_results@.len() == 0,
            d.search_selected_index == 0,
            !d.search_results_focused,
            d.ai_selected_action_index == 0,
            d.ai_proposal_page == AiProposalPage::Recommendation,
            d.ai_recommendation_scroll == 0,
            d.ai_recommendation_max_scroll == 0,
            d.ai_original_context@.len() == 0,
            d.ai_error_message is None,
            d.ai_input_width == 74,
            fresh_dialog(d),
    {
        DialogComponent {
            dialog_type: None,
            input_buffer: String::new(),
            task_schedule_buffer: String::new(),
            task_schedule_focused: false,
            cursor_position: 0,
            projects: Vec::new(),
            labels: Vec::new(),
            tasks: Vec::new(),
            selected_project_index: 0,
            selected_parent_project_index: None,
            selected_task_project_index: None,
            selected_task_project_uuid: None,
            task_project_explicitly_selected: false,
            scroll_offset: 0,
            search_results: Vec::new(),
            search_selected_index: 0,
            search_results_focused: false,
            ai_selected_action_index: 0,
            ai_proposal_page: AiProposalPage::Recommendation,
            ai_recommendation_scroll: 0,
            ai_recommendation_max_scroll: 0,
            ai_original_context: String::new(),
            ai_error_message: None,
            ai_input_width: 74,
        }
    }

    /// Replaces the projects and labels offered by the dialogs.
    pub fn update_data(&mut self, projects: Vec<project::Model>, labels: Vec<label::Model>)
        ensures
            *final(self) == (DialogComponent { projects, labels, ..*old(self) }),
    {
        self.projects = projects;
        self.labels = labels;
    }

    /// Replaces the projects, labels and tasks offered by the dialogs.
    pub fn update_data_with_tasks(&mut self, projects: Vec<project::Model>, labels: Vec<label::Model>, tasks: Vec<task::Model>)
        ensures
            *final(self) == (DialogComponent { projects, labels, tasks, ..*old(self) }),
    {
        self.projects = projects;
        self.labels = labels;
        self.tasks = tasks;
    }

    /// The projects without a parent, for choosing a parent.
    pub fn get_root_projects(&self) -> (r: Vec<project::Model>)
        ensures
            r@ == root_projects(self.projects@),
    {
        let mut out: Vec<project::Model> = Vec::new();
        let mut i: usize = 0;
        while i < self.projects.len()
            invariant
                i <= self.projects@.len(),
                out@ == self.projects@.take(i as int).filter(|p: project::Model| p.parent_uuid is None),
            decreases self.projects@.len() - i,
        {
            proof {
                assert(self.projects@.take(i + 1) =~= self.projects@.take(i as int).push(self.projects@[i as int]));
                self.projects@.take(i as int).lemma_filter_push(self.projects@[i as int], |p: project::Model| p.parent_uuid is None);
            }
            if self.projects[i].parent_uuid.is_none() {
                out.push(self.projects[i].duplicate());
            }
            i = i + 1;
        }
        proof {
            assert(self.projects@.take(i as int) =~= self.projects@);
        }
        out
    }

    /// The projects other than the inbox, for choosing a new task's project.
    pub fn get_task_projects(&self) -> (r: Vec<project::Model>)
        ensures
            r@ == task_projects(self.projects@),
    {
        let mut out: Vec<project::Model> = Vec::new();
        let mut i: usize = 0;
        while i < self.projects.len()
            invariant
                i <= self.projects@.len(),
                out@ == self.projects@.take(i as int).filter(|p: project::Model| !p.is_inbox_project),
            decreases self.projects@.len() - i,
        {
            proof {
                assert(self.projects@.take(i + 1) =~= self.projects@.take(i as int).push(self.projects@[i as int]));
                self.projects@.take(i as int).lemma_filter_push(self.projects@[i as int], |p: project::Model| !p.is_inbox_project);
            }
            if !self.projects[i].is_inbox_project {
                out.push(self.projects[i].duplicate());
            }
            i = i + 1;
        }
        proof {
            assert(self.projects@.take(i as int) =~= self.projects@);
        }
        out
    }

    /// Whether a dialog is shown.
    pub fn is_visible(&self) -> (b: bool)
        ensures
            b == self.dialog_type is Some,
    {
        self.dialog_type.is_some()
    }

    /// Takes in the results of a search, when they answer the query now typed: the
    /// selection stays within them, and focus leaves them when there are none.
    pub fn update_search_results(&mut self, query: &str, results: Vec<task::Model>)
        requires
            old(self).wf(),
        ensures
            final(self).wf(),
            results_taken(*old(self), *final(self), query@, results),
    {
        if text_equals(&self.input_buffer, query) {
            let n = results.len();
            self.search_results = results;
            let last = if n == 0 { 0 } else { n - 1 };
            if self.search_selected_index > last {
                self.search_selected_index = last;
            }
            if n == 0 {
                self.search_results_focused = false;
            }
        }
    }
}

/// The characters as a string.
fn string_of(chars: &Vec<char>) -> (s: String)
    ensures
        s@ == chars@,
{
    let mut s = String::new();
    let mut i: usize = 0;
    while i < chars.len()
        invariant
            i <= chars@.len(),
            s@ == chars@.take(i as int),
        decreases chars@.len() - i,
    {
        push_char(&mut s, chars[i]);
        proof {
            assert(chars@.take(i + 1) =~= chars@.take(i as int).push(chars@[i as int]));
        }
        i = i + 1;
    }
    proof {
        assert(chars@.take(i as int) =~= chars@);
    }
    s
}

/// The text with a character inserted at a character position.
fn insert_char_at(s: &String, pos: usize, c: char) -> (r: String)
    requires
        pos <= s@.len(),
    ensures
        r@ == s@.insert(pos as int, c),
        r@.len() <= usize::MAX,
{
    let mut chars = chars_of(s.as_str());
    chars.insert(pos, c);
    let n = chars.len();
    string_of(&chars)
}

/// The text without the character at a character position.
fn remove_char_at(s: &String, pos: usize) -> (r: String)
    requires
        pos < s@.len(),
    ensures
        r@ == s@.remove(pos as int),
{
    let mut chars = chars_of(s.as_str());
    chars.remove(pos);
    string_of(&chars)
}

/// The number of characters of a text.
fn char_count(s: &String) -> (n: usize)
    ensures
        n == s@.len(),
{
    chars_of(s.as_str()).len()
}

/// `a` is `b` with the dialog closed and its inputs reset.
pub open spec fn cleared(b: DialogComponent, a: DialogComponent) -> bool {
    &&& a == (DialogComponent {
        input_buffer: a.input_buffer,
        task_schedule_buffer: a.task_schedule_buffer,
        search_results: a.search_results,
        dialog_type: None,
        task_schedule_focused: false,
        cursor_position: 0,
        selected_project_index: 0,
        selected_parent_project_index: None,
        selected_task_project_index: None,
        selected_task_project_uuid: None,
        task_project_explicitly_selected: false,
        scroll_offset: 0,
        ai_selected_action_index: 0,
        ai_error_message: None,
        ..b
    })
    &&& a.input_buffer@.len() == 0
    &&& a.task_schedule_buffer@.len() == 0
    &&& a.search_results@.len() == 0
}

/// A scroll movement of a dialog's content.
#[derive(Debug, Clone, Copy, PartialEq, Eq, Structural)]
pub enum Scroll {
    Up,
    Down,
    PageUp,
    PageDown,
    Top,
    Bottom,
}

/// The scroll offset after a movement; the bottom is the largest offset, which
/// rendering brings back within the content.
pub open spec fn scrolled(offset: usize, m: Scroll) -> usize {
    match m {
        Scroll::Up => if offset == 0 { 0 } else { (offset - 1) as usize },
        Scroll::Down => if offset == usize::MAX { offset } else { (offset + 1) as usize },
        Scroll::PageUp => if offset < PAGE_ROWS { 0 } else { (offset - PAGE_ROWS) as usize },
        Scroll::PageDown => if offset > usize::MAX - PAGE_ROWS { usize::MAX } else { (offset + PAGE_ROWS) as usize },
        Scroll::Top => 0,
        Scroll::Bottom => usize::MAX,
    }
}

/// The scroll movement a key asks for in a scrolling dialog.
pub open spec fn scroll_key(key: Key) -> Option<Scroll> {
    match key {
        Key::Up => Some(Scroll::Up),
        Key::Char(c) => if c == 'k' { Some(Scroll::Up) } else if c == 'j' { Some(Scroll::Down) } else { None },
        Key::Down => Some(Scroll::Down),
        Key::PageUp => Some(Scroll::PageUp),
        Key::PageDown => Some(Scroll::PageDown),
        Key::Home => Some(Scroll::Top),
        Key::End => Some(Scroll::Bottom),
        _ => None,
    }
}

impl DialogComponent {
    /// Closes the dialog and resets its inputs.
    pub fn clear_dialog(&mut self)
        ensures
            final(self).wf(),
            cleared(*old(self), *final(self)),
    {
        self.dialog_type = None;
        self.input_buffer = String::new();
        self.task_schedule_buffer = String::new();
        self.task_schedule_focused = false;
        self.cursor_position = 0;
        self.selected_project_index = 0;
        self.selected_parent_project_index = None;
        self.selected_task_project_index = None;
        self.selected_task_project_uuid = None;
        self.task_project_explicitly_selected = false;
        self.scroll_offset = 0;
        self.search_results = Vec::new();
        self.ai_selected_action_index = 0;
        self.ai_error_message = None;
    }

    /// Moves the scroll offset.
    pub fn scroll(&mut self, m: Scroll)
        ensures
            *final(self) == (DialogComponent { scroll_offset: scrolled(old(self).scroll_offset, m), ..*old(self) }),
    {
        self.scroll_offset = match m {
            Scroll::Up => if self.scroll_offset == 0 { 0 } else { self.scroll_offset - 1 },
            Scroll::Down => if self.scroll_offset == usize::MAX { self.scroll_offset } else { self.scroll_offset + 1 },
            Scroll::PageUp => if self.scroll_offset < PAGE_ROWS { 0 } else { self.scroll_offset - PAGE_ROWS },
            Scroll::PageDown => if self.scroll_offset > usize::MAX - PAGE_ROWS {
                usize::MAX
            } else {
                self.scroll_offset + PAGE_ROWS
            },
            Scroll::Top => 0,
            Scroll::Bottom => usize::MAX,
        };
    }
}

/// Whether `k` is the first place of a project with the identifier.
pub open spec fn is_first_with_uuid(ps: Seq<project::Model>, id: u128, k: int) -> bool {
    &&& 0 <= k < ps.len()
    &&& ps[k].uuid == id
    &&& forall|j: int| 0 <= j < k ==> #[trigger] ps[j].uuid != id
}

/// The text a dialog starts with: the value being edited, or nothing.
pub open spec fn initial_text(d: DialogType) -> Seq<char> {
    match d {
        DialogType::TaskEdit { content, .. } => content@,
        DialogType::TaskDescriptionEdit { description, .. } => description@,
        DialogType::TaskTime { current_time, .. } => match current_time {
            Some(t) => t@,
            None => Seq::empty(),
        },
        DialogType::ProjectEdit { name, .. } => name@,
        DialogType::LabelEdit { name, .. } => name@,
        _ => Seq::empty(),
    }
}

/// `a` is `b` showing the dialog `d`: the text starts as `initial_text(d)` with the cursor
/// at its end; a task creation also clears the schedule and preselects its default
/// project when that is one of the non-inbox projects; a search starts with no results
/// and asks for the empty query; an AI dialog starts without a selection or error.
pub open spec fn shown(b: DialogComponent, a: DialogComponent, d: DialogType, r: Action) -> bool {
    let creation = d is TaskCreation;
    let tp = task_projects(b.projects@);
    &&& a.dialog_type == Some(d)
    &&& a.input_buffer@ == initial_text(d)
    &&& a.cursor_position == initial_text(d).len()
    &&& a.selected_project_index == if creation { b.selected_project_index } else { 0 }
    &&& (creation ==> a.task_schedule_buffer@.len() == 0 && !a.task_schedule_focused)
    &&& (!creation ==> a.task_schedule_buffer == b.task_schedule_buffer && a.task_schedule_focused == b.task_schedule_focused)
    &&& (match d {
        DialogType::TaskCreation { default_project_uuid, .. } => match default_project_uuid {
            Some(p) => if exists|k: int| is_first_with_uuid(tp, p, k) {
                &&& is_first_with_uuid(tp, p, a.selected_task_project_index->0 as int)
                &&& a.selected_task_project_index is Some
                &&& a.selected_task_project_uuid == Some(p)
            } else {
                a.selected_task_project_index == b.selected_task_project_index
                    && a.selected_task_project_uuid == b.selected_task_project_uuid
            },
            None => a.selected_task_project_index == b.selected_task_project_index
                && a.selected_task_project_uuid == b.selected_task_project_uuid,
        },
        _ => a.selected_task_project_index == b.selected_task_project_index
            && a.selected_task_project_uuid == b.selected_task_project_uuid,
    })
    &&& (d is TaskSearch ==> a.search_results@.len() == 0 && a.search_selected_index == 0 && !a.search_results_focused
        && (r matches Action::SearchTasks(q) && q@.len() == 0))
    &&& (!(d is TaskSearch) ==> a.search_results == b.search_results && a.search_selected_index == b.search_selected_index
        && a.search_results_focused == b.search_results_focused && r is Noop)
    &&& (d is AiTaskManagement ==> a.ai_selected_action_index == 0 && a.ai_error_message is None)
    &&& (!(d is AiTaskManagement) ==> a.ai_selected_action_index == b.ai_selected_action_index
        && a.ai_error_message == b.ai_error_message)
    &&& a == (DialogComponent {
        dialog_type: a.dialog_type,
        input_buffer: a.input_buffer,
        cursor_position: a.cursor_position,
        selected_project_index: a.selected_project_index,
        task_schedule_buffer: a.task_schedule_buffer,
        task_schedule_focused: a.task_schedule_focused,
        selected_task_project_index: a.selected_task_project_index,
        selected_task_project_uuid: a.selected_task_project_uuid,
        search_results: a.search_results,
        search_selected_index: a.search_selected_index,
        search_results_focused: a.search_results_focused,
        ai_selected_action_index: a.ai_selected_action_index,
        ai_error_message: a.ai_error_message,
        ..b
    })
}

/// The cursor kept within the main input.
pub open spec fn cursor_within_input(c: DialogComponent) -> usize {
    if c.cursor_position <= c.input_buffer@.len() { c.cursor_position } else { c.input_buffer@.len() as usize }
}

/// What an action does to the dialog and which action it passes on.
pub open spec fn dialog_updated(b: DialogComponent, a: DialogComponent, action: Action, r: Action) -> bool {
    match action {
        Action::AiProposalGenerated { task, proposal } => {
            &&& r is Noop
            &&& a.input_buffer@.len() == 0
            &&& a == (DialogComponent {
                input_buffer: a.input_buffer,
                cursor_position: 0,
                ai_selected_action_index: 0,
                ai_proposal_page: AiProposalPage::Recommendation,
                ai_recommendation_scroll: 0,
                ai_recommendation_max_scroll: 0,
                ai_error_message: None,
                dialog_type: Some(
                    DialogType::AiTaskManagement {
                        task,
                        stage: AiAssistStage::ProposalReview,
                        proposal: Some(proposal),
                        report: None,
                    },
                ),
                ..b
            })
        },
        Action::AiProposalFailed { task, message } => r is Noop && a == (DialogComponent {
            ai_error_message: Some(message),
            cursor_position: cursor_within_input(b),
            dialog_type: Some(
                DialogType::AiTaskManagement { task, stage: AiAssistStage::ContextEntry, proposal: None, report: None },
            ),
            ..b
        }),
        Action::AiProposalRevisionFailed { task, proposal, message } => r is Noop && a == (DialogComponent {
            ai_error_message: Some(message),
            ai_proposal_page: AiProposalPage::Actions,
            cursor_position: cursor_within_input(b),
            dialog_type: Some(
                DialogType::AiTaskManagement {
                    task,
                    stage: AiAssistStage::ProposalReview,
                    proposal: Some(proposal),
                    report: None,
                },
            ),
            ..b
        }),
        Action::AiAssistFinished { task, proposal, report } => r is Noop && a == (DialogComponent {
            cursor_position: cursor_within_input(b),
            dialog_type: Some(
                DialogType::AiTaskManagement {
                    task,
                    stage: AiAssistStage::Result,
                    proposal: Some(proposal),
                    report: Some(report),
                },
            ),
            ..b
        }),
        Action::ShowDialog(d) => shown(b, a, d, r),
        Action::HideDialog => r is Noop && cleared(b, a),
        _ => r == action && a == b,
    }
}

/// The text a dialog starts with.
fn initial_text_of(d: &DialogType) -> (s: String)
    ensures
        s@ == initial_text(*d),
{
    match d {
        DialogType::TaskEdit { content, .. } => content.clone(),
        DialogType::TaskDescriptionEdit { description, .. } => description.clone(),
        DialogType::TaskTime { current_time, .. } => match current_time {
            Some(t) => t.clone(),
            None => String::new(),
        },
        DialogType::ProjectEdit { name, .. } => name.clone(),
        DialogType::LabelEdit { name, .. } => name.clone(),
        _ => String::new(),
    }
}

/// The first place of a project with the identifier.
fn first_with_uuid(ps: &Vec<project::Model>, id: u128) -> (r: Option<usize>)
    ensures
        match r {
            Some(k) => is_first_with_uuid(ps@, id, k as int),
            None => forall|k: int| !is_first_with_uuid(ps@, id, k),
        },
{
    let mut i: usize = 0;
    while i < ps.len()
        invariant
            i <= ps@.len(),
            forall|j: int| 0 <= j < i ==> #[trigger] ps@[j].uuid != id,
        decreases ps@.len() - i,
    {
        if ps[i].uuid == id {
            return Some(i);
        }
        i = i + 1;
    }
    None
}

impl DialogComponent {
    /// Opens, closes or advances dialogs for the actions that concern them; other
    /// actions pass on unchanged.
    pub fn update(&mut self, action: Action) -> (r: Action)
        requires
            old(self).wf(),
        ensures
            final(self).wf(),
            dialog_updated(*old(self), *final(self), action, r),
    {
        match action {
            Action::AiProposalGenerated { task, proposal } => {
                self.input_buffer = String::new();
                self.cursor_position = 0;
                self.ai_selected_action_index = 0;
                self.ai_proposal_page = AiProposalPage::Recommendation;
                self.ai_recommendation_scroll = 0;
                self.ai_recommendation_max_scroll = 0;
                self.ai_error_message = None;
                self.dialog_type = Some(
                    DialogType::AiTaskManagement {
                        task,
                        stage: AiAssistStage::ProposalReview,
                        proposal: Some(proposal),
                        report: None,
                    },
                );
                Action::Noop
            },
            Action::AiProposalFailed { task, message } => {
                let n = char_count(&self.input_buffer);
                if self.cursor_position > n {
                    self.cursor_position = n;
                }
                self.ai_error_message = Some(message);
                self.dialog_type = Some(
                    DialogType::AiTaskManagement { task, stage: AiAssistStage::ContextEntry, proposal: None, report: None },
                );
                Action::Noop
            },
            Action::AiProposalRevisionFailed { task, proposal, message } => {
                let n = char_count(&self.input_buffer);
                if self.cursor_position > n {
                    self.cursor_position = n;
                }
                self.ai_error_message = Some(message);
                self.ai_proposal_page = AiProposalPage::Actions;
                self.dialog_type = Some(
                    DialogType::AiTaskManagement {
                        task,
                        stage: AiAssistStage::ProposalReview,
                        proposal: Some(proposal),
                        report: None,
                    },
                );
                Action::Noop
            },
            Action::AiAssistFinished { task, proposal, report } => {
                let n = char_count(&self.input_buffer);
                if self.cursor_position > n {
                    self.cursor_position = n;
                }
                self.dialog_type = Some(
                    DialogType::AiTaskManagement {
                        task,
                        stage: AiAssistStage::Result,
                        proposal: Some(proposal),
                        report: Some(report),
                    },
                );
                Action::Noop
            },
            Action::ShowDialog(dialog_type) => self.show(dialog_type),
            Action::HideDialog => {
                self.clear_dialog();
                Action::Noop
            },
            _ => action,
        }
    }

    fn show(&mut self, d: DialogType) -> (r: Action)
        ensures
            final(self).wf(),
            shown(*old(self), *final(self), d, r),
    {
        let is_creation = match &d {
            DialogType::TaskCreation { .. } => true,
            _ => false,
        };
        let text = initial_text_of(&d);
        self.cursor_position = char_count(&text);
        self.input_buffer = text;
        let mut r = Action::Noop;
        match &d {
            DialogType::TaskCreation { default_project_uuid, .. } => {
                self.task_schedule_buffer = String::new();
                self.task_schedule_focused = false;
                match default_project_uuid {
                    Some(p) => {
                        let tp = self.get_task_projects();
                        match first_with_uuid(&tp, *p) {
                            Some(k) => {
                                self.selected_task_project_index = Some(k);
                                self.selected_task_project_uuid = Some(*p);
                            },
                            None => {},
                        }
                    },
                    None => {},
                }
            },
            DialogType::TaskSearch => {
                self.search_results = Vec::new();
                self.search_selected_index = 0;
                self.search_results_focused = false;
                r = Action::SearchTasks(String::new());
            },
            DialogType::AiTaskManagement { .. } => {
                self.ai_selected_action_index = 0;
                self.ai_error_message = None;
            },
            _ => {},
        }
        self.dialog_type = Some(d);
        if !is_creation {
            self.selected_project_index = 0;
        }
        r
    }
}

/// A submission that closes the dialog.
pub open spec fn closes_with(b: DialogComponent, a: DialogComponent) -> bool {
    cleared(b, a)
}

/// What Enter submits in each dialog, given today's day number for times of day.
pub open spec fn submit_handled(b: DialogComponent, a: DialogComponent, today: i32, r: Action) -> bool {
    let input = b.input_buffer@;
    match b.dialog_type {
        Some(DialogType::TaskCreation { default_project_uuid, default_due_date, default_label_uuid }) => {
            let schedule = trimmed(b.task_schedule_buffer@);
            if input.len() == 0 {
                r is Noop && a == b
            } else {
                &&& cleared(b, a)
                &&& r matches Action::CreateTask { content, project_uuid, due_string, due_date, label_uuid }
                &&& content@ == input
                &&& project_uuid == if b.task_project_explicitly_selected {
                    b.selected_task_project_uuid
                } else {
                    default_project_uuid
                }
                &&& opt_text(due_string) == if schedule.len() > 0 { Some(schedule) } else { None }
                &&& opt_text(due_date) == if schedule.len() == 0 { opt_text(default_due_date) } else { None }
                &&& label_uuid == default_label_uuid
            }
        },
        Some(DialogType::TaskEdit { task_uuid, .. }) => if input.len() == 0 {
            r is Noop && a == b
        } else {
            cleared(b, a) && (r matches Action::EditTask { task_uuid: t, content } && t == task_uuid && content@ == input)
        },
        Some(DialogType::TaskDescriptionEdit { task_uuid, .. }) => cleared(b, a) && (r matches Action::EditTaskDescription {
            task_uuid: t,
            description,
        } && t == task_uuid && description@ == input),
        Some(DialogType::TaskTime { task_uuid, .. }) => match time_of_day(input) {
            Some((h, m)) => cleared(b, a) && (r matches Action::SetTaskDueTime { task_uuid: t, due_datetime }
                && t == task_uuid && due_datetime@ == local_datetime_text(today as int, h, m)),
            None => a == b && (r matches Action::ShowDialog(DialogType::Error(e)) && e@ == invalid_time_message(input)),
        },
        Some(DialogType::AiTaskManagement { task, stage, proposal, .. }) => {
            &&& a == b
            &&& if stage == AiAssistStage::ContextEntry {
                if trimmed(input).len() == 0 {
                    r is Noop
                } else {
                    r matches Action::AiAssist { task: t, context } && t == task && context@ == input
                }
            } else if stage == AiAssistStage::RevisionEntry && proposal is Some {
                if trimmed(input).len() == 0 {
                    r is Noop
                } else {
                    r matches Action::AiReviseProposal { task: t, original_context, proposal: p, revision }
                        && t == task && original_context@ == b.ai_original_context@
                        && same_proposal(p, proposal->0) && revision@ == input
                }
            } else {
                r is Noop
            }
        },
        Some(DialogType::ProjectCreation) => if input.len() == 0 {
            r is Noop && a == b
        } else {
            let roots = root_projects(b.projects@);
            cleared(b, a) && (r matches Action::CreateProject { name, parent_uuid } && name@ == input
                && parent_uuid == match b.selected_parent_project_index {
                    Some(i) => if i < roots.len() { Some(roots[i as int].uuid) } else { None },
                    None => None,
                })
        },
        Some(DialogType::ProjectEdit { project_uuid, .. }) => if input.len() == 0 {
            r is Noop && a == b
        } else {
            cleared(b, a) && (r matches Action::EditProject { project_uuid: p, name } && p == project_uuid && name@ == input)
        },
        Some(DialogType::LabelCreation) => if input.len() == 0 {
            r is Noop && a == b
        } else {
            cleared(b, a) && (r matches Action::CreateLabel { name } && name@ == input)
        },
        Some(DialogType::LabelEdit { label_uuid, .. }) => if input.len() == 0 {
            r is Noop && a == b
        } else {
            cleared(b, a) && (r matches Action::EditLabel { label_uuid: l, name } && l == label_uuid && name@ == input)
        },
        Some(DialogType::DeleteConfirmation { item_type, item_uuid }) => if item_type@ == "task"@ {
            cleared(b, a) && r == Action::DeleteTask(item_uuid)
        } else if item_type@ == "project"@ {
            cleared(b, a) && r == Action::DeleteProject(item_uuid)
        } else if item_type@ == "label"@ {
            cleared(b, a) && r == Action::DeleteLabel(item_uuid)
        } else {
            r is Noop && a == b
        },
        Some(DialogType::EmptyTrashConfirmation { .. }) => cleared(b, a) && r is EmptyTrash,
        _ => r is Noop && a == b,
    }
}

impl DialogComponent {
    /// Submits the dialog; times of day are taken on the given day.
    pub fn handle_submit_on(&mut self, today: i32) -> (r: Action)
        requires
            old(self).wf(),
        ensures
            final(self).wf(),
            submit_handled(*old(self), *final(self), today, r),
    {
        let empty = self.input_buffer.as_str().is_empty();
        match &self.dialog_type {
            Some(DialogType::TaskCreation { default_project_uuid, default_due_date, default_label_uuid }) => {
                if empty {
                    return Action::Noop;
                }
                let project_uuid = if self.task_project_explicitly_selected {
                    self.selected_task_project_uuid
                } else {
                    *default_project_uuid
                };
                let schedule = str_trim(self.task_schedule_buffer.as_str());
                let schedule_empty = schedule.is_empty();
                let due_string = if !schedule_empty { Some(String::from_str(schedule)) } else { None };
                let due_date = if schedule_empty {
                    match default_due_date {
                        Some(d) => Some(d.clone()),
                        None => None,
                    }
                } else {
                    None
                };
                let action = Action::CreateTask {
                    content: self.input_buffer.clone(),
                    project_uuid,
                    due_string,
                    due_date,
                    label_uuid: *default_label_uuid,
                };
                self.clear_dialog();
                action
            },
            Some(DialogType::TaskEdit { task_uuid, .. }) => {
                if empty {
                    return Action::Noop;
                }
                let action = Action::EditTask { task_uuid: *task_uuid, content: self.input_buffer.clone() };
                self.clear_dialog();
                action
            },
            Some(DialogType::TaskDescriptionEdit { task_uuid, .. }) => {
                let action = Action::EditTaskDescription { task_uuid: *task_uuid, description: self.input_buffer.clone() };
                self.clear_dialog();
                action
            },
            Some(DialogType::TaskTime { task_uuid, .. }) => {
                let id = *task_uuid;
                match today_at_time_on(self.input_buffer.as_str(), today) {
                    Ok(due_datetime) => {
                        self.clear_dialog();
                        Action::SetTaskDueTime { task_uuid: id, due_datetime }
                    },
                    Err(message) => Action::ShowDialog(DialogType::Error(message)),
                }
            },
            Some(DialogType::AiTaskManagement { task, stage, proposal, .. }) => {
                let blank = str_trim(self.input_buffer.as_str()).is_empty();
                if *stage == AiAssistStage::ContextEntry {
                    if blank {
                        Action::Noop
                    } else {
                        Action::AiAssist { task: Box::new(task.duplicate()), context: self.input_buffer.clone() }
                    }
                } else if *stage == AiAssistStage::RevisionEntry {
                    match proposal {
                        Some(p) => if blank {
                            Action::Noop
                        } else {
                            Action::AiReviseProposal {
                                task: Box::new(task.duplicate()),
                                original_context: self.ai_original_context.clone(),
                                proposal: p.duplicate(),
                                revision: self.input_buffer.clone(),
                            }
                        },
                        None => Action::Noop,
                    }
                } else {
                    Action::Noop
                }
            },
            Some(DialogType::ProjectCreation) => {
                if empty {
                    return Action::Noop;
                }
                let parent_uuid = match self.selected_parent_project_index {
                    Some(i) => {
                        let roots = self.get_root_projects();
                        if i < roots.len() {
                            Some(roots[i].uuid)
                        } else {
                            None
                        }
                    },
                    None => None,
                };
                let action = Action::CreateProject { name: self.input_buffer.clone(), parent_uuid };
                self.clear_dialog();
                action
            },
            Some(DialogType::ProjectEdit { project_uuid, .. }) => {
                if empty {
                    return Action::Noop;
                }
                let action = Action::EditProject { project_uuid: *project_uuid, name: self.input_buffer.clone() };
                self.clear_dialog();
                action
            },
            Some(DialogType::LabelCreation) => {
                if empty {
                    return Action::Noop;
                }
                let action = Action::CreateLabel { name: self.input_buffer.clone() };
                self.clear_dialog();
                action
            },
            Some(DialogType::LabelEdit { label_uuid, .. }) => {
                if empty {
                    return Action::Noop;
                }
                let action = Action::EditLabel { label_uuid: *label_uuid, name: self.input_buffer.clone() };
                self.clear_dialog();
                action
            },
            Some(DialogType::DeleteConfirmation { item_type, item_uuid }) => {
                let id = *item_uuid;
                if text_equals(item_type, "task") {
                    self.clear_dialog();
                    Action::DeleteTask(id)
                } else if text_equals(item_type, "project") {
                    self.clear_dialog();
                    Action::DeleteProject(id)
                } else if text_equals(item_type, "label") {
                    self.clear_dialog();
                    Action::DeleteLabel(id)
                } else {
                    Action::Noop
                }
            },
            Some(DialogType::EmptyTrashConfirmation { .. }) => {
                self.clear_dialog();
                Action::EmptyTrash
            },
            _ => Action::Noop,
        }
    }
}

/// `a` is `b` with the text being edited replaced and the cursor moved.
pub open spec fn with_active(b: DialogComponent, a: DialogComponent, text: Seq<char>, cursor: int) -> bool {
    &&& a.cursor_position == cursor
    &&& if is_task_creation(b.dialog_type) && b.task_schedule_focused {
        a.task_schedule_buffer@ == text && a == (DialogComponent {
            task_schedule_buffer: a.task_schedule_buffer,
            cursor_position: a.cursor_position,
            ..b
        })
    } else {
        a.input_buffer@ == text && a == (DialogComponent {
            input_buffer: a.input_buffer,
            cursor_position: a.cursor_position,
            ..b
        })
    }
}

/// Whether a key edits text: characters, Backspace, Delete, Left and Right.
pub open spec fn is_edit_key(key: Key) -> bool {
    key is Char || key is Backspace || key is Delete || key is Left || key is Right
}

/// What an editing key does to the text being edited and the cursor.
pub open spec fn edited(b: DialogComponent, a: DialogComponent, key: Key) -> bool {
    let t = active_text(b);
    let k = b.cursor_position as int;
    match key {
        Key::Char(c) => with_active(b, a, t.insert(k, c), k + 1),
        Key::Backspace => if k > 0 { with_active(b, a, t.remove(k - 1), k - 1) } else { a == b },
        Key::Delete => if k < t.len() { with_active(b, a, t.remove(k), k) } else { a == b },
        Key::Left => a == (DialogComponent { cursor_position: if k == 0 { 0 } else { (k - 1) as usize }, ..b }),
        Key::Right => a == (DialogComponent { cursor_position: if k < t.len() { (k + 1) as usize } else { k as usize }, ..b }),
        _ => a == b,
    }
}

/// Typing a character and then pressing Backspace leaves the text being edited, and
/// the cursor, as they were.
pub proof fn lemma_type_then_backspace(b: DialogComponent, m: DialogComponent, a: DialogComponent, c: char)
    requires
        b.cursor_position <= active_text(b).len(),
        edited(b, m, Key::Char(c)),
        edited(m, a, Key::Backspace),
    ensures
        a.input_buffer@ == b.input_buffer@,
        a.task_schedule_buffer@ == b.task_schedule_buffer@,
        a.cursor_position == b.cursor_position,
        a == (DialogComponent { input_buffer: a.input_buffer, task_schedule_buffer: a.task_schedule_buffer, ..b }),
{
    let t = active_text(b);
    let k = b.cursor_position as int;
    assert(t.insert(k, c).remove(k) =~= t);
}

/// The next choice in a cycle through `n` entries and "none": none goes to the first,
/// the last goes to none.
pub open spec fn next_choice(current: Option<usize>, n: int) -> Option<usize> {
    match current {
        None => Some(0usize),
        Some(i) => if (i + 1) % (n + 1) == n { None } else { Some(((i + 1) % (n + 1)) as usize) },
    }
}

/// Tab in a task creation: cycles the project through the non-inbox projects and the
/// inbox, and records that the project was chosen.
pub open spec fn project_cycled(b: DialogComponent, a: DialogComponent) -> bool {
    let tp = task_projects(b.projects@);
    if tp.len() == 0 {
        a == b
    } else {
        let next = next_choice(b.selected_task_project_index, tp.len() as int);
        a == (DialogComponent {
            task_project_explicitly_selected: true,
            selected_task_project_index: next,
            selected_task_project_uuid: match next {
                Some(k) => Some(tp[k as int].uuid),
                None => None,
            },
            ..b
        })
    }
}

/// Tab in a project creation: cycles the parent through the root projects and none.
pub open spec fn parent_cycled(b: DialogComponent, a: DialogComponent) -> bool {
    let roots = root_projects(b.projects@);
    if roots.len() == 0 {
        a == b
    } else {
        a == (DialogComponent {
            selected_parent_project_index: next_choice(b.selected_parent_project_index, roots.len() as int),
            ..b
        })
    }
}

/// What a key does in a task creation.
pub open spec fn creation_key_handled(b: DialogComponent, a: DialogComponent, key: Key, today: i32, r: Action) -> bool {
    match key {
        Key::Esc => r is HideDialog && a == b,
        Key::Enter => submit_handled(b, a, today, r),
        Key::Up | Key::Down => r is Noop && a == (DialogComponent {
            task_schedule_focused: !b.task_schedule_focused,
            cursor_position: if !b.task_schedule_focused {
                b.task_schedule_buffer@.len() as usize
            } else {
                b.input_buffer@.len() as usize
            },
            ..b
        }),
        Key::Tab => r is Noop && project_cycled(b, a),
        _ => r is Noop && if is_edit_key(key) { edited(b, a, key) } else { a == b },
    }
}

/// What a key does in a dialog that edits one line of text.
pub open spec fn input_key_handled(b: DialogComponent, a: DialogComponent, key: Key, today: i32, r: Action) -> bool {
    match key {
        Key::Esc => r is HideDialog && a == b,
        Key::Enter => submit_handled(b, a, today, r),
        Key::Tab => r is Noop && if b.dialog_type == Some(DialogType::ProjectCreation) { parent_cycled(b, a) } else { a == b },
        _ => r is Noop && if is_edit_key(key) { edited(b, a, key) } else { a == b },
    }
}

/// A scroll key moves the content; in an information or error dialog every other key
/// closes it.
pub open spec fn message_key_handled(b: DialogComponent, a: DialogComponent, key: Key, r: Action) -> bool {
    match scroll_key(key) {
        Some(m) => r is Noop && a == (DialogComponent { scroll_offset: scrolled(b.scroll_offset, m), ..b }),
        None => r is HideDialog && a == b,
    }
}

/// In the help and log dialogs the closing keys close, scroll keys scroll, others do
/// nothing.
pub open spec fn scrolling_key_handled(b: DialogComponent, a: DialogComponent, key: Key, closes: bool, r: Action) -> bool {
    if closes {
        r is HideDialog && a == b
    } else {
        match scroll_key(key) {
            Some(m) => r is Noop && a == (DialogComponent { scroll_offset: scrolled(b.scroll_offset, m), ..b }),
            None => r is Noop && a == b,
        }
    }
}

/// The description of a task, or nothing.
pub open spec fn description_text(t: task::Model) -> Seq<char> {
    match t.description {
        Some(d) => d@,
        None => Seq::empty(),
    }
}

/// What a key does in the details of a task.
pub open spec fn details_key_handled(b: DialogComponent, a: DialogComponent, t: task::Model, key: Key, r: Action) -> bool {
    match key {
        Key::Esc | Key::Enter => r is HideDialog && a == b,
        Key::Char(c) if c == 'e' => a == b && (r matches Action::ShowDialog(DialogType::TaskEdit { task_uuid, content, project_uuid })
            && task_uuid == t.uuid && content@ == t.content@ && project_uuid == t.project_uuid),
        Key::Char(c) if c == 'd' => a == b && (r matches Action::ShowDialog(DialogType::TaskDescriptionEdit { task_uuid, description })
            && task_uuid == t.uuid && description@ == description_text(t)),
        Key::Char(c) if c == 'm' => a == b && (r matches Action::ShowDialog(
            DialogType::AiTaskManagement { task, stage, proposal, report },
        ) && *task == t && stage == AiAssistStage::ContextEntry && proposal is None && report is None),
        _ => match scroll_key(key) {
            Some(m) => r is Noop && a == (DialogComponent { scroll_offset: scrolled(b.scroll_offset, m), ..b }),
            None => r is Noop && a == b,
        },
    }
}

/// The search result selection moved one place down within the results.
pub open spec fn search_down(b: DialogComponent) -> usize {
    if b.search_selected_index + 1 < b.search_results@.len() { (b.search_selected_index + 1) as usize } else { b.search_selected_index }
}

/// What a key does in the task search.
pub open spec fn search_key_handled(b: DialogComponent, a: DialogComponent, key: Key, r: Action) -> bool {
    let n = b.search_results@.len();
    let sel = b.search_selected_index;
    let focused = b.search_results_focused;
    let up = if sel == 0 {
        DialogComponent { search_results_focused: false, ..b }
    } else {
        DialogComponent { search_selected_index: (sel - 1) as usize, ..b }
    };
    match key {
        Key::Esc => r is HideDialog && a == b,
        Key::Enter => r is Noop && a == b,
        Key::Down => r is Noop && if !focused {
            if n > 0 {
                a == (DialogComponent {
                    search_results_focused: true,
                    search_selected_index: if sel < n { sel } else { (n - 1) as usize },
                    ..b
                })
            } else {
                a == b
            }
        } else {
            a == (DialogComponent { search_selected_index: search_down(b), ..b })
        },
        Key::Up => r is Noop && if focused { a == up } else { a == b },
        Key::Char(c) => if focused {
            if c == 'j' {
                r is Noop && a == (DialogComponent { search_selected_index: search_down(b), ..b })
            } else if c == 'k' {
                r is Noop && a == up
            } else if c == 't' {
                a == b && if sel < n { r == Action::SetTaskDueToday(b.search_results@[sel as int].uuid) } else { r is Noop }
            } else if c == ' ' {
                a == b && if sel < n {
                    r matches Action::ToggleTasks(entries) && entries@ == toggle_entries(seq![b.search_results@[sel as int]])
                } else {
                    r is Noop
                }
            } else {
                r is Noop && a == b
            }
        } else {
            edited(b, a, key) && (r matches Action::SearchTasks(q) && q@ == a.input_buffer@)
        },
        Key::Backspace | Key::Delete => if focused {
            r is Noop && a == b
        } else {
            let changed = if key is Backspace { b.cursor_position > 0 } else { b.cursor_position < b.input_buffer@.len() };
            edited(b, a, key) && if changed {
                r matches Action::SearchTasks(q) && q@ == a.input_buffer@
            } else {
                r is Noop
            }
        },
        Key::Left | Key::Right => r is Noop && if focused { a == b } else { edited(b, a, key) },
        _ => r is Noop && a == b,
    }
}

/// The dialog with its AI stage changed.
pub open spec fn with_stage(d: Option<DialogType>, stage: AiAssistStage) -> Option<DialogType> {
    match d {
        Some(DialogType::AiTaskManagement { task, proposal, report, .. }) => Some(
            DialogType::AiTaskManagement { task, stage, proposal, report },
        ),
        _ => d,
    }
}

/// The number of actions of the proposal under review.
pub open spec fn proposal_action_count(d: Option<DialogType>) -> nat {
    match d {
        Some(DialogType::AiTaskManagement { proposal: Some(p), .. }) => p.actions@.len(),
        _ => 0,
    }
}

/// Up and Down move the cursor to the closest column of the wrapped row above or below.
pub open spec fn cursor_moved_rows(b: DialogComponent, a: DialogComponent, delta: int) -> bool {
    &&& a == (DialogComponent { cursor_position: a.cursor_position, ..b })
    &&& (b.input_buffer@.len() <= usize::MAX / 4 ==> cursor_move_spec(
        wrap_layout(b.input_buffer@, if b.ai_input_width < 1 { 1 } else { b.ai_input_width as int }).1,
        b.cursor_position as int,
        delta,
        a.cursor_position as int,
    ))
    &&& (b.input_buffer@.len() > usize::MAX / 4 ==> a == b)
}

/// What a key does while the AI context or a revision is typed.
pub open spec fn ai_entry_key_handled(b: DialogComponent, a: DialogComponent, key: Key, r: Action) -> bool {
    match key {
        Key::Up => r is Noop && cursor_moved_rows(b, a, -1),
        Key::Down => r is Noop && cursor_moved_rows(b, a, 1),
        _ => r is Noop && if is_edit_key(key) { edited(b, a, key) } else { a == b },
    }
}

/// What a key does in the AI task-management dialog.
pub open spec fn ai_key_handled(b: DialogComponent, a: DialogComponent, key: Key, today: i32, r: Action) -> bool {
    let stage = b.dialog_type->Some_0->AiTaskManagement_stage;
    let page = b.ai_proposal_page;
    if stage == AiAssistStage::ContextEntry {
        match key {
            Key::Esc => r is HideDialog && a == b,
            Key::Enter => {
                let mid = DialogComponent { ai_original_context: a.ai_original_context, ..b };
                a.ai_original_context@ == b.input_buffer@ && submit_handled(mid, a, today, r)
            },
            _ => ai_entry_key_handled(b, a, key, r),
        }
    } else if stage == AiAssistStage::RevisionEntry {
        match key {
            Key::Esc => r is Noop && a.input_buffer@.len() == 0 && a == (DialogComponent {
                dialog_type: with_stage(b.dialog_type, AiAssistStage::ProposalReview),
                ai_proposal_page: AiProposalPage::Actions,
                input_buffer: a.input_buffer,
                cursor_position: 0,
                ..b
            }),
            Key::Enter => submit_handled(b, a, today, r),
            _ => ai_entry_key_handled(b, a, key, r),
        }
    } else if stage == AiAssistStage::ProposalReview {
        match key {
            Key::Esc => r is HideDialog && a == b,
            Key::Left => r is Noop && a == (DialogComponent { ai_proposal_page: AiProposalPage::Recommendation, ..b }),
            Key::Right => r is Noop && a == (DialogComponent { ai_proposal_page: AiProposalPage::Actions, ..b }),
            Key::Enter => r is Noop && if page == AiProposalPage::Recommendation {
                a == (DialogComponent { ai_proposal_page: AiProposalPage::Actions, ..b })
            } else {
                match b.dialog_type {
                    Some(DialogType::AiTaskManagement { proposal: Some(p), .. }) => match validation_of(p.actions@) {
                        Ok(_) => a == (DialogComponent {
                            dialog_type: with_stage(b.dialog_type, AiAssistStage::ApplyConfirmation),
                            ai_error_message: None,
                            ..b
                        }),
                        Err(m) => a.ai_error_message matches Some(e) && e@ == m
                            && a == (DialogComponent { ai_error_message: a.ai_error_message, ..b }),
                    },
                    _ => a == b,
                }
            },
            _ => r is Noop && review_key(b, a, key),
        }
    } else if stage == AiAssistStage::ApplyConfirmation {
        match key {
            Key::Esc => r is Noop && a == (DialogComponent {
                dialog_type: with_stage(b.dialog_type, AiAssistStage::ProposalReview),
                ..b
            }),
            Key::Enter => a == b && match b.dialog_type {
                Some(DialogType::AiTaskManagement { task, proposal: Some(p), .. }) => r matches Action::AiApplyProposal {
                    task: t,
                    proposal: q,
                } && t == task && same_proposal(q, p),
                _ => r is Noop,
            },
            _ => r is Noop && a == b,
        }
    } else if stage == AiAssistStage::Result {
        match key {
            Key::Esc | Key::Enter => r is HideDialog && a == b,
            _ => r is Noop && a == b,
        }
    } else {
        r is Noop && a == b
    }
}

/// Moving, toggling and revising in the review of a proposal.
pub open spec fn review_key(b: DialogComponent, a: DialogComponent, key: Key) -> bool {
    let page = b.ai_proposal_page;
    let up = Key::Up == key || Key::Char('k') == key;
    let down = Key::Down == key || Key::Char('j') == key;
    if up {
        if page == AiProposalPage::Recommendation {
            a == (DialogComponent {
                ai_recommendation_scroll: if b.ai_recommendation_scroll == 0 { 0 } else { (b.ai_recommendation_scroll - 1) as usize },
                ..b
            })
        } else {
            a == (DialogComponent {
                ai_selected_action_index: if b.ai_selected_action_index == 0 { 0 } else { (b.ai_selected_action_index - 1) as usize },
                ..b
            })
        }
    } else if down {
        if page == AiProposalPage::Recommendation {
            let next = if b.ai_recommendation_scroll == usize::MAX { usize::MAX } else { (b.ai_recommendation_scroll + 1) as usize };
            a == (DialogComponent {
                ai_recommendation_scroll: if next < b.ai_recommendation_max_scroll { next } else { b.ai_recommendation_max_scroll },
                ..b
            })
        } else {
            a == (DialogComponent {
                ai_selected_action_index: if b.ai_selected_action_index + 1 < proposal_action_count(b.dialog_type) {
                    (b.ai_selected_action_index + 1) as usize
                } else {
                    b.ai_selected_action_index
                },
                ..b
            })
        }
    } else if key == Key::Char(' ') {
        if page != AiProposalPage::Actions {
            a == b
        } else {
            action_toggled(b, a)
        }
    } else if key == Key::Char('r') && page == AiProposalPage::Actions {
        a.input_buffer@.len() == 0 && a == (DialogComponent {
            dialog_type: with_stage(b.dialog_type, AiAssistStage::RevisionEntry),
            input_buffer: a.input_buffer,
            cursor_position: 0,
            ai_error_message: None,
            ..b
        })
    } else {
        a == b
    }
}

/// Space on the actions page: the selected action is switched on or off, and the error
/// is cleared.
pub open spec fn action_toggled(b: DialogComponent, a: DialogComponent) -> bool {
    let i = b.ai_selected_action_index as int;
    &&& a == (DialogComponent { dialog_type: a.dialog_type, ai_error_message: None, ..b })
    &&& match b.dialog_type {
        Some(DialogType::AiTaskManagement { task, stage, proposal: Some(p), report }) => if i < p.actions@.len() {
            a.dialog_type matches Some(DialogType::AiTaskManagement { task: t2, stage: s2, proposal: Some(p2), report: r2 })
                && t2 == task && s2 == stage && r2 == report && p2.summary == p.summary
                && p2.actions@ == p.actions@.update(
                i,
                AiProposedAction { enabled: !p.actions@[i].enabled, kind: p.actions@[i].kind },
            )
        } else {
            a.dialog_type == b.dialog_type
        },
        _ => a.dialog_type == b.dialog_type,
    }
}

/// What a key does in the dialog, given today's day number for times of day.
pub open spec fn dialog_key_handled(b: DialogComponent, a: DialogComponent, key: Key, today: i32, r: Action) -> bool {
    match b.dialog_type {
        None => r is Noop && a == b,
        Some(d) => match d {
            DialogType::AiTaskManagement { .. } => ai_key_handled(b, a, key, today, r),
            DialogType::TaskCreation { .. } => creation_key_handled(b, a, key, today, r),
            DialogType::TaskDetails { task } => details_key_handled(b, a, *task, key, r),
            DialogType::Info(_) => message_key_handled(b, a, key, r),
            DialogType::Error(_) => message_key_handled(b, a, key, r),
            DialogType::Help => scrolling_key_handled(
                b,
                a,
                key,
                key is Esc || key == Key::Char('?') || key == Key::Char('h'),
                r,
            ),
            DialogType::Logs => scrolling_key_handled(
                b,
                a,
                key,
                key is Esc || key == Key::Char('G') || key == Key::Char('q'),
                r,
            ),
            DialogType::DeleteConfirmation { .. } | DialogType::EmptyTrashConfirmation { .. } => match key {
                Key::Esc => r is HideDialog && a == b,
                Key::Enter => submit_handled(b, a, today, r),
                _ => r is Noop && a == b,
            },
            DialogType::TaskSearch => search_key_handled(b, a, key, r),
            _ => input_key_handled(b, a, key, today, r),
        },
    }
}

impl DialogComponent {
    /// Applies an editing key to the text being edited.
    fn edit_text(&mut self, key: Key)
        requires
            old(self).wf(),
            is_edit_key(key),
        ensures
            final(self).wf(),
            edited(*old(self), *final(self), key),
    {
        let schedule = match &self.dialog_type {
            Some(DialogType::TaskCreation { .. }) => self.task_schedule_focused,
            _ => false,
        };
        let len = if schedule { char_count(&self.task_schedule_buffer) } else { char_count(&self.input_buffer) };
        let k = self.cursor_position;
        match key {
            Key::Char(c) => {
                if schedule {
                    self.task_schedule_buffer = insert_char_at(&self.task_schedule_buffer, k, c);
                } else {
                    self.input_buffer = insert_char_at(&self.input_buffer, k, c);
                }
                self.cursor_position = k + 1;
            },
            Key::Backspace => {
                if k > 0 {
                    if schedule {
                        self.task_schedule_buffer = remove_char_at(&self.task_schedule_buffer, k - 1);
                    } else {
                        self.input_buffer = remove_char_at(&self.input_buffer, k - 1);
                    }
                    self.cursor_position = k - 1;
                }
            },
            Key::Delete => {
                if k < len {
                    if schedule {
                        self.task_schedule_buffer = remove_char_at(&self.task_schedule_buffer, k);
                    } else {
                        self.input_buffer = remove_char_at(&self.input_buffer, k);
                    }
                }
            },
            Key::Left => {
                if k > 0 {
                    self.cursor_position = k - 1;
                }
            },
            Key::Right => {
                if k < len {
                    self.cursor_position = k + 1;
                }
            },
            _ => {},
        }
    }

    fn cycle_task_project(&mut self)
        ensures
            project_cycled(*old(self), *final(self)),
    {
        let tp = self.get_task_projects();
        let n = tp.len();
        if n == 0 {
            return;
        }
        let next: Option<usize> = match self.selected_task_project_index {
            None => Some(0),
            Some(i) => {
                let j = ((i as u128 + 1) % (n as u128 + 1)) as usize;
                if j == n { None } else { Some(j) }
            },
        };
        self.task_project_explicitly_selected = true;
        self.selected_task_project_index = next;
        self.selected_task_project_uuid = match next {
            Some(k) => Some(tp[k].uuid),
            None => None,
        };
    }

    fn cycle_parent_project(&mut self)
        ensures
            parent_cycled(*old(self), *final(self)),
    {
        let n = self.get_root_projects().len();
        if n == 0 {
            return;
        }
        self.selected_parent_project_index = match self.selected_parent_project_index {
            None => Some(0),
            Some(i) => {
                let j = ((i as u128 + 1) % (n as u128 + 1)) as usize;
                if j == n { None } else { Some(j) }
            },
        };
    }

    fn creation_key(&mut self, key: Key, today: i32) -> (r: Action)
        requires
            old(self).wf(),
            is_task_creation(old(self).dialog_type),
        ensures
            final(self).wf(),
            creation_key_handled(*old(self), *final(self), key, today, r),
    {
        match key {
            Key::Esc => Action::HideDialog,
            Key::Enter => self.handle_submit_on(today),
            Key::Up | Key::Down => {
                self.task_schedule_focused = !self.task_schedule_focused;
                self.cursor_position = if self.task_schedule_focused {
                    char_count(&self.task_schedule_buffer)
                } else {
                    char_count(&self.input_buffer)
                };
                Action::Noop
            },
            Key::Tab => {
                self.cycle_task_project();
                Action::Noop
            },
            Key::Char(_) | Key::Backspace | Key::Delete | Key::Left | Key::Right => {
                self.edit_text(key);
                Action::Noop
            },
            _ => Action::Noop,
        }
    }

    fn input_key(&mut self, key: Key, today: i32) -> (r: Action)
        requires
            old(self).wf(),
            !is_task_creation(old(self).dialog_type),
        ensures
            final(self).wf(),
            input_key_handled(*old(self), *final(self), key, today, r),
    {
        match key {
            Key::Esc => Action::HideDialog,
            Key::Enter => self.handle_submit_on(today),
            Key::Tab => {
                let parent_choice = match &self.dialog_type {
                    Some(DialogType::ProjectCreation) => true,
                    _ => false,
                };
                if parent_choice {
                    self.cycle_parent_project();
                }
                Action::Noop
            },
            Key::Char(_) | Key::Backspace | Key::Delete | Key::Left | Key::Right => {
                self.edit_text(key);
                Action::Noop
            },
            _ => Action::Noop,
        }
    }
}

/// The scroll movement a key asks for in a scrolling dialog.
fn scroll_key_of(key: Key) -> (r: Option<Scroll>)
    ensures
        r == scroll_key(key),
{
    match key {
        Key::Up => Some(Scroll::Up),
        Key::Char(c) => if c == 'k' {
            Some(Scroll::Up)
        } else if c == 'j' {
            Some(Scroll::Down)
        } else {
            None
        },
        Key::Down => Some(Scroll::Down),
        Key::PageUp => Some(Scroll::PageUp),
        Key::PageDown => Some(Scroll::PageDown),
        Key::Home => Some(Scroll::Top),
        Key::End => Some(Scroll::Bottom),
        _ => None,
    }
}

impl DialogComponent {
    fn scroll_or(&mut self, key: Key, otherwise: Action) -> (r: Action)
        ensures
            match scroll_key(key) {
                Some(m) => r is Noop && *final(self) == (DialogComponent {
                    scroll_offset: scrolled(old(self).scroll_offset, m),
                    ..*old(self)
                }),
                None => r == otherwise && *final(self) == *old(self),
            },
    {
        match scroll_key_of(key) {
            Some(m) => {
                self.scroll(m);
                Action::Noop
            },
            None => otherwise,
        }
    }

    fn details_key(&mut self, key: Key, t: &task::Model) -> (r: Action)
        ensures
            details_key_handled(*old(self), *final(self), *t, key, r),
    {
        match key {
            Key::Esc | Key::Enter => Action::HideDialog,
            Key::Char(c) if c == 'e' => Action::ShowDialog(
                DialogType::TaskEdit { task_uuid: t.uuid, content: t.content.clone(), project_uuid: t.project_uuid },
            ),
            Key::Char(c) if c == 'd' => Action::ShowDialog(
                DialogType::TaskDescriptionEdit {
                    task_uuid: t.uuid,
                    description: match &t.description {
                        Some(d) => d.clone(),
                        None => String::new(),
                    },
                },
            ),
            Key::Char(c) if c == 'm' => Action::ShowDialog(
                DialogType::AiTaskManagement {
                    task: Box::new(t.duplicate()),
                    stage: AiAssistStage::ContextEntry,
                    proposal: None,
                    report: None,
                },
            ),
            _ => self.scroll_or(key, Action::Noop),
        }
    }

    fn search_up(&mut self)
        ensures
            *final(self) == if old(self).search_selected_index == 0 {
                DialogComponent { search_results_focused: false, ..*old(self) }
            } else {
                DialogComponent { search_selected_index: (old(self).search_selected_index - 1) as usize, ..*old(self) }
            },
    {
        if self.search_selected_index == 0 {
            self.search_results_focused = false;
        } else {
            self.search_selected_index = self.search_selected_index - 1;
        }
    }

    fn search_key(&mut self, key: Key) -> (r: Action)
        requires
            old(self).wf(),
            old(self).dialog_type == Some(DialogType::TaskSearch),
        ensures
            final(self).wf(),
            search_key_handled(*old(self), *final(self), key, r),
    {
        let n = self.search_results.len();
        let sel = self.search_selected_index;
        let focused = self.search_results_focused;
        match key {
            Key::Esc => Action::HideDialog,
            Key::Enter => Action::Noop,
            Key::Down => {
                if !focused {
                    if n > 0 {
                        self.search_results_focused = true;
                        if sel >= n {
                            self.search_selected_index = n - 1;
                        }
                    }
                } else if sel < n && sel + 1 < n {
                    self.search_selected_index = sel + 1;
                }
                Action::Noop
            },
            Key::Up => {
                if focused {
                    self.search_up();
                }
                Action::Noop
            },
            Key::Char(c) => {
                if focused {
                    if c == 'j' {
                        if sel < n && sel + 1 < n {
                            self.search_selected_index = sel + 1;
                        }
                        Action::Noop
                    } else if c == 'k' {
                        self.search_up();
                        Action::Noop
                    } else if c == 't' {
                        if sel < n {
                            Action::SetTaskDueToday(self.search_results[sel].uuid)
                        } else {
                            Action::Noop
                        }
                    } else if c == ' ' {
                        if sel < n {
                            let t = &self.search_results[sel];
                            let a = Action::toggle_task(t);
                            proof {
                                assert(toggle_entries(seq![*t]) =~= seq![(t.uuid, t.is_deleted || t.is_completed)]);
                            }
                            a
                        } else {
                            Action::Noop
                        }
                    } else {
                        Action::Noop
                    }
                } else {
                    self.edit_text(key);
                    Action::SearchTasks(self.input_buffer.clone())
                }
            },
            Key::Backspace => {
                if focused {
                    return Action::Noop;
                }
                let changed = self.cursor_position > 0;
                self.edit_text(key);
                if changed {
                    Action::SearchTasks(self.input_buffer.clone())
                } else {
                    Action::Noop
                }
            },
            Key::Delete => {
                if focused {
                    return Action::Noop;
                }
                let changed = self.cursor_position < char_count(&self.input_buffer);
                self.edit_text(key);
                if changed {
                    Action::SearchTasks(self.input_buffer.clone())
                } else {
                    Action::Noop
                }
            },
            Key::Left | Key::Right => {
                if !focused {
                    self.edit_text(key);
                }
                Action::Noop
            },
            _ => Action::Noop,
        }
    }
}

impl DialogComponent {
    /// Sets the stage of the AI dialog.
    fn set_stage(&mut self, stage: AiAssistStage)
        ensures
            *final(self) == (DialogComponent { dialog_type: with_stage(old(self).dialog_type, stage), ..*old(self) }),
    {
        let d = self.dialog_type.take();
        self.dialog_type = match d {
            Some(DialogType::AiTaskManagement { task, proposal, report, .. }) => Some(
                DialogType::AiTaskManagement { task, stage, proposal, report },
            ),
            other => other,
        };
    }

    /// Switches the selected proposed action on or off.
    fn toggle_selected_action(&mut self)
        ensures
            action_toggled(*old(self), *final(self)),
    {
        let i = self.ai_selected_action_index;
        let d = self.dialog_type.take();
        self.dialog_type = match d {
            Some(DialogType::AiTaskManagement { task, stage, proposal: Some(mut p), report }) => {
                if i < p.actions.len() {
                    let mut act = p.actions[i].duplicate();
                    act.enabled = !act.enabled;
                    p.actions.set(i, act);
                }
                Some(DialogType::AiTaskManagement { task, stage, proposal: Some(p), report })
            },
            other => other,
        };
        self.ai_error_message = None;
    }

    /// Up and Down while typing AI text.
    fn move_rows(&mut self, delta: i32)
        requires
            old(self).wf(),
            !is_task_creation(old(self).dialog_type),
        ensures
            final(self).wf(),
            cursor_moved_rows(*old(self), *final(self), delta as int),
    {
        let n = char_count(&self.input_buffer);
        if n <= usize::MAX / 4 {
            self.cursor_position = move_multiline_cursor(
                self.input_buffer.as_str(),
                self.cursor_position,
                self.ai_input_width,
                delta,
            );
        }
    }

    fn ai_entry_key(&mut self, key: Key) -> (r: Action)
        requires
            old(self).wf(),
            old(self).dialog_type matches Some(DialogType::AiTaskManagement { .. }),
        ensures
            final(self).wf(),
            ai_entry_key_handled(*old(self), *final(self), key, r),
    {
        match key {
            Key::Up => {
                self.move_rows(-1);
                Action::Noop
            },
            Key::Down => {
                self.move_rows(1);
                Action::Noop
            },
            Key::Char(_) | Key::Backspace | Key::Delete | Key::Left | Key::Right => {
                self.edit_text(key);
                Action::Noop
            },
            _ => Action::Noop,
        }
    }

    fn review_move(&mut self, key: Key)
        requires
            old(self).wf(),
            old(self).dialog_type matches Some(DialogType::AiTaskManagement { .. }),
            !(key is Esc || key is Left || key is Right || key is Enter),
        ensures
            final(self).wf(),
            review_key(*old(self), *final(self), key),
    {
        let up = key == Key::Up || key == Key::Char('k');
        let down = key == Key::Down || key == Key::Char('j');
        let on_actions = self.ai_proposal_page == AiProposalPage::Actions;
        if up {
            if !on_actions {
                if self.ai_recommendation_scroll > 0 {
                    self.ai_recommendation_scroll = self.ai_recommendation_scroll - 1;
                }
            } else if self.ai_selected_action_index > 0 {
                self.ai_selected_action_index = self.ai_selected_action_index - 1;
            }
        } else if down {
            if !on_actions {
                let next = if self.ai_recommendation_scroll == usize::MAX {
                    usize::MAX
                } else {
                    self.ai_recommendation_scroll + 1
                };
                self.ai_recommendation_scroll = if next < self.ai_recommendation_max_scroll {
                    next
                } else {
                    self.ai_recommendation_max_scroll
                };
            } else {
                let count = match &self.dialog_type {
                    Some(DialogType::AiTaskManagement { proposal: Some(p), .. }) => p.actions.len(),
                    _ => 0,
                };
                if self.ai_selected_action_index < count && self.ai_selected_action_index + 1 < count {
                    self.ai_selected_action_index = self.ai_selected_action_index + 1;
                }
            }
        } else if key == Key::Char(' ') {
            if on_actions {
                self.toggle_selected_action();
            }
        } else if key == Key::Char('r') && on_actions {
            self.set_stage(AiAssistStage::RevisionEntry);
            self.input_buffer = String::new();
            self.cursor_position = 0;
            self.ai_error_message = None;
        }
    }

    fn ai_key(&mut self, key: Key, today: i32) -> (r: Action)
        requires
            old(self).wf(),
            old(self).dialog_type matches Some(DialogType::AiTaskManagement { .. }),
        ensures
            final(self).wf(),
            ai_key_handled(*old(self), *final(self), key, today, r),
    {
        let stage = match &self.dialog_type {
            Some(DialogType::AiTaskManagement { stage, .. }) => *stage,
            _ => {
                return Action::Noop;
            },
        };
        match stage {
            AiAssistStage::ContextEntry => match key {
                Key::Esc => Action::HideDialog,
                Key::Enter => {
                    self.ai_original_context = self.input_buffer.clone();
                    self.handle_submit_on(today)
                },
                _ => self.ai_entry_key(key),
            },
            AiAssistStage::RevisionEntry => match key {
                Key::Esc => {
                    self.set_stage(AiAssistStage::ProposalReview);
                    self.ai_proposal_page = AiProposalPage::Actions;
                    self.input_buffer = String::new();
                    self.cursor_position = 0;
                    Action::Noop
                },
                Key::Enter => self.handle_submit_on(today),
                _ => self.ai_entry_key(key),
            },
            AiAssistStage::ProposalReview => match key {
                Key::Esc => Action::HideDialog,
                Key::Left => {
                    self.ai_proposal_page = AiProposalPage::Recommendation;
                    Action::Noop
                },
                Key::Right => {
                    self.ai_proposal_page = AiProposalPage::Actions;
                    Action::Noop
                },
                Key::Enter => {
                    if self.ai_proposal_page == AiProposalPage::Recommendation {
                        self.ai_proposal_page = AiProposalPage::Actions;
                        return Action::Noop;
                    }
                    let checked = match &self.dialog_type {
                        Some(DialogType::AiTaskManagement { proposal: Some(p), .. }) => Some(p.validate()),
                        _ => None,
                    };
                    match checked {
                        Some(Ok(())) => {
                            self.set_stage(AiAssistStage::ApplyConfirmation);
                            self.ai_error_message = None;
                        },
                        Some(Err(message)) => {
                            self.ai_error_message = Some(message);
                        },
                        None => {},
                    }
                    Action::Noop
                },
                _ => {
                    self.review_move(key);
                    Action::Noop
                },
            },
            AiAssistStage::ApplyConfirmation => match key {
                Key::Esc => {
                    self.set_stage(AiAssistStage::ProposalReview);
                    Action::Noop
                },
                Key::Enter => match &self.dialog_type {
                    Some(DialogType::AiTaskManagement { task, proposal: Some(p), .. }) => Action::AiApplyProposal {
                        task: Box::new(task.duplicate()),
                        proposal: p.duplicate(),
                    },
                    _ => Action::Noop,
                },
                _ => Action::Noop,
            },
            AiAssistStage::Result => match key {
                Key::Esc | Key::Enter => Action::HideDialog,
                _ => Action::Noop,
            },
            _ => Action::Noop,
        }
    }

    /// Handles a key, taking times of day on the given day.
    pub fn handle_key_events_on(&mut self, key: Key, today: i32) -> (r: Action)
        requires
            old(self).wf(),
        ensures
            final(self).wf(),
            dialog_key_handled(*old(self), *final(self), key, today, r),
    {
        let kind: u8 = match &self.dialog_type {
            None => 0,
            Some(DialogType::AiTaskManagement { .. }) => 1,
            Some(DialogType::TaskCreation { .. }) => 2,
            Some(DialogType::TaskDetails { .. }) => 3,
            Some(DialogType::Info(_)) | Some(DialogType::Error(_)) => 4,
            Some(DialogType::Help) => 5,
            Some(DialogType::Logs) => 6,
            Some(DialogType::DeleteConfirmation { .. }) | Some(DialogType::EmptyTrashConfirmation { .. }) => 7,
            Some(DialogType::TaskSearch) => 8,
            _ => 9,
        };
        if kind == 0 {
            Action::Noop
        } else if kind == 1 {
            self.ai_key(key, today)
        } else if kind == 2 {
            self.creation_key(key, today)
        } else if kind == 3 {
            let t = match &self.dialog_type {
                Some(DialogType::TaskDetails { task }) => task.duplicate(),
                _ => {
                    return Action::Noop;
                },
            };
            self.details_key(key, &t)
        } else if kind == 4 {
            self.scroll_or(key, Action::HideDialog)
        } else if kind == 5 {
            if key == Key::Esc || key == Key::Char('?') || key == Key::Char('h') {
                Action::HideDialog
            } else {
                self.scroll_or(key, Action::Noop)
            }
        } else if kind == 6 {
            if key == Key::Esc || key == Key::Char('G') || key == Key::Char('q') {
                Action::HideDialog
            } else {
                self.scroll_or(key, Action::Noop)
            }
        } else if kind == 7 {
            match key {
                Key::Esc => Action::HideDialog,
                Key::Enter => self.handle_submit_on(today),
                _ => Action::Noop,
            }
        } else if kind == 8 {
            self.search_key(key)
        } else {
            self.input_key(key, today)
        }
    }

    /// Handles a key; times of day are taken today.
    pub fn handle_key_events(&mut self, key: Key) -> (r: Action)
        requires
            old(self).wf(),
        ensures
            final(self).wf(),
            exists|today: i32| dialog_key_handled(*old(self), *final(self), key, today, r),
    {
        let today = crate::ext::local_today();
        self.handle_key_events_on(key, today)
    }
}

} // verus!
