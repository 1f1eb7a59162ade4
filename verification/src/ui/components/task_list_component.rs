//! The task list: which rows a view shows, which row is selected, which tasks are
//! marked, and what each key asks for.

use vstd::prelude::*;
use crate::entities::{label, project, section, task};
use crate::ext::{calendar_day, format_month_day, format_weekday, format_ymd, month_day_text, parse_calendar_day, weekday_text, ymd_text};
use crate::ui::components::agenda::{
    agenda_entries, agenda_entries_exec, agenda_label, agenda_time_label, parse_task_datetime, time_of_day_label, Entry,
    TIME_BOUND,
};
use crate::ui::app_core::actions::{toggle_entries, Action, DialogType, SidebarSelection, TaskDueDate};
use crate::sync::cache::lemma_filter_exact;

verus! {

/// A key as the task list reads it.
#[derive(Debug, Clone, Copy, PartialEq, Eq, Structural)]
pub enum Key {
    Char(char),
    Up,
    Down,
    Left,
    Right,
    Enter,
    Esc,
    Tab,
    Backspace,
    Delete,
    PageUp,
    PageDown,
    Home,
    End,
    Other,
}

/// A task row: the task, its depth in the shown tree, its number of direct
/// children among the listed tasks, whether it is marked, the title of its parent
/// when the parent is not shown above it, and its Agenda time (label, suggested).
#[derive(Debug, Clone)]
pub struct TaskItem {
    pub task: task::Model,
    pub depth: usize,
    pub child_count: usize,
    pub marked: bool,
    pub parent_context: Option<String>,
    pub agenda_time: Option<(String, bool)>,
}

/// A row of the task list.
#[derive(Debug, Clone)]
pub enum TaskListItemType {
    Header(String),
    Separator,
    Task(Box<TaskItem>),
}

/// Whether a row can be selected: only task rows can.
pub open spec fn selectable(item: TaskListItemType) -> bool {
    item is Task
}

/// The number of selectable rows among the first `n` rows.
pub open spec fn selectable_before(items: Seq<TaskListItemType>, n: int) -> nat
    decreases n,
{
    if n <= 0 || items.len() == 0 {
        0
    } else if n > items.len() {
        selectable_before(items, items.len() as int)
    } else {
        selectable_before(items, n - 1) + if selectable(items[n - 1]) { 1nat } else { 0nat }
    }
}

/// The number of selectable rows.
pub open spec fn selectable_count(items: Seq<TaskListItemType>) -> nat {
    selectable_before(items, items.len() as int)
}

/// The row index of the selectable row with logical index `k`, if there is one.
pub open spec fn logical_to_physical_spec(items: Seq<TaskListItemType>, k: int) -> Option<int> {
    if exists|i: int| 0 <= i < items.len() && selectable(items[i]) && #[trigger] selectable_before(items, i) == k {
        Some(choose|i: int| 0 <= i < items.len() && selectable(items[i]) && #[trigger] selectable_before(items, i) == k)
    } else {
        None
    }
}

/// The logical index of the row at physical index `p`, when that row is selectable.
pub open spec fn physical_to_logical_spec(items: Seq<TaskListItemType>, p: int) -> Option<int> {
    if 0 <= p < items.len() && selectable(items[p]) {
        Some(selectable_before(items, p) as int)
    } else {
        None
    }
}

proof fn lemma_selectable_before_monotone(items: Seq<TaskListItemType>, a: int, b: int)
    requires
        0 <= a <= b <= items.len(),
    ensures
        selectable_before(items, a) <= selectable_before(items, b),
        selectable_before(items, b) <= selectable_before(items, a) + (b - a),
    decreases b - a,
{
    if a < b {
        lemma_selectable_before_monotone(items, a, b - 1);
    }
}

/// Distinct selectable rows have distinct logical indices.
proof fn lemma_selectable_before_strict(items: Seq<TaskListItemType>, i: int, j: int)
    requires
        0 <= i < j < items.len(),
        selectable(items[i]),
    ensures
        selectable_before(items, i) < selectable_before(items, j),
{
    lemma_selectable_before_monotone(items, i + 1, j);
}

/// The selectable row with each logical index below the count exists.
proof fn lemma_logical_exists(items: Seq<TaskListItemType>, n: int, k: int)
    requires
        0 <= n <= items.len(),
        0 <= k < selectable_before(items, n),
    ensures
        exists|i: int| 0 <= i < n && selectable(items[i]) && #[trigger] selectable_before(items, i) == k,
    decreases n,
{
    if k < selectable_before(items, n - 1) {
        lemma_logical_exists(items, n - 1, k);
    } else {
        assert(selectable(items[n - 1]) && selectable_before(items, n - 1) == k);
    }
}

/// Whether a task counts toward the incomplete-task total of a view.
pub open spec fn counts_as_visible(item: TaskListItemType, in_trash: bool) -> bool {
    match item {
        TaskListItemType::Task(t) => in_trash || (!t.task.is_completed && !t.task.is_deleted),
        _ => false,
    }
}

/// The task of the selected row, when the selected row is a task row.
pub open spec fn selected_task(c: TaskListComponent) -> Option<task::Model> {
    match c.list_selected {
        Some(p) => if 0 <= p < c.items@.len() {
            match c.items@[p as int] {
                TaskListItemType::Task(item) => Some(item.task),
                _ => None,
            }
        } else {
            None
        },
        None => None,
    }
}

/// `after` is `before` with the selection moved one task row forward or back,
/// wrapping around.
pub open spec fn moved(before: TaskListComponent, after: TaskListComponent, forward: bool) -> bool {
    let n = selectable_count(before.items@);
    &&& after.items == before.items
    &&& after.marked_task_ids == before.marked_task_ids
    &&& after.tasks == before.tasks
    &&& after.all_tasks == before.all_tasks
    &&& after.sections == before.sections
    &&& after.sidebar_selection == before.sidebar_selection
    &&& after.selection_consistent()
    &&& (n > 0 ==> after.selected_index == if forward {
        (before.selected_index + 1) % (n as int)
    } else if before.selected_index == 0 {
        n - 1
    } else {
        before.selected_index - 1
    })
    &&& (n == 0 ==> after.selected_index == before.selected_index && after == before)
}

/// Whether no identifier occurs twice.
pub open spec fn distinct_ids(ids: Seq<u128>) -> bool {
    forall|i: int, j: int| 0 <= i < j < ids.len() ==> ids[i] != ids[j]
}

/// The task list's state.
pub struct TaskListComponent {
    pub items: Vec<TaskListItemType>,
    pub selected_index: usize,
    /// The selected row, as the list widget holds it.
    pub list_selected: Option<usize>,
    /// The first row the list widget shows (its scroll offset).
    pub list_offset: usize,
    pub sidebar_selection: SidebarSelection,
    pub sections: Vec<section::Model>,
    pub projects: Vec<project::Model>,
    pub labels: Vec<label::Model>,
    pub tasks: Vec<task::Model>,
    pub all_tasks: Vec<task::Model>,
    pub marked_task_ids: Vec<u128>,
    pub focused: bool,
    pub processing_message: Option<String>,
}

/// A task list as it is first made: empty, nothing selected or marked, focused, showing
/// Today.
pub open spec fn fresh_task_list(c: TaskListComponent) -> bool {
    &&& c.items@.len() == 0
    &&& c.selected_index == 0
    &&& c.list_selected is None
    &&& c.list_offset == 0
    &&& c.sidebar_selection == SidebarSelection::Today
    &&& c.sections@.len() == 0
    &&& c.projects@.len() == 0
    &&& c.labels@.len() == 0
    &&& c.tasks@.len() == 0
    &&& c.all_tasks@.len() == 0
    &&& c.marked_task_ids@.len() == 0
    &&& c.focused
    &&& c.processing_message is None
}

impl TaskListComponent {
    /// The selection agrees with the rows: the logical index is within the
    /// selectable rows (or zero when there are none) and the widget shows its row.
    pub open spec fn selection_consistent(&self) -> bool {
        let n = selectable_count(self.items@);
        &&& (n == 0 ==> self.selected_index == 0 && self.list_selected is None)
        &&& (n > 0 ==> self.selected_index < n)
        &&& (n > 0 ==> (self.list_selected matches Some(p)
            && logical_to_physical_spec(self.items@, self.selected_index as int) == Some(p as int)))
    }

    /// The component's invariant.
    pub open spec fn wf(&self) -> bool {
        &&& self.selection_consistent()
        &&& distinct_ids(self.marked_task_ids@)
    }

    /// An empty task list showing Today.
    pub fn new() -> (c: Self)
        ensures
            c.wf(),
            c.items@.len() == 0,
            c.tasks@.len() == 0,
            c.marked_task_ids@.len() == 0,
            c.sidebar_selection == SidebarSelection::Today,
            c.selected_index == 0,
            c.focused,
            fresh_task_list(c),
    {
        TaskListComponent {
            items: Vec::new(),
            selected_index: 0,
            list_selected: None,
            list_offset: 0,
            sidebar_selection: SidebarSelection::Today,
            sections: Vec::new(),
            projects: Vec::new(),
            labels: Vec::new(),
            tasks: Vec::new(),
            all_tasks: Vec::new(),
            marked_task_ids: Vec::new(),
            focused: true,
            processing_message: None,
        }
    }

    /// Replaces the tasks that parent titles are looked up in.
    pub fn update_all_tasks(&mut self, all_tasks: Vec<task::Model>)
        ensures
            *final(self) == (TaskListComponent { all_tasks, ..*old(self) }),
    {
        self.all_tasks = all_tasks;
    }

    /// Sets whether the list has keyboard focus.
    pub fn set_focused(&mut self, focused: bool)
        ensures
            *final(self) == (TaskListComponent { focused, ..*old(self) }),
    {
        self.focused = focused;
    }

    /// Sets the message shown while background work runs.
    pub fn set_processing(&mut self, message: Option<String>)
        ensures
            *final(self) == (TaskListComponent { processing_message: message, ..*old(self) }),
    {
        self.processing_message = message;
    }

    fn count_selectable(&self) -> (n: usize)
        ensures
            n == selectable_count(self.items@),
    {
        let mut n: usize = 0;
        let mut i: usize = 0;
        while i < self.items.len()
            invariant
                i <= self.items@.len(),
                n == selectable_before(self.items@, i as int),
                n <= i,
            decreases self.items@.len() - i,
        {
            if let TaskListItemType::Task(_) = &self.items[i] {
                n = n + 1;
            }
            i = i + 1;
        }
        n
    }

    /// The row of the selectable row with logical index `logical_index`.
    pub fn logical_to_physical_index(&self, logical_index: usize) -> (r: Option<usize>)
        ensures
            match r {
                Some(p) => logical_to_physical_spec(self.items@, logical_index as int) == Some(p as int),
                None => logical_to_physical_spec(self.items@, logical_index as int) is None,
            },
    {
        let mut count: usize = 0;
        let mut i: usize = 0;
        while i < self.items.len()
            invariant
                i <= self.items@.len(),
                count == selectable_before(self.items@, i as int),
                count <= logical_index,
                count <= i,
            decreases self.items@.len() - i,
        {
            if let TaskListItemType::Task(_) = &self.items[i] {
                if count == logical_index {
                    proof {
                        let items = self.items@;
                        assert(selectable(items[i as int]) && selectable_before(items, i as int) == logical_index);
                        let c = choose|c: int| 0 <= c < items.len() && selectable(items[c]) && #[trigger] selectable_before(items, c) == logical_index;
                        if c < i {
                            lemma_selectable_before_strict(items, c, i as int);
                        } else if c > i {
                            lemma_selectable_before_strict(items, i as int, c);
                        }
                    }
                    return Some(i);
                }
                count = count + 1;
            }
            i = i + 1;
        }
        proof {
            let items = self.items@;
            if exists|c: int| 0 <= c < items.len() && selectable(items[c]) && #[trigger] selectable_before(items, c) == logical_index {
                let c = choose|c: int| 0 <= c < items.len() && selectable(items[c]) && #[trigger] selectable_before(items, c) == logical_index;
                lemma_selectable_before_monotone(items, c + 1, items.len() as int);
            }
        }
        None
    }

    /// The logical index of the row at `physical_index`, when that row is a task.
    pub fn physical_to_logical_index(&self, physical_index: usize) -> (r: Option<usize>)
        ensures
            match r {
                Some(k) => physical_to_logical_spec(self.items@, physical_index as int) == Some(k as int),
                None => physical_to_logical_spec(self.items@, physical_index as int) is None,
            },
    {
        if physical_index >= self.items.len() {
            return None;
        }
        match &self.items[physical_index] {
            TaskListItemType::Task(_) => {},
            _ => {
                return None;
            },
        }
        let mut count: usize = 0;
        let mut i: usize = 0;
        while i < physical_index
            invariant
                physical_index < self.items@.len(),
                i <= physical_index,
                count == selectable_before(self.items@, i as int),
                count <= i,
            decreases physical_index - i,
        {
            if let TaskListItemType::Task(_) = &self.items[i] {
                count = count + 1;
            }
            i = i + 1;
        }
        Some(count)
    }

    /// Clamps the selection to the selectable rows and points the widget at it.
    fn update_list_state(&mut self)
        ensures
            final(self).selection_consistent(),
            final(self).items == old(self).items,
            final(self).marked_task_ids == old(self).marked_task_ids,
            final(self).tasks == old(self).tasks,
            final(self).sidebar_selection == old(self).sidebar_selection,
            final(self).all_tasks == old(self).all_tasks,
            final(self).sections == old(self).sections,
            final(self).projects == old(self).projects,
            final(self).labels == old(self).labels,
            final(self).focused == old(self).focused,
            final(self).processing_message == old(self).processing_message,
            final(self).list_offset == old(self).list_offset,
            selectable_count(old(self).items@) > 0 ==> final(self).selected_index == if old(self).selected_index
                < selectable_count(old(self).items@) {
                old(self).selected_index as int
            } else {
                selectable_count(old(self).items@) - 1
            },
    {
        let n = self.count_selectable();
        if n == 0 {
            self.selected_index = 0;
            self.list_selected = None;
        } else {
            if self.selected_index >= n {
                self.selected_index = n - 1;
            }
            proof {
                lemma_logical_exists(self.items@, self.items@.len() as int, self.selected_index as int);
            }
            self.list_selected = self.logical_to_physical_index(self.selected_index);
        }
    }

    /// The task of the selected row.
    pub fn get_selected_task(&self) -> (r: Option<&task::Model>)
        requires
            self.wf(),
        ensures
            match r {
                Some(t) => {
                    &&& self.list_selected matches Some(p)
                    &&& self.items@[p as int] matches TaskListItemType::Task(item)
                    &&& item.task == *t
                },
                None => selectable_count(self.items@) == 0,
            },
            match r {
                Some(t) => selected_task(*self) == Some(*t),
                None => selected_task(*self) is None,
            },
    {
        match self.list_selected {
            None => None,
            Some(p) => {
                proof {
                    let items = self.items@;
                    let c = choose|c: int| 0 <= c < items.len() && selectable(items[c]) && #[trigger] selectable_before(items, c) == self.selected_index;
                    assert(p as int == c);
                }
                match &self.items[p] {
                    TaskListItemType::Task(item) => Some(&item.task),
                    _ => None,
                }
            },
        }
    }

    /// The number of marked tasks.
    pub fn marked_task_count(&self) -> (n: usize)
        ensures
            n == self.marked_task_ids@.len(),
    {
        self.marked_task_ids.len()
    }

    /// The number of incomplete, undeleted task rows; in the Trash, every task row.
    pub fn visible_incomplete_task_count(&self) -> (n: usize)
        ensures
            n == self.items@.filter(|item: TaskListItemType| counts_as_visible(item, self.sidebar_selection == SidebarSelection::Trash)).len(),
    {
        let in_trash = self.sidebar_selection == SidebarSelection::Trash;
        let ghost pred = |item: TaskListItemType| counts_as_visible(item, in_trash);
        let mut n: usize = 0;
        let mut i: usize = 0;
        while i < self.items.len()
            invariant
                i <= self.items@.len(),
                n == self.items@.take(i as int).filter(pred).len(),
                n <= i,
                pred == (|item: TaskListItemType| counts_as_visible(item, in_trash)),
            decreases self.items@.len() - i,
        {
            proof {
                assert(self.items@.take(i + 1) =~= self.items@.take(i as int).push(self.items@[i as int]));
                self.items@.take(i as int).lemma_filter_push(self.items@[i as int], pred);
            }
            let counts = match &self.items[i] {
                TaskListItemType::Task(item) => in_trash || (!item.task.is_completed && !item.task.is_deleted),
                _ => false,
            };
            if counts {
                n = n + 1;
            }
            i = i + 1;
        }
        proof {
            assert(self.items@.take(i as int) =~= self.items@);
        }
        n
    }

    /// Moves the selection to the next task row, wrapping to the first.
    pub fn next_task(&mut self)
        requires
            old(self).wf(),
        ensures
            final(self).wf(),
            moved(*old(self), *final(self), true),
            final(self).items == old(self).items,
            final(self).marked_task_ids == old(self).marked_task_ids,
            selectable_count(old(self).items@) > 0 ==> final(self).selected_index as int == (old(self).selected_index + 1)
                % (selectable_count(old(self).items@) as int),
            selectable_count(old(self).items@) == 0 ==> final(self).selected_index == old(self).selected_index,
    {
        let n = self.count_selectable();
        if n > 0 {
            self.selected_index = (self.selected_index + 1) % n;
            self.update_list_state();
        }
    }

    /// Moves the selection to the previous task row, wrapping to the last.
    pub fn previous_task(&mut self)
        requires
            old(self).wf(),
        ensures
            final(self).wf(),
            moved(*old(self), *final(self), false),
            final(self).items == old(self).items,
            final(self).marked_task_ids == old(self).marked_task_ids,
            selectable_count(old(self).items@) > 0 ==> final(self).selected_index == if old(self).selected_index == 0 {
                (selectable_count(old(self).items@) - 1) as int
            } else {
                old(self).selected_index - 1
            },
            selectable_count(old(self).items@) == 0 ==> final(self).selected_index == old(self).selected_index,
    {
        let n = self.count_selectable();
        if n > 0 {
            self.selected_index = if self.selected_index == 0 { n - 1 } else { self.selected_index - 1 };
            self.update_list_state();
        }
    }
}


/// What a row shows, with texts as character sequences.
pub enum ItemView {
    Header(Seq<char>),
    Separator,
    Task {
        task: task::Model,
        depth: nat,
        child_count: nat,
        marked: bool,
        parent_context: Option<Seq<char>>,
        agenda_time: Option<(Seq<char>, bool)>,
    },
}

pub open spec fn opt_text(s: Option<String>) -> Option<Seq<char>> {
    match s {
        Some(v) => Some(v@),
        None => None,
    }
}

pub open spec fn item_view(item: TaskListItemType) -> ItemView {
    match item {
        TaskListItemType::Header(title) => ItemView::Header(title@),
        TaskListItemType::Separator => ItemView::Separator,
        TaskListItemType::Task(t) => ItemView::Task {
            task: t.task,
            depth: t.depth as nat,
            child_count: t.child_count as nat,
            marked: t.marked,
            parent_context: opt_text(t.parent_context),
            agenda_time: match t.agenda_time {
                Some((label, suggested)) => Some((label@, suggested)),
                None => None,
            },
        },
    }
}

pub open spec fn items_view(items: Seq<TaskListItemType>) -> Seq<ItemView> {
    items.map_values(|i: TaskListItemType| item_view(i))
}

/// The header texts of the date groups.
pub open spec fn header_overdue() -> Seq<char> { "Overdue"@ }
pub open spec fn header_today() -> Seq<char> { "Today"@ }
pub open spec fn header_tomorrow() -> Seq<char> { "Tomorrow"@ }

/// The calendar day that a task is due, when its due date reads as a date.
pub open spec fn due_day(t: task::Model) -> Option<int> {
    match t.due_date {
        Some(s) => calendar_day(s@),
        None => None,
    }
}

/// Whether some task has this identifier.
pub open spec fn has_task(tasks: Seq<task::Model>, id: u128) -> bool {
    exists|k: int| 0 <= k < tasks.len() && #[trigger] tasks[k].uuid == id
}

/// Whether a task starts a visible tree: it has no parent among the listed tasks.
pub open spec fn is_root(tasks: Seq<task::Model>, t: task::Model) -> bool {
    match t.parent_uuid {
        Some(p) => !has_task(tasks, p),
        None => true,
    }
}

/// The tasks that start visible trees, in list order; subtasks whose parent is
/// filtered out stay visible this way.
pub open spec fn roots_of(tasks: Seq<task::Model>) -> Seq<task::Model> {
    tasks.filter(|t: task::Model| is_root(tasks, t))
}

/// Selections of tasks used to build the views.
#[derive(Clone, Copy)]
pub enum TaskFilter {
    /// Incomplete and due before the day.
    Overdue(i32),
    /// Completed, or due on the day (the Today group).
    TodayGroup(i32),
    /// Due on the day.
    DueOn(i32),
    /// Due before the day, completed or not (the Upcoming overdue group).
    DueBefore(i32),
    /// In the project.
    InProject(u128),
    /// Without a section.
    NoSection,
    /// In the section.
    InSection(u128),
    /// A direct child of the task.
    ChildOf(u128),
}

/// Whether a filter keeps a task.
pub open spec fn keeps(f: TaskFilter, t: task::Model) -> bool {
    match f {
        TaskFilter::Overdue(day) => !t.is_completed && (due_day(t) matches Some(d) && d < day),
        TaskFilter::TodayGroup(day) => t.is_completed || (due_day(t) matches Some(d) && d == day),
        TaskFilter::DueOn(day) => due_day(t) matches Some(d) && d == day,
        TaskFilter::DueBefore(day) => due_day(t) matches Some(d) && d < day,
        TaskFilter::InProject(p) => t.project_uuid == p,
        TaskFilter::NoSection => t.section_uuid is None,
        TaskFilter::InSection(sid) => t.section_uuid == Some(sid),
        TaskFilter::ChildOf(p) => t.parent_uuid == Some(p),
    }
}

pub open spec fn filtered(tasks: Seq<task::Model>, f: TaskFilter) -> Seq<task::Model> {
    tasks.filter(|t: task::Model| keeps(f, t))
}

/// The title of the first task with the parent's identifier.
pub open spec fn first_title(all: Seq<task::Model>, id: u128) -> Option<Seq<char>>
    decreases all.len(),
{
    if all.len() == 0 {
        None
    } else if all[0].uuid == id {
        Some(all[0].content@)
    } else {
        first_title(all.drop_first(), id)
    }
}

/// The row of a task at a depth: top-level rows name their parent when one is listed
/// in all tasks.
pub open spec fn task_row(tasks: Seq<task::Model>, all: Seq<task::Model>, marked: Seq<u128>, t: task::Model, depth: nat) -> ItemView {
    ItemView::Task {
        task: t,
        depth,
        child_count: filtered(tasks, TaskFilter::ChildOf(t.uuid)).len(),
        marked: marked.contains(t.uuid),
        parent_context: if depth == 0 {
            match t.parent_uuid {
                Some(p) => first_title(all, p),
                None => None,
            }
        } else {
            None
        },
        agenda_time: None,
    }
}

/// A task followed by its descendants, depth first, children in list order.  `fuel`
/// bounds the depth; it is never reached when parent links form no cycle.
pub open spec fn subtree(
    tasks: Seq<task::Model>,
    all: Seq<task::Model>,
    marked: Seq<u128>,
    t: task::Model,
    depth: nat,
    fuel: nat,
) -> Seq<ItemView>
    decreases fuel, 0nat,
{
    if fuel == 0 {
        Seq::empty()
    } else {
        seq![task_row(tasks, all, marked, t, depth)] + forest(
            tasks,
            all,
            marked,
            filtered(tasks, TaskFilter::ChildOf(t.uuid)),
            depth + 1,
            (fuel - 1) as nat,
        )
    }
}

/// The trees of several tasks, one after the other.
pub open spec fn forest(
    tasks: Seq<task::Model>,
    all: Seq<task::Model>,
    marked: Seq<u128>,
    list: Seq<task::Model>,
    depth: nat,
    fuel: nat,
) -> Seq<ItemView>
    decreases fuel, list.len() + 1,
{
    if list.len() == 0 {
        Seq::empty()
    } else {
        forest(tasks, all, marked, list.drop_last(), depth, fuel) + subtree(tasks, all, marked, list.last(), depth, fuel)
    }
}

/// The depth bound used when listing trees.
pub open spec fn tree_fuel(tasks: Seq<task::Model>) -> nat {
    tasks.len()
}

/// Rows of a Today view: an Overdue group and a Today group, each shown only when
/// it has tasks, with a separator between them.
pub open spec fn today_rows(tasks: Seq<task::Model>, all: Seq<task::Model>, marked: Seq<u128>, today: int) -> Seq<ItemView> {
    let roots = roots_of(tasks);
    let overdue = filtered(roots, TaskFilter::Overdue(today as i32));
    let due_today = filtered(roots, TaskFilter::TodayGroup(today as i32));
    let fuel = tree_fuel(tasks);
    (if overdue.len() > 0 {
        seq![ItemView::Header(header_overdue())] + forest(tasks, all, marked, overdue, 0, fuel)
            + if due_today.len() > 0 { seq![ItemView::Separator] } else { Seq::empty() }
    } else {
        Seq::empty()
    }) + (if due_today.len() > 0 {
        seq![ItemView::Header(header_today())] + forest(tasks, all, marked, due_today, 0, fuel)
    } else {
        Seq::empty()
    })
}


/// The trees of a list of tasks hold a top row for each of them.
pub proof fn lemma_forest_rows(
    tasks: Seq<task::Model>,
    all: Seq<task::Model>,
    marked: Seq<u128>,
    list: Seq<task::Model>,
    depth: nat,
    fuel: nat,
    k: int,
)
    requires
        fuel > 0,
        0 <= k < list.len(),
    ensures
        forest(tasks, all, marked, list, depth, fuel).contains(task_row(tasks, all, marked, list[k], depth)),
    decreases list.len(),
{
    let d = list.drop_last();
    let before = forest(tasks, all, marked, d, depth, fuel);
    let tree = subtree(tasks, all, marked, list.last(), depth, fuel);
    assert(forest(tasks, all, marked, list, depth, fuel) == before + tree);
    if k < d.len() {
        assert(d[k] == list[k]);
        lemma_forest_rows(tasks, all, marked, d, depth, fuel, k);
        let q = choose|q: int| 0 <= q < before.len() && before[q] == task_row(tasks, all, marked, list[k], depth);
        assert((before + tree)[q] == before[q]);
    } else {
        assert(list[k] == list.last());
        assert(tree[0] == task_row(tasks, all, marked, list.last(), depth));
        assert((before + tree)[before.len() as int] == tree[0]);
    }
}

/// The Overdue group of the Today view holds exactly the open tasks that start a
/// visible tree and are due strictly before today; every such task is shown in the
/// Today view, under the Overdue header.
pub proof fn lemma_overdue_group(tasks: Seq<task::Model>, all: Seq<task::Model>, marked: Seq<u128>, today: i32)
    ensures
        forall|i: int| 0 <= i < filtered(roots_of(tasks), TaskFilter::Overdue(today)).len() ==> {
            let t = #[trigger] filtered(roots_of(tasks), TaskFilter::Overdue(today))[i];
            &&& !t.is_completed
            &&& due_day(t) matches Some(d) && d < today
            &&& is_root(tasks, t)
            &&& tasks.contains(t)
        },
        forall|i: int| 0 <= i < tasks.len() && is_root(tasks, #[trigger] tasks[i]) && !tasks[i].is_completed
            && (due_day(tasks[i]) matches Some(d) && d < today)
            ==> filtered(roots_of(tasks), TaskFilter::Overdue(today)).contains(tasks[i])
                && today_rows(tasks, all, marked, today as int).contains(task_row(tasks, all, marked, tasks[i], 0))
                && today_rows(tasks, all, marked, today as int)[0] == ItemView::Header(header_overdue()),
{
    let rf = |t: task::Model| is_root(tasks, t);
    let roots = roots_of(tasks);
    let of = |t: task::Model| keeps(TaskFilter::Overdue(today), t);
    let g = filtered(roots, TaskFilter::Overdue(today));
    lemma_filter_exact(tasks, rf);
    lemma_filter_exact(roots, of);
    assert forall|i: int| 0 <= i < g.len() implies {
        let t = #[trigger] g[i];
        &&& !t.is_completed
        &&& due_day(t) matches Some(d) && d < today
        &&& is_root(tasks, t)
        &&& tasks.contains(t)
    } by {
        assert(of(g[i]) && roots.contains(g[i]));
        let q = choose|q: int| 0 <= q < roots.len() && roots[q] == g[i];
        assert(rf(roots[q]) && tasks.contains(roots[q]));
    }
    assert forall|i: int| 0 <= i < tasks.len() && is_root(tasks, #[trigger] tasks[i]) && !tasks[i].is_completed
        && (due_day(tasks[i]) matches Some(d) && d < today)
        implies g.contains(tasks[i])
            && today_rows(tasks, all, marked, today as int).contains(task_row(tasks, all, marked, tasks[i], 0))
            && today_rows(tasks, all, marked, today as int)[0] == ItemView::Header(header_overdue()) by {
        assert(rf(tasks[i]));
        assert(roots.contains(tasks[i]));
        let q = choose|q: int| 0 <= q < roots.len() && roots[q] == tasks[i];
        assert(of(roots[q]));
        assert(g.contains(tasks[i]));
        let k = choose|k: int| 0 <= k < g.len() && g[k] == tasks[i];
        let fuel = tree_fuel(tasks);
        lemma_forest_rows(tasks, all, marked, g, 0, fuel, k);
        let fo = forest(tasks, all, marked, g, 0, fuel);
        let due_today = filtered(roots, TaskFilter::TodayGroup(today));
        let head = seq![ItemView::Header(header_overdue())] + fo
            + if due_today.len() > 0 { seq![ItemView::Separator] } else { Seq::empty() };
        let tail = if due_today.len() > 0 {
            seq![ItemView::Header(header_today())] + forest(tasks, all, marked, due_today, 0, fuel)
        } else {
            Seq::empty()
        };
        assert(today_rows(tasks, all, marked, today as int) == head + tail);
        let p = choose|p: int| 0 <= p < fo.len() && fo[p] == task_row(tasks, all, marked, tasks[i], 0);
        assert((head + tail)[p + 1] == fo[p]);
        assert((head + tail)[0] == ItemView::Header(header_overdue()));
    }
}


/// A filtered group of visible tree starts holds exactly the tree starts it keeps.
proof fn lemma_group_members(tasks: Seq<task::Model>, f: TaskFilter)
    ensures
        forall|i: int| 0 <= i < filtered(roots_of(tasks), f).len() ==>
            keeps(f, #[trigger] filtered(roots_of(tasks), f)[i]) && is_root(tasks, filtered(roots_of(tasks), f)[i])
            && tasks.contains(filtered(roots_of(tasks), f)[i]),
        forall|i: int| 0 <= i < tasks.len() && is_root(tasks, #[trigger] tasks[i]) && keeps(f, tasks[i])
            ==> filtered(roots_of(tasks), f).contains(tasks[i]),
{
    let rf = |t: task::Model| is_root(tasks, t);
    let roots = roots_of(tasks);
    let kf = |t: task::Model| keeps(f, t);
    let g = filtered(roots, f);
    lemma_filter_exact(tasks, rf);
    lemma_filter_exact(roots, kf);
    assert forall|i: int| 0 <= i < g.len() implies keeps(f, #[trigger] g[i]) && is_root(tasks, g[i]) && tasks.contains(g[i]) by {
        assert(kf(g[i]) && roots.contains(g[i]));
        let q = choose|q: int| 0 <= q < roots.len() && roots[q] == g[i];
        assert(rf(roots[q]) && tasks.contains(roots[q]));
    }
    assert forall|i: int| 0 <= i < tasks.len() && is_root(tasks, #[trigger] tasks[i]) && keeps(f, tasks[i]) implies g.contains(tasks[i]) by {
        assert(rf(tasks[i]));
        assert(roots.contains(tasks[i]));
        let q = choose|q: int| 0 <= q < roots.len() && roots[q] == tasks[i];
        assert(kf(roots[q]));
    }
}

/// The Today group of the Today view holds exactly the tree starts that are completed or
/// due today, and the Tomorrow view lists exactly the tree starts due tomorrow; every
/// such task is shown in its view.
pub proof fn lemma_today_and_tomorrow_groups(tasks: Seq<task::Model>, all: Seq<task::Model>, marked: Seq<u128>, today: i32)
    requires
        -0x4000_0000 < today < 0x4000_0000,
    ensures
        forall|i: int| 0 <= i < filtered(roots_of(tasks), TaskFilter::TodayGroup(today)).len() ==> {
            let t = #[trigger] filtered(roots_of(tasks), TaskFilter::TodayGroup(today))[i];
            &&& t.is_completed || (due_day(t) matches Some(d) && d == today)
            &&& is_root(tasks, t) && tasks.contains(t)
        },
        forall|i: int| 0 <= i < filtered(roots_of(tasks), TaskFilter::DueOn((today + 1) as i32)).len() ==> {
            let t = #[trigger] filtered(roots_of(tasks), TaskFilter::DueOn((today + 1) as i32))[i];
            &&& due_day(t) matches Some(d) && d == today + 1
            &&& is_root(tasks, t) && tasks.contains(t)
        },
        forall|i: int| 0 <= i < tasks.len() && is_root(tasks, #[trigger] tasks[i])
            && (tasks[i].is_completed || (due_day(tasks[i]) matches Some(d) && d == today))
            ==> today_rows(tasks, all, marked, today as int).contains(task_row(tasks, all, marked, tasks[i], 0)),
        forall|i: int| 0 <= i < tasks.len() && is_root(tasks, #[trigger] tasks[i])
            && (due_day(tasks[i]) matches Some(d) && d == today + 1)
            ==> tomorrow_rows(tasks, all, marked, today as int).contains(task_row(tasks, all, marked, tasks[i], 0)),
{
    lemma_group_members(tasks, TaskFilter::TodayGroup(today));
    lemma_group_members(tasks, TaskFilter::DueOn((today + 1) as i32));
    let roots = roots_of(tasks);
    let fuel = tree_fuel(tasks);
    assert forall|i: int| 0 <= i < tasks.len() && is_root(tasks, #[trigger] tasks[i])
        && (tasks[i].is_completed || (due_day(tasks[i]) matches Some(d) && d == today))
        implies today_rows(tasks, all, marked, today as int).contains(task_row(tasks, all, marked, tasks[i], 0)) by {
        let g = filtered(roots, TaskFilter::TodayGroup(today));
        assert(keeps(TaskFilter::TodayGroup(today), tasks[i]));
        assert(g.contains(tasks[i]));
        let k = choose|k: int| 0 <= k < g.len() && g[k] == tasks[i];
        lemma_forest_rows(tasks, all, marked, g, 0, fuel, k);
        let fo = forest(tasks, all, marked, g, 0, fuel);
        let overdue = filtered(roots, TaskFilter::Overdue(today));
        let head = if overdue.len() > 0 {
            seq![ItemView::Header(header_overdue())] + forest(tasks, all, marked, overdue, 0, fuel)
                + if g.len() > 0 { seq![ItemView::Separator] } else { Seq::empty() }
        } else {
            Seq::empty()
        };
        let tail = seq![ItemView::Header(header_today())] + fo;
        assert(today_rows(tasks, all, marked, today as int) == head + tail);
        let p = choose|p: int| 0 <= p < fo.len() && fo[p] == task_row(tasks, all, marked, tasks[i], 0);
        assert((head + tail)[head.len() + 1 + p] == fo[p]);
    }
    assert forall|i: int| 0 <= i < tasks.len() && is_root(tasks, #[trigger] tasks[i])
        && (due_day(tasks[i]) matches Some(d) && d == today + 1)
        implies tomorrow_rows(tasks, all, marked, today as int).contains(task_row(tasks, all, marked, tasks[i], 0)) by {
        let g = filtered(roots, TaskFilter::DueOn((today + 1) as i32));
        assert(keeps(TaskFilter::DueOn((today + 1) as i32), tasks[i]));
        assert(g.contains(tasks[i]));
        let k = choose|k: int| 0 <= k < g.len() && g[k] == tasks[i];
        lemma_forest_rows(tasks, all, marked, g, 0, fuel, k);
        let fo = forest(tasks, all, marked, g, 0, fuel);
        assert(tomorrow_rows(tasks, all, marked, today as int) == seq![ItemView::Header(header_tomorrow())] + fo);
        let p = choose|p: int| 0 <= p < fo.len() && fo[p] == task_row(tasks, all, marked, tasks[i], 0);
        assert((seq![ItemView::Header(header_tomorrow())] + fo)[p + 1] == fo[p]);
    }
}

/// Rows of a Tomorrow view: the header, then the trees due tomorrow.
pub open spec fn tomorrow_rows(tasks: Seq<task::Model>, all: Seq<task::Model>, marked: Seq<u128>, today: int) -> Seq<ItemView> {
    seq![ItemView::Header(header_tomorrow())] + forest(
        tasks,
        all,
        marked,
        filtered(roots_of(tasks), TaskFilter::DueOn((today + 1) as i32)),
        0,
        tree_fuel(tasks),
    )
}

/// Inserts a day into an increasing list of days, keeping it increasing and free of
/// repeats.
pub open spec fn insert_day(days: Seq<int>, d: int) -> Seq<int>
    decreases days.len(),
{
    if days.len() == 0 {
        seq![d]
    } else if d < days[0] {
        seq![d] + days
    } else if d == days[0] {
        days
    } else {
        seq![days[0]] + insert_day(days.drop_first(), d)
    }
}

/// The due days, from `today` on, of the tasks: increasing and without repeats.
pub open spec fn upcoming_days(roots: Seq<task::Model>, today: int) -> Seq<int>
    decreases roots.len(),
{
    if roots.len() == 0 {
        Seq::empty()
    } else {
        let days = upcoming_days(roots.drop_last(), today);
        match due_day(roots.last()) {
            Some(d) => if d >= today { insert_day(days, d) } else { days },
            None => days,
        }
    }
}

/// The header of a later day: a chart mark, the weekday name, a dash, and the month with
/// the day; empty for a day outside chrono's calendar.
pub open spec fn day_header_text(day: int) -> Seq<char> {
    match (weekday_text(day), month_day_text(day)) {
        (Some(w), Some(md)) => "\u{1F4CA} "@ + w + " - "@ + md,
        _ => Seq::empty(),
    }
}

/// Puts together the header of a later day.
pub fn format_day_header(day: i32) -> (s: String)
    ensures
        s@ == day_header_text(day as int),
{
    match (format_weekday(day), format_month_day(day)) {
        (Some(w), Some(md)) => {
            let mut s = String::from_str("\u{1F4CA} ");
            s.append(w.as_str());
            s.append(" - ");
            s.append(md.as_str());
            s
        },
        _ => String::new(),
    }
}

/// The header of an Upcoming date group.
pub open spec fn upcoming_header(day: int, today: int) -> Seq<char> {
    if day == today {
        header_today()
    } else if day == today + 1 {
        header_tomorrow()
    } else {
        day_header_text(day)
    }
}

/// Rows of the date groups of an Upcoming view, from the `i`-th day on, after `before`
/// rows.
pub open spec fn upcoming_groups(
    tasks: Seq<task::Model>,
    all: Seq<task::Model>,
    marked: Seq<u128>,
    roots: Seq<task::Model>,
    days: Seq<int>,
    today: int,
    n: int,
    before: Seq<ItemView>,
) -> Seq<ItemView>
    decreases n,
{
    if n <= 0 {
        before
    } else {
        let prior = upcoming_groups(tasks, all, marked, roots, days, today, n - 1, before);
        let day = days[n - 1];
        prior + (if prior.len() > 0 { seq![ItemView::Separator] } else { Seq::empty() })
            + seq![ItemView::Header(upcoming_header(day, today))]
            + forest(tasks, all, marked, filtered(roots, TaskFilter::DueOn(day as i32)), 0, tree_fuel(tasks))
    }
}

/// Rows of an Upcoming view: the overdue trees, then one group per due day from today
/// on, in day order.
pub open spec fn upcoming_rows(tasks: Seq<task::Model>, all: Seq<task::Model>, marked: Seq<u128>, today: int) -> Seq<ItemView> {
    let roots = roots_of(tasks);
    let overdue = filtered(roots, TaskFilter::DueBefore(today as i32));
    let head = if overdue.len() > 0 {
        seq![ItemView::Header(header_overdue())] + forest(tasks, all, marked, overdue, 0, tree_fuel(tasks))
    } else {
        Seq::empty()
    };
    let days = upcoming_days(roots, today);
    upcoming_groups(tasks, all, marked, roots, days, today, days.len() as int, head)
}

/// Rows of the section groups of a project view, for the first `n` sections.
pub open spec fn section_groups(
    tasks: Seq<task::Model>,
    all: Seq<task::Model>,
    marked: Seq<u128>,
    in_project: Seq<task::Model>,
    sections: Seq<section::Model>,
    n: int,
    before: Seq<ItemView>,
) -> Seq<ItemView>
    decreases n,
{
    if n <= 0 {
        before
    } else {
        let prior = section_groups(tasks, all, marked, in_project, sections, n - 1, before);
        let group = filtered(in_project, TaskFilter::InSection(sections[n - 1].uuid));
        if group.len() > 0 {
            prior + (if prior.len() > 0 { seq![ItemView::Separator] } else { Seq::empty() })
                + seq![ItemView::Header(sections[n - 1].name@)]
                + forest(tasks, all, marked, group, 0, tree_fuel(tasks))
        } else {
            prior
        }
    }
}

/// The sections of a project, in list order.
pub open spec fn project_sections(sections: Seq<section::Model>, project_uuid: u128) -> Seq<section::Model> {
    sections.filter(|s: section::Model| s.project_uuid == project_uuid)
}

/// Rows of a project view: its unsectioned trees, then one group per section that
/// has trees, in section order.
pub open spec fn project_rows(
    tasks: Seq<task::Model>,
    all: Seq<task::Model>,
    marked: Seq<u128>,
    sections: Seq<section::Model>,
    project_uuid: u128,
) -> Seq<ItemView> {
    let in_project = filtered(roots_of(tasks), TaskFilter::InProject(project_uuid));
    let unsectioned = forest(tasks, all, marked, filtered(in_project, TaskFilter::NoSection), 0, tree_fuel(tasks));
    let secs = project_sections(sections, project_uuid);
    section_groups(tasks, all, marked, in_project, secs, secs.len() as int, unsectioned)
}

/// Rows of a label view or the Trash: every visible tree in list order.
pub open spec fn plain_rows(tasks: Seq<task::Model>, all: Seq<task::Model>, marked: Seq<u128>) -> Seq<ItemView> {
    forest(tasks, all, marked, roots_of(tasks), 0, tree_fuel(tasks))
}

pub(crate) fn task_due_day(t: &task::Model) -> (d: Option<i32>)
    ensures
        match d {
            Some(v) => due_day(*t) == Some(v as int) && -0x4000_0000 < v < 0x4000_0000,
            None => due_day(*t) is None,
        },
{
    match &t.due_date {
        Some(s) => parse_calendar_day(s.as_str()),
        None => None,
    }
}

fn filter_keeps(f: TaskFilter, t: &task::Model) -> (b: bool)
    ensures
        b == keeps(f, *t),
{
    match f {
        TaskFilter::Overdue(day) => !t.is_completed && match task_due_day(t) {
            Some(d) => d < day,
            None => false,
        },
        TaskFilter::TodayGroup(day) => t.is_completed || match task_due_day(t) {
            Some(d) => d == day,
            None => false,
        },
        TaskFilter::DueOn(day) => match task_due_day(t) {
            Some(d) => d == day,
            None => false,
        },
        TaskFilter::DueBefore(day) => match task_due_day(t) {
            Some(d) => d < day,
            None => false,
        },
        TaskFilter::InProject(p) => t.project_uuid == p,
        TaskFilter::NoSection => t.section_uuid.is_none(),
        TaskFilter::InSection(sid) => match t.section_uuid {
            Some(x) => x == sid,
            None => false,
        },
        TaskFilter::ChildOf(p) => match t.parent_uuid {
            Some(x) => x == p,
            None => false,
        },
    }
}

/// The tasks that a filter keeps, in order.
pub fn filter_tasks(list: &Vec<task::Model>, f: TaskFilter) -> (r: Vec<task::Model>)
    ensures
        r@ == filtered(list@, f),
{
    let mut out: Vec<task::Model> = Vec::new();
    let mut i: usize = 0;
    while i < list.len()
        invariant
            i <= list@.len(),
            out@ == filtered(list@.take(i as int), f),
        decreases list@.len() - i,
    {
        proof {
            assert(list@.take(i + 1) =~= list@.take(i as int).push(list@[i as int]));
            list@.take(i as int).lemma_filter_push(list@[i as int], |t: task::Model| keeps(f, t));
        }
        if filter_keeps(f, &list[i]) {
            out.push(list[i].duplicate());
        }
        i = i + 1;
    }
    proof {
        assert(list@.take(i as int) =~= list@);
    }
    out
}

fn contains_task(tasks: &Vec<task::Model>, id: u128) -> (b: bool)
    ensures
        b == has_task(tasks@, id),
{
    let mut i: usize = 0;
    while i < tasks.len()
        invariant
            i <= tasks@.len(),
            forall|k: int| 0 <= k < i ==> #[trigger] tasks@[k].uuid != id,
        decreases tasks@.len() - i,
    {
        if tasks[i].uuid == id {
            return true;
        }
        i = i + 1;
    }
    false
}

fn contains_id(ids: &Vec<u128>, id: u128) -> (b: bool)
    ensures
        b == ids@.contains(id),
{
    let mut i: usize = 0;
    while i < ids.len()
        invariant
            i <= ids@.len(),
            forall|k: int| 0 <= k < i ==> ids@[k] != id,
        decreases ids@.len() - i,
    {
        if ids[i] == id {
            return true;
        }
        i = i + 1;
    }
    false
}

fn find_title(all: &Vec<task::Model>, id: u128) -> (r: Option<String>)
    ensures
        opt_text(r) == first_title(all@, id),
{
    let mut i: usize = 0;
    proof {
        assert(all@.skip(0) =~= all@);
    }
    while i < all.len()
        invariant
            i <= all@.len(),
            first_title(all@, id) == first_title(all@.skip(i as int), id),
        decreases all@.len() - i,
    {
        proof {
            assert(all@.skip(i as int).drop_first() =~= all@.skip(i + 1));
        }
        if all[i].uuid == id {
            return Some(all[i].content.clone());
        }
        i = i + 1;
    }
    None
}

impl TaskListComponent {
    /// The tasks that start visible trees.
    pub fn visible_roots(&self) -> (r: Vec<task::Model>)
        ensures
            r@ == roots_of(self.tasks@),
    {
        let mut out: Vec<task::Model> = Vec::new();
        let mut i: usize = 0;
        let ghost tasks = self.tasks@;
        while i < self.tasks.len()
            invariant
                tasks == self.tasks@,
                i <= tasks.len(),
                out@ == tasks.take(i as int).filter(|t: task::Model| is_root(tasks, t)),
            decreases tasks.len() - i,
        {
            proof {
                assert(tasks.take(i + 1) =~= tasks.take(i as int).push(tasks[i as int]));
                tasks.take(i as int).lemma_filter_push(tasks[i as int], |t: task::Model| is_root(tasks, t));
            }
            let t = &self.tasks[i];
            let root = match t.parent_uuid {
                Some(p) => !contains_task(&self.tasks, p),
                None => true,
            };
            if root {
                out.push(t.duplicate());
            }
            i = i + 1;
        }
        proof {
            assert(tasks.take(i as int) =~= tasks);
        }
        out
    }

    /// The number of listed tasks whose parent is the given task.
    pub fn get_child_task_count(&self, parent_id: u128) -> (n: usize)
        ensures
            n == filtered(self.tasks@, TaskFilter::ChildOf(parent_id)).len(),
    {
        filter_tasks(&self.tasks, TaskFilter::ChildOf(parent_id)).len()
    }

    fn make_row(&self, t: &task::Model, depth: usize) -> (item: TaskListItemType)
        ensures
            item_view(item) == task_row(self.tasks@, self.all_tasks@, self.marked_task_ids@, *t, depth as nat),
    {
        let child_count = self.get_child_task_count(t.uuid);
        let parent_context = if depth == 0 {
            match t.parent_uuid {
                Some(p) => find_title(&self.all_tasks, p),
                None => None,
            }
        } else {
            None
        };
        TaskListItemType::Task(
            Box::new(
                TaskItem {
                    task: t.duplicate(),
                    depth,
                    child_count,
                    marked: contains_id(&self.marked_task_ids, t.uuid),
                    parent_context,
                    agenda_time: None,
                },
            ),
        )
    }

    /// Appends a task's row and the rows of its descendants.
    fn add_task_and_children_to_items(&self, t: &task::Model, depth: usize, fuel: usize, out: &mut Vec<TaskListItemType>)
        requires
            depth + fuel <= usize::MAX,
        ensures
            items_view(final(out)@) == items_view(old(out)@) + subtree(
                self.tasks@,
                self.all_tasks@,
                self.marked_task_ids@,
                *t,
                depth as nat,
                fuel as nat,
            ),
        decreases fuel, 0nat,
    {
        if fuel == 0 {
            proof {
                assert(items_view(out@) =~= items_view(out@) + Seq::<ItemView>::empty());
            }
            return;
        }
        let ghost start = out@;
        let row = self.make_row(t, depth);
        out.push(row);
        proof {
            assert(items_view(out@) =~= items_view(start) + seq![task_row(self.tasks@, self.all_tasks@, self.marked_task_ids@, *t, depth as nat)]);
        }
        let children = filter_tasks(&self.tasks, TaskFilter::ChildOf(t.uuid));
        self.add_forest(&children, depth + 1, fuel - 1, out);
        proof {
            assert(items_view(out@) =~= items_view(start) + subtree(
                self.tasks@,
                self.all_tasks@,
                self.marked_task_ids@,
                *t,
                depth as nat,
                fuel as nat,
            ));
        }
    }

    /// Appends the trees of several tasks in order.
    fn add_forest(&self, list: &Vec<task::Model>, depth: usize, fuel: usize, out: &mut Vec<TaskListItemType>)
        requires
            depth + fuel <= usize::MAX,
        ensures
            items_view(final(out)@) == items_view(old(out)@) + forest(
                self.tasks@,
                self.all_tasks@,
                self.marked_task_ids@,
                list@,
                depth as nat,
                fuel as nat,
            ),
        decreases fuel, list@.len() + 1,
    {
        let ghost start = items_view(out@);
        let mut i: usize = 0;
        proof {
            assert(list@.take(0) =~= Seq::<task::Model>::empty());
            assert(items_view(out@) =~= start + forest(self.tasks@, self.all_tasks@, self.marked_task_ids@, list@.take(0), depth as nat, fuel as nat));
        }
        while i < list.len()
            invariant
                depth + fuel <= usize::MAX,
                i <= list@.len(),
                items_view(out@) == start + forest(
                    self.tasks@,
                    self.all_tasks@,
                    self.marked_task_ids@,
                    list@.take(i as int),
                    depth as nat,
                    fuel as nat,
                ),
            decreases list@.len() - i,
        {
            proof {
                assert(list@.take(i + 1).drop_last() =~= list@.take(i as int));
                assert(list@.take(i + 1).last() == list@[i as int]);
            }
            self.add_task_and_children_to_items(&list[i], depth, fuel, out);
            proof {
                assert(items_view(out@) =~= start + forest(
                    self.tasks@,
                    self.all_tasks@,
                    self.marked_task_ids@,
                    list@.take(i + 1),
                    depth as nat,
                    fuel as nat,
                ));
            }
            i = i + 1;
        }
        proof {
            assert(list@.take(i as int) =~= list@);
        }
    }
}


/// The days as integers.
pub open spec fn ints(v: Seq<i32>) -> Seq<int> {
    v.map_values(|x: i32| x as int)
}

proof fn lemma_insert_day_at(days: Seq<int>, d: int, pos: int)
    requires
        0 <= pos <= days.len(),
        forall|k: int| 0 <= k < pos ==> days[k] < d,
        pos < days.len() ==> days[pos] >= d,
    ensures
        insert_day(days, d) == if pos < days.len() && days[pos] == d { days } else { days.insert(pos, d) },
    decreases pos,
{
    if pos == 0 {
        if days.len() > 0 && d < days[0] {
            assert(seq![d] + days =~= days.insert(0, d));
        }
        if days.len() == 0 {
            assert(seq![d] =~= days.insert(0, d));
        }
    } else {
        lemma_insert_day_at(days.drop_first(), d, pos - 1);
        if pos < days.len() && days[pos] == d {
            assert(seq![days[0]] + days.drop_first() =~= days);
        } else {
            assert(seq![days[0]] + days.drop_first().insert(pos - 1, d) =~= days.insert(pos, d));
        }
    }
}

fn insert_day_exec(days: &mut Vec<i32>, d: i32)
    ensures
        ints(final(days)@) == insert_day(ints(old(days)@), d as int),
{
    let mut i: usize = 0;
    while i < days.len() && days[i] < d
        invariant
            i <= days@.len(),
            forall|k: int| 0 <= k < i ==> days@[k] < d,
        decreases days@.len() - i,
    {
        i = i + 1;
    }
    proof {
        lemma_insert_day_at(ints(days@), d as int, i as int);
    }
    if i < days.len() && days[i] == d {
        return;
    }
    let ghost before = days@;
    days.insert(i, d);
    proof {
        assert(ints(days@) =~= ints(before).insert(i as int, d as int));
    }
}

fn section_groups_into(
    c: &TaskListComponent,
    in_project: &Vec<task::Model>,
    secs: &Vec<section::Model>,
    out: &mut Vec<TaskListItemType>,
)
    requires
        c.tasks@.len() <= usize::MAX,
    ensures
        items_view(final(out)@) == section_groups(
            c.tasks@,
            c.all_tasks@,
            c.marked_task_ids@,
            in_project@,
            secs@,
            secs@.len() as int,
            items_view(old(out)@),
        ),
{
    let ghost before = items_view(out@);
    let mut n: usize = 0;
    while n < secs.len()
        invariant
            n <= secs@.len(),
            items_view(out@) == section_groups(c.tasks@, c.all_tasks@, c.marked_task_ids@, in_project@, secs@, n as int, before),
        decreases secs@.len() - n,
    {
        let group = filter_tasks(in_project, TaskFilter::InSection(secs[n].uuid));
        if group.len() > 0 {
            if out.len() > 0 {
                out.push(TaskListItemType::Separator);
            }
            out.push(TaskListItemType::Header(secs[n].name.clone()));
            c.add_forest(&group, 0, c.tasks.len(), out);
        }
        proof {
            let prior = section_groups(c.tasks@, c.all_tasks@, c.marked_task_ids@, in_project@, secs@, n as int, before);
            assert(items_view(out@) =~= section_groups(c.tasks@, c.all_tasks@, c.marked_task_ids@, in_project@, secs@, n + 1, before));
        }
        n = n + 1;
    }
}

impl TaskListComponent {
    /// The rows of the Today view on the given day.
    pub fn build_today_items(&self, today: i32) -> (r: Vec<TaskListItemType>)
        requires
            -0x4000_0000 < today < 0x4000_0000,
        ensures
            items_view(r@) == today_rows(self.tasks@, self.all_tasks@, self.marked_task_ids@, today as int),
    {
        let roots = self.visible_roots();
        let overdue = filter_tasks(&roots, TaskFilter::Overdue(today));
        let due_today = filter_tasks(&roots, TaskFilter::TodayGroup(today));
        let mut out: Vec<TaskListItemType> = Vec::new();
        let ghost fuel = tree_fuel(self.tasks@);
        let ghost (t, a, m) = (self.tasks@, self.all_tasks@, self.marked_task_ids@);
        if overdue.len() > 0 {
            out.push(TaskListItemType::Header(String::from_str("Overdue")));
            assert(items_view(out@) =~= seq![ItemView::Header(header_overdue())]);
            self.add_forest(&overdue, 0, self.tasks.len(), &mut out);
            if due_today.len() > 0 {
                let ghost before = items_view(out@);
                out.push(TaskListItemType::Separator);
                assert(items_view(out@) =~= before + seq![ItemView::Separator]);
            }
        }
        let ghost head = items_view(out@);
        assert(head =~= (if overdue@.len() > 0 {
            seq![ItemView::Header(header_overdue())] + forest(t, a, m, overdue@, 0, fuel)
                + if due_today@.len() > 0 { seq![ItemView::Separator] } else { Seq::empty() }
        } else {
            Seq::empty()
        }));
        if due_today.len() > 0 {
            out.push(TaskListItemType::Header(String::from_str("Today")));
            assert(items_view(out@) =~= head + seq![ItemView::Header(header_today())]);
            self.add_forest(&due_today, 0, self.tasks.len(), &mut out);
        }
        proof {
            assert(items_view(out@) =~= today_rows(self.tasks@, self.all_tasks@, self.marked_task_ids@, today as int));
        }
        out
    }

    /// The rows of the Tomorrow view on the given day.
    pub fn build_tomorrow_items(&self, today: i32) -> (r: Vec<TaskListItemType>)
        requires
            -0x4000_0000 < today < 0x4000_0000,
        ensures
            items_view(r@) == tomorrow_rows(self.tasks@, self.all_tasks@, self.marked_task_ids@, today as int),
    {
        let roots = self.visible_roots();
        let due = filter_tasks(&roots, TaskFilter::DueOn(today + 1));
        let mut out: Vec<TaskListItemType> = Vec::new();
        out.push(TaskListItemType::Header(String::from_str("Tomorrow")));
        self.add_forest(&due, 0, self.tasks.len(), &mut out);
        proof {
            assert(items_view(out@) =~= tomorrow_rows(self.tasks@, self.all_tasks@, self.marked_task_ids@, today as int));
        }
        out
    }

    /// The rows of the Upcoming view on the given day.
    pub fn build_upcoming_items(&self, today: i32) -> (r: Vec<TaskListItemType>)
        requires
            -0x4000_0000 < today < 0x4000_0000,
        ensures
            items_view(r@) == upcoming_rows(self.tasks@, self.all_tasks@, self.marked_task_ids@, today as int),
    {
        let roots = self.visible_roots();
        let overdue = filter_tasks(&roots, TaskFilter::DueBefore(today));
        let mut out: Vec<TaskListItemType> = Vec::new();
        if overdue.len() > 0 {
            out.push(TaskListItemType::Header(String::from_str("Overdue")));
            assert(items_view(out@) =~= seq![ItemView::Header(header_overdue())]);
            self.add_forest(&overdue, 0, self.tasks.len(), &mut out);
        }
        let ghost head = items_view(out@);
        assert(head =~= (if overdue@.len() > 0 {
            seq![ItemView::Header(header_overdue())] + forest(self.tasks@, self.all_tasks@, self.marked_task_ids@, overdue@, 0, tree_fuel(self.tasks@))
        } else {
            Seq::empty()
        }));
        let mut days: Vec<i32> = Vec::new();
        let mut i: usize = 0;
        while i < roots.len()
            invariant
                i <= roots@.len(),
                ints(days@) == upcoming_days(roots@.take(i as int), today as int),
            decreases roots@.len() - i,
        {
            proof {
                assert(roots@.take(i + 1).drop_last() =~= roots@.take(i as int));
                assert(roots@.take(i + 1).last() == roots@[i as int]);
            }
            match task_due_day(&roots[i]) {
                Some(d) => {
                    if d >= today {
                        insert_day_exec(&mut days, d);
                    }
                },
                None => {},
            }
            i = i + 1;
        }
        proof {
            assert(roots@.take(i as int) =~= roots@);
        }
        let mut n: usize = 0;
        while n < days.len()
            invariant
                -0x4000_0000 < today < 0x4000_0000,
                n <= days@.len(),
                ints(days@) == upcoming_days(roots@, today as int),
                roots@ == roots_of(self.tasks@),
                items_view(out@) == upcoming_groups(
                    self.tasks@,
                    self.all_tasks@,
                    self.marked_task_ids@,
                    roots@,
                    ints(days@),
                    today as int,
                    n as int,
                    head,
                ),
            decreases days@.len() - n,
        {
            let day = days[n];
            let group = filter_tasks(&roots, TaskFilter::DueOn(day));
            if out.len() > 0 {
                out.push(TaskListItemType::Separator);
            }
            let header = if day == today {
                String::from_str("Today")
            } else if day as i64 == today as i64 + 1 {
                String::from_str("Tomorrow")
            } else {
                format_day_header(day)
            };
            out.push(TaskListItemType::Header(header));
            self.add_forest(&group, 0, self.tasks.len(), &mut out);
            proof {
                assert(ints(days@)[n as int] == day as int);
                assert((ints(days@)[n as int]) as i32 == day);
                assert(items_view(out@) =~= upcoming_groups(
                    self.tasks@,
                    self.all_tasks@,
                    self.marked_task_ids@,
                    roots@,
                    ints(days@),
                    today as int,
                    n + 1,
                    head,
                ));
            }
            n = n + 1;
        }
        proof {
            assert(items_view(out@) == upcoming_rows(self.tasks@, self.all_tasks@, self.marked_task_ids@, today as int));
        }
        out
    }

    /// The rows of a project view.
    pub fn build_project_items(&self, project_id: u128) -> (r: Vec<TaskListItemType>)
        ensures
            items_view(r@) == project_rows(self.tasks@, self.all_tasks@, self.marked_task_ids@, self.sections@, project_id),
    {
        let mut secs: Vec<section::Model> = Vec::new();
        let mut i: usize = 0;
        while i < self.sections.len()
            invariant
                i <= self.sections@.len(),
                secs@ == self.sections@.take(i as int).filter(|s: section::Model| s.project_uuid == project_id),
            decreases self.sections@.len() - i,
        {
            proof {
                assert(self.sections@.take(i + 1) =~= self.sections@.take(i as int).push(self.sections@[i as int]));
                self.sections@.take(i as int).lemma_filter_push(self.sections@[i as int], |s: section::Model| s.project_uuid == project_id);
            }
            if self.sections[i].project_uuid == project_id {
                secs.push(self.sections[i].duplicate());
            }
            i = i + 1;
        }
        proof {
            assert(self.sections@.take(i as int) =~= self.sections@);
        }
        let roots = self.visible_roots();
        let in_project = filter_tasks(&roots, TaskFilter::InProject(project_id));
        let unsectioned = filter_tasks(&in_project, TaskFilter::NoSection);
        let mut out: Vec<TaskListItemType> = Vec::new();
        self.add_forest(&unsectioned, 0, self.tasks.len(), &mut out);
        proof {
            assert(items_view(Seq::<TaskListItemType>::empty()) =~= Seq::<ItemView>::empty());
        }
        section_groups_into(self, &in_project, &secs, &mut out);
        out
    }

    /// The rows of a label view or the Trash.
    pub fn build_plain_items(&self) -> (r: Vec<TaskListItemType>)
        ensures
            items_view(r@) == plain_rows(self.tasks@, self.all_tasks@, self.marked_task_ids@),
    {
        let roots = self.visible_roots();
        let mut out: Vec<TaskListItemType> = Vec::new();
        self.add_forest(&roots, 0, self.tasks.len(), &mut out);
        proof {
            assert(items_view(Seq::<TaskListItemType>::empty()) =~= Seq::<ItemView>::empty());
        }
        out
    }
}

/// Moving the selection down and then up returns it to the same task row.
pub proof fn lemma_next_then_previous(n: int, selected: int)
    requires
        0 <= selected < n,
    ensures
        ({
            let next = (selected + 1) % n;
            (if next == 0 { n - 1 } else { next - 1 }) == selected
        }),
{
    let next = (selected + 1) % n;
    if selected + 1 < n {
        vstd::arithmetic::div_mod::lemma_small_mod((selected + 1) as nat, n as nat);
    } else {
        vstd::arithmetic::div_mod::lemma_mod_self_0(n);
    }
}

/// The clock readings a view is built from: today's day number, the local wall-clock
/// time in seconds, and the local due time of each listed task as read from its due
/// time text.
pub struct ViewClock {
    pub today: i32,
    pub now: i64,
    pub times: Vec<Option<i64>>,
}

/// Whether clock readings fit the listed tasks: one due time per task, none where the
/// task has no due time text, and all within chrono's range.
pub open spec fn clock_fits(c: ViewClock, tasks: Seq<task::Model>) -> bool {
    &&& -0x4000_0000 < c.today < 0x4000_0000
    &&& -0x1000_0000_0000 < c.now < 0x1000_0000_0000
    &&& c.times@.len() == tasks.len()
    &&& forall|k: int| 0 <= k < tasks.len() ==> (#[trigger] c.times@[k] matches Some(v)
        ==> -0x1000_0000_0000 < v < 0x1000_0000_0000)
    &&& forall|k: int| 0 <= k < tasks.len() ==> (tasks[k].due_datetime is None ==> #[trigger] c.times@[k] is None)
}

/// The row of an Agenda entry: a top-level task row labelled with the entry's time.
pub open spec fn agenda_row(tasks: Seq<task::Model>, marked: Seq<u128>, e: Entry) -> ItemView {
    ItemView::Task {
        task: e.2,
        depth: 0,
        child_count: filtered(tasks, TaskFilter::ChildOf(e.2.uuid)).len(),
        marked: marked.contains(e.2.uuid),
        parent_context: None,
        agenda_time: Some((agenda_label(e.0), e.1)),
    }
}

/// Rows of the Agenda view.
pub open spec fn agenda_rows(tasks: Seq<task::Model>, marked: Seq<u128>, times: Seq<Option<i64>>, now: int) -> Seq<ItemView> {
    agenda_entries(tasks, times, now).map_values(|e: Entry| agenda_row(tasks, marked, e))
}

/// Rows of a view: none when no task is listed, otherwise the rows of the selected view.
pub open spec fn rows_for(
    sel: SidebarSelection,
    tasks: Seq<task::Model>,
    all: Seq<task::Model>,
    marked: Seq<u128>,
    sections: Seq<section::Model>,
    clock: ViewClock,
) -> Seq<ItemView> {
    if tasks.len() == 0 {
        Seq::empty()
    } else {
        match sel {
            SidebarSelection::Today => today_rows(tasks, all, marked, clock.today as int),
            SidebarSelection::Agenda => agenda_rows(tasks, marked, clock.times@, clock.now as int),
            SidebarSelection::Tomorrow => tomorrow_rows(tasks, all, marked, clock.today as int),
            SidebarSelection::Upcoming => upcoming_rows(tasks, all, marked, clock.today as int),
            SidebarSelection::Trash => plain_rows(tasks, all, marked),
            SidebarSelection::Project(p) => project_rows(tasks, all, marked, sections, p),
            SidebarSelection::Label(_) => plain_rows(tasks, all, marked),
        }
    }
}

impl TaskListComponent {
    /// The rows of the Agenda view at the local time `now`.
    pub fn build_agenda_items_at(&self, now: i64, times: &Vec<Option<i64>>) -> (r: Vec<TaskListItemType>)
        requires
            times@.len() == self.tasks@.len(),
            -0x1000_0000_0000 < now < 0x1000_0000_0000,
            forall|k: int| 0 <= k < times@.len() ==> (#[trigger] times@[k] matches Some(v)
                ==> -0x1000_0000_0000 < v < 0x1000_0000_0000),
        ensures
            items_view(r@) == agenda_rows(self.tasks@, self.marked_task_ids@, times@, now as int),
    {
        let entries = agenda_entries_exec(&self.tasks, times, now);
        let ghost ev = agenda_entries(self.tasks@, times@, now as int);
        let mut out: Vec<TaskListItemType> = Vec::new();
        let mut i: usize = 0;
        while i < entries.len()
            invariant
                i <= entries@.len(),
                crate::ui::components::agenda::entries_view(entries@) == ev,
                forall|k: int| 0 <= k < entries@.len() ==> -TIME_BOUND < #[trigger] entries@[k].0 < TIME_BOUND,
                items_view(out@) == ev.take(i as int).map_values(|e: Entry| agenda_row(self.tasks@, self.marked_task_ids@, e)),
            decreases entries@.len() - i,
        {
            let e = &entries[i];
            let row = TaskListItemType::Task(
                Box::new(
                    TaskItem {
                        task: e.2.duplicate(),
                        depth: 0,
                        child_count: self.get_child_task_count(e.2.uuid),
                        marked: contains_id(&self.marked_task_ids, e.2.uuid),
                        parent_context: None,
                        agenda_time: Some((agenda_time_label(e.0), e.1)),
                    },
                ),
            );
            let ghost before = items_view(out@);
            out.push(row);
            proof {
                assert(ev[i as int] == (e.0 as int, e.1, e.2));
                assert(ev.take(i + 1) =~= ev.take(i as int).push(ev[i as int]));
                assert(items_view(out@) =~= before.push(agenda_row(self.tasks@, self.marked_task_ids@, ev[i as int])));
            }
            i = i + 1;
        }
        proof {
            assert(ev.take(i as int) =~= ev);
        }
        out
    }

    /// The rows of the selected view under the given clock readings.
    pub fn build_item_list_at(&self, clock: &ViewClock) -> (r: Vec<TaskListItemType>)
        requires
            clock_fits(*clock, self.tasks@),
        ensures
            items_view(r@) == rows_for(
                self.sidebar_selection,
                self.tasks@,
                self.all_tasks@,
                self.marked_task_ids@,
                self.sections@,
                *clock,
            ),
    {
        if self.tasks.len() == 0 {
            proof {
                assert(items_view(Seq::<TaskListItemType>::empty()) =~= Seq::<ItemView>::empty());
            }
            return Vec::new();
        }
        match self.sidebar_selection {
            SidebarSelection::Today => self.build_today_items(clock.today),
            SidebarSelection::Agenda => self.build_agenda_items_at(clock.now, &clock.times),
            SidebarSelection::Tomorrow => self.build_tomorrow_items(clock.today),
            SidebarSelection::Upcoming => self.build_upcoming_items(clock.today),
            SidebarSelection::Trash => self.build_plain_items(),
            SidebarSelection::Project(p) => self.build_project_items(p),
            SidebarSelection::Label(_) => self.build_plain_items(),
        }
    }

    /// Reads today's date, the local time and each listed task's due time.
    pub fn read_clock(&self) -> (c: ViewClock)
        ensures
            clock_fits(c, self.tasks@),
    {
        let today = crate::ext::local_today();
        let now = crate::ext::local_now_secs();
        let mut times: Vec<Option<i64>> = Vec::new();
        let mut i: usize = 0;
        while i < self.tasks.len()
            invariant
                i <= self.tasks@.len(),
                times@.len() == i,
                forall|k: int| 0 <= k < i ==> (#[trigger] times@[k] matches Some(v)
                    ==> -0x1000_0000_0000 < v < 0x1000_0000_0000),
                forall|k: int| 0 <= k < i ==> (self.tasks@[k].due_datetime is None ==> #[trigger] times@[k] is None),
            decreases self.tasks@.len() - i,
        {
            let t = match &self.tasks[i].due_datetime {
                Some(text) => parse_task_datetime(text.as_str()),
                None => None,
            };
            times.push(t);
            i = i + 1;
        }
        ViewClock { today, now, times }
    }
}

/// The marks after toggling one task: removed when marked, added otherwise.
pub open spec fn toggled(marks: Seq<u128>, id: u128) -> Seq<u128> {
    if marks.contains(id) { marks.filter(other_than(id)) } else { marks.push(id) }
}

/// The test that an identifier differs from `id`.
pub open spec fn other_than(id: u128) -> spec_fn(u128) -> bool {
    |x: u128| x != id
}

/// Filtering out nothing leaves a list as it is.
proof fn lemma_filter_keeps_all(s: Seq<u128>, pred: spec_fn(u128) -> bool)
    requires
        forall|i: int| 0 <= i < s.len() ==> pred(#[trigger] s[i]),
    ensures
        s.filter(pred) == s,
    decreases s.len(),
{
    reveal(Seq::filter);
    if s.len() > 0 {
        lemma_filter_keeps_all(s.drop_last(), pred);
        assert(s.drop_last().push(s.last()) =~= s);
    }
}

/// Marking a task and marking it again leaves the same tasks marked; where it was not
/// marked before, the marks are exactly as they were.
pub proof fn lemma_toggle_twice(marks: Seq<u128>, id: u128)
    ensures
        forall|x: u128| #[trigger] toggled(toggled(marks, id), id).contains(x) <==> marks.contains(x),
        !marks.contains(id) ==> toggled(toggled(marks, id), id) == marks,
{
    broadcast use vstd::seq_lib::group_filter_ensures;
    let f = other_than(id);
    if marks.contains(id) {
        let t1 = marks.filter(f);
        assert(!t1.contains(id)) by {
            if t1.contains(id) {
                let i = choose|i: int| 0 <= i < t1.len() && t1[i] == id;
                assert(f(t1[i]));
            }
        }
        assert forall|x: u128| #[trigger] toggled(toggled(marks, id), id).contains(x) <==> marks.contains(x) by {
            if x != id {
                if marks.contains(x) {
                    let i = choose|i: int| 0 <= i < marks.len() && marks[i] == x;
                    assert(f(marks[i]));
                    assert(t1.contains(x));
                    let j = choose|j: int| 0 <= j < t1.len() && t1[j] == x;
                    assert(t1.push(id)[j] == x);
                }
                if t1.push(id).contains(x) {
                    let i = choose|i: int| 0 <= i < t1.push(id).len() && t1.push(id)[i] == x;
                    assert(t1.contains(x));
                    marks.lemma_filter_contains_rev(f, x);
                }
            } else {
                assert(t1.push(id)[t1.len() as int] == id);
            }
        }
    } else {
        marks.lemma_filter_push(id, f);
        assert forall|i: int| 0 <= i < marks.len() implies f(#[trigger] marks[i]) by {
            if marks[i] == id {
                assert(marks.contains(id));
            }
        }
        lemma_filter_keeps_all(marks, f);
        assert(marks.push(id).contains(id)) by {
            assert(marks.push(id)[marks.len() as int] == id);
        }
    }
}

/// The marks of tasks that are still listed.
pub open spec fn listed_marks(marks: Seq<u128>, tasks: Seq<task::Model>) -> Seq<u128> {
    marks.filter(|x: u128| has_task(tasks, x))
}

/// The tasks that task actions act on: the marked tasks in list order, or the
/// selected task when nothing is marked.
pub open spec fn target_tasks_of(c: TaskListComponent) -> Seq<task::Model> {
    if c.marked_task_ids@.len() == 0 {
        match selected_task(c) {
            Some(t) => seq![t],
            None => Seq::empty(),
        }
    } else {
        c.tasks@.filter(|t: task::Model| c.marked_task_ids@.contains(t.uuid))
    }
}

/// The selection after rows change: kept when still in range, else the last task row.
pub open spec fn clamped(prev: usize, after: TaskListComponent) -> bool {
    let n = selectable_count(after.items@);
    n > 0 ==> after.selected_index == if prev < n { prev as int } else { n - 1 }
}

/// `after` is `before` with the marks `marks` and the rows rebuilt from them.
pub open spec fn rebuilt(before: TaskListComponent, after: TaskListComponent, marks: Seq<u128>, clock: ViewClock) -> bool {
    &&& after.marked_task_ids@ == marks
    &&& after.tasks == before.tasks
    &&& after.all_tasks == before.all_tasks
    &&& after.sections == before.sections
    &&& after.projects == before.projects
    &&& after.labels == before.labels
    &&& after.sidebar_selection == before.sidebar_selection
    &&& after.focused == before.focused
    &&& after.processing_message == before.processing_message
    &&& after.list_offset == before.list_offset
    &&& items_view(after.items@) == rows_for(
        before.sidebar_selection,
        before.tasks@,
        before.all_tasks@,
        marks,
        before.sections@,
        clock,
    )
    &&& after.selection_consistent()
    &&& clamped(before.selected_index, after)
}

/// The effect of a data update: marks are dropped when the view changes and kept
/// only for listed tasks, and the rows are rebuilt.
pub open spec fn data_updated(
    before: TaskListComponent,
    after: TaskListComponent,
    tasks: Seq<task::Model>,
    sections: Seq<section::Model>,
    projects: Seq<project::Model>,
    labels: Seq<label::Model>,
    selection: SidebarSelection,
    clock: ViewClock,
) -> bool {
    let kept = if before.sidebar_selection != selection { Seq::empty() } else { before.marked_task_ids@ };
    let marks = listed_marks(kept, tasks);
    &&& after.marked_task_ids@ == marks
    &&& after.tasks@ == tasks
    &&& after.sections@ == sections
    &&& after.projects@ == projects
    &&& after.labels@ == labels
    &&& after.sidebar_selection == selection
    &&& after.all_tasks == before.all_tasks
    &&& after.focused == before.focused
    &&& after.processing_message == before.processing_message
    &&& items_view(after.items@) == rows_for(selection, tasks, before.all_tasks@, marks, sections, clock)
    &&& after.selection_consistent()
    &&& clamped(before.selected_index, after)
}

/// The identifiers other than `id`, in order.
fn without_id(ids: &Vec<u128>, id: u128) -> (r: Vec<u128>)
    requires
        distinct_ids(ids@),
    ensures
        r@ == ids@.filter(other_than(id)),
        distinct_ids(r@),
{
    let mut out: Vec<u128> = Vec::new();
    let mut i: usize = 0;
    while i < ids.len()
        invariant
            i <= ids@.len(),
            distinct_ids(ids@),
            out@ == ids@.take(i as int).filter(other_than(id)),
            distinct_ids(out@),
            forall|k: int| 0 <= k < out@.len() ==> ids@.take(i as int).contains(#[trigger] out@[k]),
        decreases ids@.len() - i,
    {
        proof {
            assert(ids@.take(i + 1) =~= ids@.take(i as int).push(ids@[i as int]));
            ids@.take(i as int).lemma_filter_push(ids@[i as int], other_than(id));
        }
        if ids[i] != id {
            let ghost before = out@;
            out.push(ids[i]);
            proof {
                assert forall|a: int, b: int| 0 <= a < b < out@.len() implies out@[a] != out@[b] by {
                    if b == out@.len() - 1 {
                        assert(ids@.take(i as int).contains(before[a]));
                    }
                }
            }
        }
        proof {
            assert forall|k: int| 0 <= k < out@.len() implies ids@.take(i + 1).contains(#[trigger] out@[k]) by {
                if k < out@.len() - 1 || ids@[i as int] == id {
                    assert(ids@.take(i as int).contains(out@[k]));
                    let q = choose|q: int| 0 <= q < i && ids@.take(i as int)[q] == out@[k];
                    assert(ids@.take(i + 1)[q] == out@[k]);
                } else {
                    assert(ids@.take(i + 1)[i as int] == out@[k]);
                }
            }
        }
        i = i + 1;
    }
    proof {
        assert(ids@.take(i as int) =~= ids@);
    }
    out
}

/// The identifiers of listed tasks, in order.
fn listed_ids(ids: &Vec<u128>, tasks: &Vec<task::Model>) -> (r: Vec<u128>)
    requires
        distinct_ids(ids@),
    ensures
        r@ == listed_marks(ids@, tasks@),
        distinct_ids(r@),
{
    let mut out: Vec<u128> = Vec::new();
    let mut i: usize = 0;
    while i < ids.len()
        invariant
            i <= ids@.len(),
            distinct_ids(ids@),
            out@ == ids@.take(i as int).filter(|x: u128| has_task(tasks@, x)),
            distinct_ids(out@),
            forall|k: int| 0 <= k < out@.len() ==> ids@.take(i as int).contains(#[trigger] out@[k]),
        decreases ids@.len() - i,
    {
        proof {
            assert(ids@.take(i + 1) =~= ids@.take(i as int).push(ids@[i as int]));
            ids@.take(i as int).lemma_filter_push(ids@[i as int], |x: u128| has_task(tasks@, x));
        }
        let keep = contains_task(tasks, ids[i]);
        if keep {
            let ghost before = out@;
            out.push(ids[i]);
            proof {
                assert forall|a: int, b: int| 0 <= a < b < out@.len() implies out@[a] != out@[b] by {
                    if b == out@.len() - 1 {
                        assert(ids@.take(i as int).contains(before[a]));
                    }
                }
            }
        }
        proof {
            assert forall|k: int| 0 <= k < out@.len() implies ids@.take(i + 1).contains(#[trigger] out@[k]) by {
                if k < out@.len() - 1 || !keep {
                    assert(ids@.take(i as int).contains(out@[k]));
                    let q = choose|q: int| 0 <= q < i && ids@.take(i as int)[q] == out@[k];
                    assert(ids@.take(i + 1)[q] == out@[k]);
                } else {
                    assert(ids@.take(i + 1)[i as int] == out@[k]);
                }
            }
        }
        i = i + 1;
    }
    proof {
        assert(ids@.take(i as int) =~= ids@);
    }
    out
}

impl TaskListComponent {
    /// Rebuilds the rows from the current data and clamps the selection.
    fn refresh_at(&mut self, clock: &ViewClock)
        requires
            clock_fits(*clock, old(self).tasks@),
            distinct_ids(old(self).marked_task_ids@),
        ensures
            final(self).wf(),
            rebuilt(*old(self), *final(self), old(self).marked_task_ids@, *clock),
    {
        self.items = self.build_item_list_at(clock);
        self.update_list_state();
    }

    /// Replaces the listed data and the view and rebuilds the rows under the given
    /// clock readings.  Changing the view drops the marks; marks of tasks no longer
    /// listed are dropped too.
    pub fn update_data_at(
        &mut self,
        tasks: Vec<task::Model>,
        sections: Vec<section::Model>,
        projects: Vec<project::Model>,
        labels: Vec<label::Model>,
        sidebar_selection: SidebarSelection,
        clock: &ViewClock,
    )
        requires
            old(self).wf(),
            clock_fits(*clock, tasks@),
        ensures
            final(self).wf(),
            data_updated(*old(self), *final(self), tasks@, sections@, projects@, labels@, sidebar_selection, *clock),
    {
        if self.sidebar_selection != sidebar_selection {
            self.marked_task_ids = Vec::new();
        }
        self.tasks = tasks;
        self.sections = sections;
        self.projects = projects;
        self.labels = labels;
        self.sidebar_selection = sidebar_selection;
        self.marked_task_ids = listed_ids(&self.marked_task_ids, &self.tasks);
        self.refresh_at(clock);
    }

    /// Replaces the listed data and the view and rebuilds the rows at the current
    /// time.
    pub fn update_data(
        &mut self,
        tasks: Vec<task::Model>,
        sections: Vec<section::Model>,
        projects: Vec<project::Model>,
        labels: Vec<label::Model>,
        sidebar_selection: SidebarSelection,
    )
        requires
            old(self).wf(),
        ensures
            final(self).wf(),
            exists|clock: ViewClock|
                clock_fits(clock, tasks@) && data_updated(
                    *old(self),
                    *final(self),
                    tasks@,
                    sections@,
                    projects@,
                    labels@,
                    sidebar_selection,
                    clock,
                ),
    {
        let ghost before = *self;
        if self.sidebar_selection != sidebar_selection {
            self.marked_task_ids = Vec::new();
        }
        self.tasks = tasks;
        self.sections = sections;
        self.projects = projects;
        self.labels = labels;
        self.sidebar_selection = sidebar_selection;
        self.marked_task_ids = listed_ids(&self.marked_task_ids, &self.tasks);
        let clock = self.read_clock();
        self.refresh_at(&clock);
        assert(data_updated(before, *self, tasks@, sections@, projects@, labels@, sidebar_selection, clock));
    }

    /// Marks the selected task, or unmarks it when it is marked, and rebuilds the rows.
    fn toggle_current_task_mark_at(&mut self, clock: &ViewClock)
        requires
            old(self).wf(),
            clock_fits(*clock, old(self).tasks@),
        ensures
            final(self).wf(),
            match selected_task(*old(self)) {
                Some(t) => rebuilt(*old(self), *final(self), toggled(old(self).marked_task_ids@, t.uuid), *clock),
                None => *final(self) == *old(self),
            },
    {
        let id = match self.get_selected_task() {
            Some(t) => t.uuid,
            None => {
                return;
            },
        };
        if contains_id(&self.marked_task_ids, id) {
            self.marked_task_ids = without_id(&self.marked_task_ids, id);
        } else {
            self.marked_task_ids.push(id);
        }
        self.refresh_at(clock);
    }

    /// Drops every mark and rebuilds the rows; does nothing when nothing is marked.
    fn clear_marked_tasks_at(&mut self, clock: &ViewClock)
        requires
            old(self).wf(),
            clock_fits(*clock, old(self).tasks@),
        ensures
            final(self).wf(),
            old(self).marked_task_ids@.len() > 0 ==> rebuilt(*old(self), *final(self), Seq::empty(), *clock),
            old(self).marked_task_ids@.len() == 0 ==> *final(self) == *old(self),
    {
        if self.marked_task_ids.len() > 0 {
            self.marked_task_ids = Vec::new();
            self.refresh_at(clock);
        }
    }

    /// The tasks that task actions act on.
    pub fn target_tasks(&self) -> (r: Vec<task::Model>)
        requires
            self.wf(),
        ensures
            r@ == target_tasks_of(*self),
    {
        if self.marked_task_ids.len() == 0 {
            let mut out: Vec<task::Model> = Vec::new();
            match self.get_selected_task() {
                Some(t) => {
                    out.push(t.duplicate());
                    assert(out@ =~= seq![*t]);
                },
                None => {},
            }
            return out;
        }
        let mut out: Vec<task::Model> = Vec::new();
        let mut i: usize = 0;
        let ghost pred = |t: task::Model| self.marked_task_ids@.contains(t.uuid);
        while i < self.tasks.len()
            invariant
                i <= self.tasks@.len(),
                pred == (|t: task::Model| self.marked_task_ids@.contains(t.uuid)),
                out@ == self.tasks@.take(i as int).filter(pred),
            decreases self.tasks@.len() - i,
        {
            proof {
                assert(self.tasks@.take(i + 1) =~= self.tasks@.take(i as int).push(self.tasks@[i as int]));
                self.tasks@.take(i as int).lemma_filter_push(self.tasks@[i as int], pred);
            }
            if contains_id(&self.marked_task_ids, self.tasks[i].uuid) {
                out.push(self.tasks[i].duplicate());
            }
            i = i + 1;
        }
        proof {
            assert(self.tasks@.take(i as int) =~= self.tasks@);
        }
        out
    }

    /// Sets the due date of the target tasks and drops the marks; `Noop` when there is
    /// no target.
    fn due_date_action_at(&mut self, due_date: TaskDueDate, clock: &ViewClock) -> (a: Action)
        requires
            old(self).wf(),
            clock_fits(*clock, old(self).tasks@),
        ensures
            final(self).wf(),
            due_date_handled(*old(self), *final(self), due_date, *clock, a),
    {
        let targets = self.target_tasks();
        if targets.len() == 0 {
            return Action::Noop;
        }
        let mut ids: Vec<u128> = Vec::new();
        let mut i: usize = 0;
        while i < targets.len()
            invariant
                i <= targets@.len(),
                ids@ == targets@.take(i as int).map_values(|t: task::Model| t.uuid),
            decreases targets@.len() - i,
        {
            ids.push(targets[i].uuid);
            proof {
                assert(targets@.take(i + 1).map_values(|t: task::Model| t.uuid) =~= targets@.take(i as int).map_values(
                    |t: task::Model| t.uuid,
                ).push(targets@[i as int].uuid));
            }
            i = i + 1;
        }
        proof {
            assert(targets@.take(i as int) =~= targets@);
        }
        self.clear_marked_tasks_at(clock);
        Action::SetTasksDueDate { task_ids: ids, due_date }
    }
}

/// The effect of a due-date key: with targets, the marks are dropped and their
/// identifiers are sent in list order; without, nothing happens.
pub open spec fn due_date_handled(b: TaskListComponent, a: TaskListComponent, due: TaskDueDate, clock: ViewClock, r: Action) -> bool {
    let targets = target_tasks_of(b);
    if targets.len() == 0 {
        r is Noop && a == b
    } else {
        &&& r matches Action::SetTasksDueDate { task_ids, due_date }
            && task_ids@ == targets.map_values(|t: task::Model| t.uuid) && due_date == due
        &&& (b.marked_task_ids@.len() > 0 ==> rebuilt(b, a, Seq::empty(), clock))
        &&& (b.marked_task_ids@.len() == 0 ==> a == b)
    }
}

/// What a key does to the task list and which action it asks for.
pub open spec fn key_handled(b: TaskListComponent, a: TaskListComponent, key: Key, clock: ViewClock, r: Action) -> bool {
    match key {
        Key::Char(c) => char_key_handled(b, a, c, clock, r),
        Key::Esc => if b.marked_task_ids@.len() > 0 {
            r is Consumed && rebuilt(b, a, Seq::empty(), clock)
        } else {
            r is Noop && a == b
        },
        Key::Up => r is Noop && moved(b, a, false),
        Key::Down => r is Noop && moved(b, a, true),
        Key::Enter => a == b && match selected_task(b) {
            Some(t) => r matches Action::ShowDialog(DialogType::TaskDetails { task }) && *task == t,
            None => r is Noop,
        },
        Key::Delete => a == b && delete_key_action(b, r),
        _ => r is Noop && a == b,
    }
}

/// `d` or Delete on the selected task: restore it when deleted, else confirm deletion.
pub open spec fn delete_key_action(b: TaskListComponent, r: Action) -> bool {
    match selected_task(b) {
        Some(t) => if t.is_deleted {
            r == Action::RestoreTask(t.uuid)
        } else {
            r matches Action::ShowDialog(DialogType::DeleteConfirmation { item_type, item_uuid })
                && item_type@ == "task"@ && item_uuid == t.uuid
        },
        None => r is Noop,
    }
}

/// What a character key does.
pub open spec fn char_key_handled(b: TaskListComponent, a: TaskListComponent, c: char, clock: ViewClock, r: Action) -> bool {
    if c == 'x' {
        r is Noop && match selected_task(b) {
            Some(t) => rebuilt(b, a, toggled(b.marked_task_ids@, t.uuid), clock),
            None => a == b,
        }
    } else if c == 'k' {
        r is Noop && moved(b, a, false)
    } else if c == 'j' {
        r is Noop && moved(b, a, true)
    } else if c == ' ' {
        &&& (target_tasks_of(b).len() == 0 ==> r is Noop)
        &&& (target_tasks_of(b).len() > 0 ==> (r matches Action::ToggleTasks(entries)
            && entries@ == toggle_entries(target_tasks_of(b))))
        &&& (b.marked_task_ids@.len() > 0 ==> rebuilt(b, a, Seq::empty(), clock))
        &&& (b.marked_task_ids@.len() == 0 ==> a == b)
    } else if c == 'u' {
        due_date_handled(b, a, TaskDueDate::Unscheduled, clock, r)
    } else if c == 't' {
        due_date_handled(b, a, TaskDueDate::Today, clock, r)
    } else if c == 'T' {
        due_date_handled(b, a, TaskDueDate::Tomorrow, clock, r)
    } else if c == 'w' {
        due_date_handled(b, a, TaskDueDate::NextWeek, clock, r)
    } else if c == 'W' {
        due_date_handled(b, a, TaskDueDate::Weekend, clock, r)
    } else if c == 's' && b.sidebar_selection == SidebarSelection::Agenda {
        a == b && match selected_task(b) {
            Some(t) => r matches Action::ShowDialog(DialogType::TaskTime { task_uuid, current_time })
                && task_uuid == t.uuid && (t.due_datetime is None ==> current_time is None),
            None => r is Noop,
        }
    } else if c == 'a' {
        a == b && if b.sidebar_selection == SidebarSelection::Trash {
            r is Noop
        } else {
            r matches Action::ShowDialog(DialogType::TaskCreation { default_project_uuid, default_due_date, default_label_uuid })
                && default_project_uuid == (match b.sidebar_selection {
                    SidebarSelection::Project(p) => Some(p),
                    _ => None,
                })
                && default_label_uuid == (match b.sidebar_selection {
                    SidebarSelection::Label(l) => Some(l),
                    _ => None,
                })
                && opt_text(default_due_date) == (match b.sidebar_selection {
                    SidebarSelection::Today => Some(ymd_text(clock.today as int)),
                    SidebarSelection::Agenda => Some(ymd_text(clock.today as int)),
                    SidebarSelection::Tomorrow => Some(ymd_text(clock.today + 1)),
                    _ => None,
                })
        }
    } else if c == 'e' {
        a == b && match selected_task(b) {
            Some(t) => r matches Action::ShowDialog(DialogType::TaskEdit { task_uuid, content, project_uuid })
                && task_uuid == t.uuid && content@ == t.content@ && project_uuid == t.project_uuid,
            None => r is Noop,
        }
    } else if c == 'd' {
        a == b && delete_key_action(b, r)
    } else if c == 'p' {
        a == b && match selected_task(b) {
            Some(t) => r == Action::CyclePriority(t.uuid),
            None => r is Noop,
        }
    } else {
        r is Noop && a == b
    }
}

impl TaskListComponent {
    /// The edit dialog for the selected task.
    fn selected_dialog_edit(&self) -> (r: Action)
        requires
            self.wf(),
        ensures
            match selected_task(*self) {
                Some(t) => r matches Action::ShowDialog(DialogType::TaskEdit { task_uuid, content, project_uuid })
                    && task_uuid == t.uuid && content@ == t.content@ && project_uuid == t.project_uuid,
                None => r is Noop,
            },
    {
        match self.get_selected_task() {
            Some(t) => Action::ShowDialog(
                DialogType::TaskEdit { task_uuid: t.uuid, content: t.content.clone(), project_uuid: t.project_uuid },
            ),
            None => Action::Noop,
        }
    }

    fn delete_key(&self) -> (r: Action)
        requires
            self.wf(),
        ensures
            delete_key_action(*self, r),
    {
        match self.get_selected_task() {
            Some(t) => if t.is_deleted {
                Action::RestoreTask(t.uuid)
            } else {
                Action::ShowDialog(DialogType::DeleteConfirmation { item_type: String::from_str("task"), item_uuid: t.uuid })
            },
            None => Action::Noop,
        }
    }

    fn creation_dialog(&self, clock: &ViewClock) -> (r: Action)
        requires
            -0x4000_0000 < clock.today < 0x4000_0000,
        ensures
            r matches Action::ShowDialog(DialogType::TaskCreation { default_project_uuid, default_due_date, default_label_uuid })
                && default_project_uuid == (match self.sidebar_selection {
                    SidebarSelection::Project(p) => Some(p),
                    _ => None,
                })
                && default_label_uuid == (match self.sidebar_selection {
                    SidebarSelection::Label(l) => Some(l),
                    _ => None,
                })
                && opt_text(default_due_date) == (match self.sidebar_selection {
                    SidebarSelection::Today => Some(ymd_text(clock.today as int)),
                    SidebarSelection::Agenda => Some(ymd_text(clock.today as int)),
                    SidebarSelection::Tomorrow => Some(ymd_text(clock.today + 1)),
                    _ => None,
                }),
    {
        let default_project_uuid = match self.sidebar_selection {
            SidebarSelection::Project(p) => Some(p),
            _ => None,
        };
        let default_due_date = match self.sidebar_selection {
            SidebarSelection::Today => Some(format_ymd(clock.today)),
            SidebarSelection::Agenda => Some(format_ymd(clock.today)),
            SidebarSelection::Tomorrow => Some(format_ymd(clock.today + 1)),
            _ => None,
        };
        let default_label_uuid = match self.sidebar_selection {
            SidebarSelection::Label(l) => Some(l),
            _ => None,
        };
        Action::ShowDialog(DialogType::TaskCreation { default_project_uuid, default_due_date, default_label_uuid })
    }

    /// Handles a key under the given clock readings.
    pub fn handle_key_events_at(&mut self, key: Key, clock: &ViewClock) -> (r: Action)
        requires
            old(self).wf(),
            clock_fits(*clock, old(self).tasks@),
        ensures
            final(self).wf(),
            key_handled(*old(self), *final(self), key, *clock, r),
    {
        match key {
            Key::Esc => {
                if self.marked_task_ids.len() > 0 {
                    self.clear_marked_tasks_at(clock);
                    Action::Consumed
                } else {
                    Action::Noop
                }
            },
            Key::Up => {
                self.previous_task();
                Action::Noop
            },
            Key::Down => {
                self.next_task();
                Action::Noop
            },
            Key::Enter => match self.get_selected_task() {
                Some(t) => Action::ShowDialog(DialogType::TaskDetails { task: Box::new(t.duplicate()) }),
                None => Action::Noop,
            },
            Key::Delete => self.delete_key(),
            Key::Char(c) => {
                if c == 'x' {
                    self.toggle_current_task_mark_at(clock);
                    Action::Noop
                } else if c == 'k' {
                    self.previous_task();
                    Action::Noop
                } else if c == 'j' {
                    self.next_task();
                    Action::Noop
                } else if c == ' ' {
                    let targets = self.target_tasks();
                    let action = Action::toggle_tasks(targets.as_slice());
                    self.clear_marked_tasks_at(clock);
                    action
                } else if c == 'u' {
                    self.due_date_action_at(TaskDueDate::Unscheduled, clock)
                } else if c == 't' {
                    self.due_date_action_at(TaskDueDate::Today, clock)
                } else if c == 'T' {
                    self.due_date_action_at(TaskDueDate::Tomorrow, clock)
                } else if c == 'w' {
                    self.due_date_action_at(TaskDueDate::NextWeek, clock)
                } else if c == 'W' {
                    self.due_date_action_at(TaskDueDate::Weekend, clock)
                } else if c == 's' && self.sidebar_selection == SidebarSelection::Agenda {
                    match self.get_selected_task() {
                        Some(t) => {
                            let current_time = match &t.due_datetime {
                                Some(text) => match parse_task_datetime(text.as_str()) {
                                    Some(v) => Some(time_of_day_label(v as i128)),
                                    None => None,
                                },
                                None => None,
                            };
                            Action::ShowDialog(DialogType::TaskTime { task_uuid: t.uuid, current_time })
                        },
                        None => Action::Noop,
                    }
                } else if c == 'a' {
                    if self.sidebar_selection == SidebarSelection::Trash {
                        Action::Noop
                    } else {
                        self.creation_dialog(clock)
                    }
                } else if c == 'e' {
                    self.selected_dialog_edit()
                } else if c == 'd' {
                    self.delete_key()
                } else if c == 'p' {
                    match self.get_selected_task() {
                        Some(t) => Action::CyclePriority(t.uuid),
                        None => Action::Noop,
                    }
                } else {
                    Action::Noop
                }
            },
            _ => Action::Noop,
        }
    }

    /// Handles a key at the current time.
    pub fn handle_key_events(&mut self, key: Key) -> (r: Action)
        requires
            old(self).wf(),
        ensures
            final(self).wf(),
            exists|clock: ViewClock| clock_fits(clock, old(self).tasks@) && key_handled(*old(self), *final(self), key, clock, r),
    {
        let clock = self.read_clock();
        self.handle_key_events_at(key, &clock)
    }

    /// Moves the selection for `NextTask` and `PreviousTask`; passes other actions on.
    pub fn update(&mut self, action: Action) -> (r: Action)
        requires
            old(self).wf(),
        ensures
            final(self).wf(),
            action is NextTask ==> r is Noop && moved(*old(self), *final(self), true),
            action is PreviousTask ==> r is Noop && moved(*old(self), *final(self), false),
            !(action is NextTask || action is PreviousTask) ==> r == action && *final(self) == *old(self),
    {
        match action {
            Action::NextTask => {
                self.next_task();
                Action::Noop
            },
            Action::PreviousTask => {
                self.previous_task();
                Action::Noop
            },
            _ => action,
        }
    }
}

/// The kind of a mouse event, as the task list reads it.
#[derive(Debug, Clone, Copy, PartialEq, Eq, Structural)]
pub enum MouseKind {
    LeftDown,
    LeftUp,
    Drag,
    ScrollUp,
    ScrollDown,
    Other,
}

/// A mouse event: its kind and the cell it happened in.
#[derive(Debug, Clone, Copy)]
pub struct Mouse {
    pub kind: MouseKind,
    pub column: u16,
    pub row: u16,
}

/// A rectangle of terminal cells.
#[derive(Debug, Clone, Copy)]
pub struct Area {
    pub x: u16,
    pub y: u16,
    pub width: u16,
    pub height: u16,
}

/// Whether a cell lies inside an area.
pub open spec fn in_area(m: Mouse, area: Area) -> bool {
    area.x <= m.column < area.x + area.width && area.y <= m.row < area.y + area.height
}

/// The row that a click lands on: the list shows rows from its offset on, below the
/// top border.
pub open spec fn clicked_row(c: TaskListComponent, m: Mouse, area: Area) -> Option<int> {
    if area.y < m.row < area.y + area.height - 1 {
        Some(c.list_offset + (m.row - area.y - 1))
    } else {
        None
    }
}

/// What a mouse event does to the task list.
pub open spec fn mouse_handled(b: TaskListComponent, a: TaskListComponent, m: Mouse, area: Area) -> bool {
    if !in_area(m, area) {
        a == b
    } else {
        match m.kind {
            MouseKind::LeftDown => match clicked_row(b, m, area) {
                Some(p) => match physical_to_logical_spec(b.items@, p) {
                    Some(k) => {
                        &&& a.selected_index == k
                        &&& a.items == b.items
                        &&& a.marked_task_ids == b.marked_task_ids
                        &&& a.tasks == b.tasks
                        &&& a.sidebar_selection == b.sidebar_selection
                        &&& a.list_offset == b.list_offset
                        &&& a.selection_consistent()
                    },
                    None => a == b,
                },
                None => a == b,
            },
            MouseKind::ScrollUp => moved(b, a, false),
            MouseKind::ScrollDown => moved(b, a, true),
            MouseKind::LeftUp | MouseKind::Drag | MouseKind::Other => a == b,
        }
    }
}

impl TaskListComponent {
    /// Handles a mouse event over the list's area: a click selects the task row under
    /// it, the wheel moves the selection.
    pub fn handle_mouse(&mut self, mouse: Mouse, area: Area) -> (r: Action)
        requires
            old(self).wf(),
        ensures
            final(self).wf(),
            r is Noop,
            mouse_handled(*old(self), *final(self), mouse, area),
    {
        let column = mouse.column as u32;
        let row = mouse.row as u32;
        let x = area.x as u32;
        let y = area.y as u32;
        let inside = column >= x && column < x + area.width as u32 && row >= y && row < y + area.height as u32;
        if !inside {
            return Action::Noop;
        }
        match mouse.kind {
            MouseKind::LeftDown => {
                if row > y && row + 1 < y + area.height as u32 {
                    let local = (row - y - 1) as usize;
                    let len = self.items.len();
                    if self.list_offset > usize::MAX - local {
                        proof {
                            assert(self.list_offset + local > len);
                        }
                        return Action::Noop;
                    }
                    let clicked = self.list_offset + local;
                    if clicked >= self.items.len() {
                        return Action::Noop;
                    }
                    match self.physical_to_logical_index(clicked) {
                        Some(k) => {
                            proof {
                                lemma_selectable_before_monotone(self.items@, clicked + 1, self.items@.len() as int);
                            }
                            self.selected_index = k;
                            self.update_list_state();
                        },
                        None => {},
                    }
                }
                Action::Noop
            },
            MouseKind::ScrollUp => {
                self.previous_task();
                Action::Noop
            },
            MouseKind::ScrollDown => {
                self.next_task();
                Action::Noop
            },
            MouseKind::LeftUp | MouseKind::Drag | MouseKind::Other => Action::Noop,
        }
    }
}

} // verus!
