//! The register of background work: what runs, whether it blocks input and which task
//! it concerns, and what each kind of work reports when it ends.

use vstd::prelude::*;
use crate::ai::text_equals;
use crate::entities::task;
use crate::ext::push_char;
use crate::sync::SyncStatus;
use crate::ui::app_core::actions::{Action, DialogType, NavigationCounts, SidebarSelection};
use crate::ui::app_core::view_snapshot::ViewSnapshot;
use crate::ui::components::dialogs::common::chars_of;
use crate::ui::components::task_list_component::{due_day, task_due_day};

verus! {

/// The identifier of a piece of background work.
pub type TaskId = u64;

/// The description of a data load.
pub open spec fn loading_text() -> Seq<char> {
    "Loading data from storage"@
}

/// A registered piece of background work.
#[derive(Debug)]
pub struct BackgroundTask {
    pub id: TaskId,
    pub description: String,
    pub blocks_input: bool,
    pub task_uuid: Option<u128>,
}

/// What a piece of background work produced.
#[derive(Debug, Clone)]
pub enum TaskResult {
    SyncCompleted(SyncStatus),
    SyncFailed(String),
    TaskOperationCompleted(String),
    DataLoadCompleted(Box<ViewSnapshot>),
    SearchCompleted { query: String, results: Vec<task::Model> },
    Other(String),
}

/// The register of background work.
pub struct TaskManager {
    pub tasks: Vec<BackgroundTask>,
    pub next_task_id: TaskId,
}

/// A registered piece of work as the specification reads it.
pub open spec fn entry(t: BackgroundTask) -> (TaskId, Seq<char>, bool, Option<u128>) {
    (t.id, t.description@, t.blocks_input, t.task_uuid)
}

/// The register as the specification reads it.
pub open spec fn entries(ts: Seq<BackgroundTask>) -> Seq<(TaskId, Seq<char>, bool, Option<u128>)> {
    ts.map_values(|t: BackgroundTask| entry(t))
}

/// Whether `part` occurs in `text`.
pub open spec fn contains_text(text: Seq<char>, part: Seq<char>) -> bool {
    exists|i: int| 0 <= i <= text.len() - part.len() && #[trigger] text.subrange(i, i + part.len()) == part
}

/// Whether a description is one of the routine ones that do not count as processing:
/// loading, the background sync, and searches.
pub open spec fn routine(d: Seq<char>) -> bool {
    d == loading_text() || d == "Background sync"@ || (d.len() >= 16 && d.subrange(0, 16) == "Searching tasks "@)
        || (d.len() >= 16 && d.subrange(0, 16) == "Searching tasks:"@)
}

/// The first non-routine description, if any.
pub open spec fn first_processing(ts: Seq<BackgroundTask>) -> Option<Seq<char>>
    decreases ts.len(),
{
    if ts.len() == 0 {
        None
    } else if !routine(ts[0].description@) {
        Some(ts[0].description@)
    } else {
        first_processing(ts.drop_first())
    }
}

impl TaskManager {
    /// An empty register; identifiers start at one.
    pub fn new() -> (m: Self)
        ensures
            m.tasks@.len() == 0,
            m.next_task_id == 1,
    {
        TaskManager { tasks: Vec::new(), next_task_id: 1 }
    }

    /// Registers a piece of work under the next identifier.
    pub fn register(&mut self, description: String, blocks_input: bool, task_uuid: Option<u128>) -> (id: TaskId)
        ensures
            id == old(self).next_task_id,
            final(self).next_task_id == old(self).next_task_id.wrapping_add(1),
            entries(final(self).tasks@) == entries(old(self).tasks@).push((id, description@, blocks_input, task_uuid)),
    {
        let id = self.next_task_id;
        self.next_task_id = self.next_task_id.wrapping_add(1);
        let ghost before = self.tasks@;
        self.tasks.push(BackgroundTask { id, description, blocks_input, task_uuid });
        proof {
            assert(entries(self.tasks@) =~= entries(before).push((id, self.tasks@.last().description@, blocks_input, task_uuid)));
        }
        id
    }

    /// Registers the background sync; it leaves input free.
    pub fn spawn_sync(&mut self) -> (id: TaskId)
        ensures
            id == old(self).next_task_id,
            final(self).next_task_id == old(self).next_task_id.wrapping_add(1),
            entries(final(self).tasks@) == entries(old(self).tasks@).push((id, "Background sync"@, false, None)),
    {
        self.register(String::from_str("Background sync"), false, None)
    }

    /// Registers a data operation that blocks mutations until it ends.
    pub fn spawn_task_operation(&mut self, description: String) -> (id: TaskId)
        ensures
            id == old(self).next_task_id,
            final(self).next_task_id == old(self).next_task_id.wrapping_add(1),
            entries(final(self).tasks@) == entries(old(self).tasks@).push((id, description@, true, None)),
    {
        self.register(description, true, None)
    }

    /// Registers an operation on one task that leaves input free.
    pub fn spawn_non_blocking_task_operation(&mut self, task_uuid: u128, description: String) -> (id: TaskId)
        ensures
            id == old(self).next_task_id,
            final(self).next_task_id == old(self).next_task_id.wrapping_add(1),
            entries(final(self).tasks@) == entries(old(self).tasks@).push((id, description@, false, Some(task_uuid))),
    {
        self.register(description, false, Some(task_uuid))
    }

    /// Registers the application of an AI proposal to a task.
    pub fn spawn_ai_assist_operation(&mut self, task_uuid: u128) -> (id: TaskId)
        ensures
            id == old(self).next_task_id,
            final(self).next_task_id == old(self).next_task_id.wrapping_add(1),
            entries(final(self).tasks@) == entries(old(self).tasks@).push(
                (id, "Applying AI task-management proposal"@, true, Some(task_uuid)),
            ),
    {
        self.register(String::from_str("Applying AI task-management proposal"), true, Some(task_uuid))
    }

    /// Registers the generation of an AI proposal for a task.
    pub fn spawn_ai_proposal_generation(&mut self, task_uuid: u128) -> (id: TaskId)
        ensures
            id == old(self).next_task_id,
            final(self).next_task_id == old(self).next_task_id.wrapping_add(1),
            entries(final(self).tasks@) == entries(old(self).tasks@).push(
                (id, "Generating AI task-management proposal"@, true, Some(task_uuid)),
            ),
    {
        self.register(String::from_str("Generating AI task-management proposal"), true, Some(task_uuid))
    }

    /// Registers the revision of an AI proposal for a task.
    pub fn spawn_ai_proposal_revision(&mut self, task_uuid: u128) -> (id: TaskId)
        ensures
            id == old(self).next_task_id,
            final(self).next_task_id == old(self).next_task_id.wrapping_add(1),
            entries(final(self).tasks@) == entries(old(self).tasks@).push(
                (id, "Revising AI task-management proposal"@, true, Some(task_uuid)),
            ),
    {
        self.register(String::from_str("Revising AI task-management proposal"), true, Some(task_uuid))
    }

    /// Registers a load of cached data; it blocks mutations until it ends.
    pub fn spawn_data_load(&mut self) -> (id: TaskId)
        ensures
            id == old(self).next_task_id,
            final(self).next_task_id == old(self).next_task_id.wrapping_add(1),
            entries(final(self).tasks@) == entries(old(self).tasks@).push((id, loading_text(), true, None)),
    {
        self.register(String::from_str("Loading data from storage"), true, None)
    }

    /// Registers a search; it leaves input free.
    pub fn spawn_task_search(&mut self, query: &str) -> (id: TaskId)
        ensures
            id == old(self).next_task_id,
            final(self).next_task_id == old(self).next_task_id.wrapping_add(1),
            entries(final(self).tasks@) == entries(old(self).tasks@).push(
                (id, "Searching tasks: '"@ + query@ + "'"@, false, None),
            ),
    {
        let mut d = String::from_str("Searching tasks: '");
        d.append(query);
        push_char(&mut d, '\'');
        proof {
            reveal_strlit("'");
            assert(d@ =~= "Searching tasks: '"@ + query@ + "'"@);
        }
        self.register(d, false, None)
    }

    /// Removes the finished work and gives its identifiers, in register order.
    pub fn cleanup_finished_tasks(&mut self, finished: &Vec<TaskId>) -> (removed: Vec<TaskId>)
        ensures
            final(self).next_task_id == old(self).next_task_id,
            entries(final(self).tasks@) == entries(old(self).tasks@).filter(unfinished(finished@)),
            removed@ == entries(old(self).tasks@).filter(finished_in(finished@)).map_values(
                |e: (TaskId, Seq<char>, bool, Option<u128>)| e.0,
            ),
    {
        let ghost es = entries(self.tasks@);
        let mut removed: Vec<TaskId> = Vec::new();
        let mut kept: Vec<BackgroundTask> = Vec::new();
        let mut i: usize = 0;
        while i < self.tasks.len()
            invariant
                i <= self.tasks@.len(),
                es == entries(self.tasks@),
                entries(kept@) == es.take(i as int).filter(unfinished(finished@)),
                removed@ == es.take(i as int).filter(finished_in(finished@)).map_values(
                    |e: (TaskId, Seq<char>, bool, Option<u128>)| e.0,
                ),
            decreases self.tasks@.len() - i,
        {
            let t = &self.tasks[i];
            let ghost et = entry(*t);
            proof {
                assert(es[i as int] == et);
                assert(es.take(i + 1) =~= es.take(i as int).push(et));
                es.take(i as int).lemma_filter_push(et, unfinished(finished@));
                es.take(i as int).lemma_filter_push(et, finished_in(finished@));
            }
            let done = contains_task_id(finished, t.id);
            if done {
                let ghost before = removed@;
                removed.push(t.id);
                proof {
                    assert(es.take(i as int).filter(finished_in(finished@)).push(et).map_values(
                        |e: (TaskId, Seq<char>, bool, Option<u128>)| e.0,
                    ) =~= before.push(t.id));
                }
            } else {
                let ghost before = entries(kept@);
                kept.push(
                    BackgroundTask {
                        id: t.id,
                        description: t.description.clone(),
                        blocks_input: t.blocks_input,
                        task_uuid: t.task_uuid,
                    },
                );
                proof {
                    assert(entries(kept@) =~= before.push(et));
                }
            }
            i = i + 1;
        }
        proof {
            assert(es.take(i as int) =~= es);
        }
        self.tasks = kept;
        removed
    }

    /// Whether some registered work mentions a sync in its description.
    pub fn is_syncing(&self) -> (b: bool)
        ensures
            b == exists|k: int| 0 <= k < self.tasks@.len() && contains_text(#[trigger] self.tasks@[k].description@, "sync"@),
    {
        let mut i: usize = 0;
        while i < self.tasks.len()
            invariant
                i <= self.tasks@.len(),
                forall|k: int| 0 <= k < i ==> !contains_text(#[trigger] self.tasks@[k].description@, "sync"@),
            decreases self.tasks@.len() - i,
        {
            if text_contains(&self.tasks[i].description, "sync") {
                return true;
            }
            i = i + 1;
        }
        false
    }

    /// Whether some registered work blocks input.
    pub fn has_blocking_work(&self) -> (b: bool)
        ensures
            b == exists|k: int| 0 <= k < self.tasks@.len() && #[trigger] self.tasks@[k].blocks_input,
    {
        let mut i: usize = 0;
        while i < self.tasks.len()
            invariant
                i <= self.tasks@.len(),
                forall|k: int| 0 <= k < i ==> !#[trigger] self.tasks@[k].blocks_input,
            decreases self.tasks@.len() - i,
        {
            if self.tasks[i].blocks_input {
                return true;
            }
            i = i + 1;
        }
        false
    }

    /// Whether some registered work concerns the task.
    pub fn has_pending_operation_for_task(&self, task_uuid: u128) -> (b: bool)
        ensures
            b == exists|k: int| 0 <= k < self.tasks@.len() && #[trigger] self.tasks@[k].task_uuid == Some(task_uuid),
    {
        let mut i: usize = 0;
        while i < self.tasks.len()
            invariant
                i <= self.tasks@.len(),
                forall|k: int| 0 <= k < i ==> #[trigger] self.tasks@[k].task_uuid != Some(task_uuid),
            decreases self.tasks@.len() - i,
        {
            match self.tasks[i].task_uuid {
                Some(u) => if u == task_uuid {
                    return true;
                },
                None => {},
            }
            i = i + 1;
        }
        false
    }

    /// What the interface says is being processed: the first registered work that is
    /// not routine, else "Refreshing tasks" while data loads, else nothing.
    pub fn processing_description(&self) -> (r: Option<String>)
        ensures
            opt_chars(r) == match first_processing(self.tasks@) {
                Some(d) => Some(d),
                None => if exists|k: int| 0 <= k < self.tasks@.len() && #[trigger] self.tasks@[k].description@ == loading_text() {
                    Some("Refreshing tasks"@)
                } else {
                    None
                },
            },
    {
        let mut i: usize = 0;
        let mut loading = false;
        proof {
            assert(self.tasks@.skip(0) =~= self.tasks@);
        }
        while i < self.tasks.len()
            invariant
                i <= self.tasks@.len(),
                first_processing(self.tasks@) == first_processing(self.tasks@.skip(i as int)),
                loading == exists|k: int| 0 <= k < i && #[trigger] self.tasks@[k].description@ == loading_text(),
            decreases self.tasks@.len() - i,
        {
            let d = &self.tasks[i].description;
            proof {
                assert(self.tasks@.skip(i as int)[0] == self.tasks@[i as int]);
                assert(self.tasks@.skip(i as int).drop_first() =~= self.tasks@.skip(i + 1));
                reveal_strlit("Loading data from storage");
                reveal_strlit("Background sync");
                reveal_strlit("Searching tasks ");
                reveal_strlit("Searching tasks:");
            }
            if !is_routine(d) {
                return Some(d.clone());
            }
            if text_equals(d, "Loading data from storage") {
                loading = true;
            }
            i = i + 1;
        }
        if loading {
            Some(String::from_str("Refreshing tasks"))
        } else {
            None
        }
    }

    /// Forgets all registered work and gives the identifiers to cancel.
    pub fn cancel_all_tasks(&mut self) -> (ids: Vec<TaskId>)
        ensures
            final(self).tasks@.len() == 0,
            final(self).next_task_id == old(self).next_task_id,
            ids@ == entries(old(self).tasks@).map_values(|e: (TaskId, Seq<char>, bool, Option<u128>)| e.0),
    {
        let mut ids: Vec<TaskId> = Vec::new();
        let mut i: usize = 0;
        while i < self.tasks.len()
            invariant
                i <= self.tasks@.len(),
                ids@ == entries(self.tasks@).take(i as int).map_values(|e: (TaskId, Seq<char>, bool, Option<u128>)| e.0),
            decreases self.tasks@.len() - i,
        {
            proof {
                assert(entries(self.tasks@).take(i + 1) =~= entries(self.tasks@).take(i as int).push(entries(self.tasks@)[i as int]));
            }
            ids.push(self.tasks[i].id);
            proof {
                assert(entries(self.tasks@).take(i + 1).map_values(|e: (TaskId, Seq<char>, bool, Option<u128>)| e.0)
                    =~= ids@);
            }
            i = i + 1;
        }
        proof {
            assert(entries(self.tasks@).take(i as int) =~= entries(self.tasks@));
        }
        self.tasks = Vec::new();
        ids
    }

    /// The number of registered pieces of work.
    pub fn task_count(&self) -> (n: usize)
        ensures
            n == self.tasks@.len(),
    {
        self.tasks.len()
    }
}

/// Whether a piece of work is not among the finished ones.
pub open spec fn unfinished(finished: Seq<TaskId>) -> spec_fn((TaskId, Seq<char>, bool, Option<u128>)) -> bool {
    |e: (TaskId, Seq<char>, bool, Option<u128>)| !finished.contains(e.0)
}

/// Whether a piece of work is among the finished ones.
pub open spec fn finished_in(finished: Seq<TaskId>) -> spec_fn((TaskId, Seq<char>, bool, Option<u128>)) -> bool {
    |e: (TaskId, Seq<char>, bool, Option<u128>)| finished.contains(e.0)
}

/// Registering a piece of work and then cleaning it up as finished leaves the register
/// as it was, where no registered work had its identifier.
pub proof fn lemma_register_then_finish(es: Seq<(TaskId, Seq<char>, bool, Option<u128>)>, e: (TaskId, Seq<char>, bool, Option<u128>))
    requires
        forall|i: int| 0 <= i < es.len() ==> (#[trigger] es[i]).0 != e.0,
    ensures
        es.push(e).filter(unfinished(seq![e.0])) == es,
    decreases es.len(),
{
    let f = unfinished(seq![e.0]);
    es.lemma_filter_push(e, f);
    assert(seq![e.0].contains(e.0)) by {
        assert(seq![e.0][0] == e.0);
    }
    lemma_filter_none_finished(es, e.0);
}

/// Cleaning up an identifier that no registered work has keeps every entry.
proof fn lemma_filter_none_finished(es: Seq<(TaskId, Seq<char>, bool, Option<u128>)>, id: TaskId)
    requires
        forall|i: int| 0 <= i < es.len() ==> (#[trigger] es[i]).0 != id,
    ensures
        es.filter(unfinished(seq![id])) == es,
    decreases es.len(),
{
    reveal(Seq::filter);
    if es.len() > 0 {
        let rest = es.drop_last();
        assert forall|i: int| 0 <= i < rest.len() implies (#[trigger] rest[i]).0 != id by {
            assert(rest[i] == es[i]);
        }
        lemma_filter_none_finished(rest, id);
        assert(!seq![id].contains(es.last().0)) by {
            if seq![id].contains(es.last().0) {
                let k = choose|k: int| 0 <= k < 1 && seq![id][k] == es.last().0;
                assert(es[es.len() - 1].0 != id);
            }
        }
        assert(rest.push(es.last()) =~= es);
    }
}

/// An optional text as characters.
pub open spec fn opt_chars(s: Option<String>) -> Option<Seq<char>> {
    match s {
        Some(t) => Some(t@),
        None => None,
    }
}

fn contains_task_id(ids: &Vec<TaskId>, id: TaskId) -> (b: bool)
    ensures
        b == ids@.contains(id),
{
    let mut i: usize = 0;
    while i < ids.len()
        invariant
            i <= ids@.len(),
            forall|k: int| 0 <= k < i ==> ids@[k] != id,
        decreases ids@.len() - i,
    {
        if ids[i] == id {
            return true;
        }
        i = i + 1;
    }
    false
}

/// Whether `p` occurs in `t` at `i`.
fn matches_at(t: &Vec<char>, p: &Vec<char>, i: usize) -> (b: bool)
    requires
        i + p@.len() <= t@.len(),
    ensures
        b == (t@.subrange(i as int, i + p@.len()) == p@),
{
    let tn = t.len();
    let mut k: usize = 0;
    while k < p.len()
        invariant
            k <= p@.len(),
            i + p@.len() <= t@.len(),
            t@.len() == tn,
            forall|q: int| 0 <= q < k ==> t@[i + q] == p@[q],
        decreases p@.len() - k,
    {
        if t[i + k] != p[k] {
            proof {
                assert(t@.subrange(i as int, i + p@.len())[k as int] != p@[k as int]);
            }
            return false;
        }
        k = k + 1;
    }
    proof {
        assert(t@.subrange(i as int, i + p@.len()) =~= p@);
    }
    true
}

/// Whether `part` occurs in `text`.
fn text_contains(text: &String, part: &str) -> (b: bool)
    ensures
        b == contains_text(text@, part@),
{
    let t = chars_of(text.as_str());
    let p = chars_of(part);
    if p.len() > t.len() {
        proof {
            assert(!contains_text(text@, part@));
        }
        return false;
    }
    let limit = t.len() - p.len();
    let mut i: usize = 0;
    while i < limit
        invariant
            t@ == text@,
            p@ == part@,
            limit == t@.len() - p@.len(),
            i <= limit,
            forall|j: int| 0 <= j < i ==> #[trigger] t@.subrange(j, j + p@.len()) != p@,
        decreases limit - i,
    {
        if matches_at(&t, &p, i) {
            return true;
        }
        i = i + 1;
    }
    let last = matches_at(&t, &p, limit);
    proof {
        if !last {
            assert forall|j: int| 0 <= j <= t@.len() - p@.len() implies #[trigger] t@.subrange(j, j + p@.len()) != p@ by {
                if j < i {
                } else {
                    assert(j == limit);
                }
            }
        }
    }
    last
}

/// Whether a description is routine; see `routine`.
fn is_routine(d: &String) -> (b: bool)
    ensures
        b == routine(d@),
{
    if text_equals(d, "Loading data from storage") || text_equals(d, "Background sync") {
        return true;
    }
    let c = chars_of(d.as_str());
    if c.len() < 16 {
        return false;
    }
    let mut prefix = String::new();
    let mut i: usize = 0;
    while i < 16
        invariant
            i <= 16,
            c@ == d@,
            c@.len() >= 16,
            prefix@ == c@.subrange(0, i as int),
        decreases 16 - i,
    {
        push_char(&mut prefix, c[i]);
        proof {
            assert(c@.subrange(0, i + 1) =~= c@.subrange(0, i as int).push(c@[i as int]));
        }
        i = i + 1;
    }
    text_equals(&prefix, "Searching tasks ") || text_equals(&prefix, "Searching tasks:")
}

/// What a finished data operation reports: a refresh, and a return to Today after a
/// project is deleted or the trash is emptied; a failure is shown instead.
pub open spec fn operation_outcome_spec(description: Seq<char>, result: Result<Seq<char>, Seq<char>>) -> Seq<Action> {
    match result {
        Ok(_) => seq![Action::RefreshData]
            + (if description.len() >= 14 && description.subrange(0, 14) == "Delete project"@ {
                seq![Action::NavigateToSidebar(SidebarSelection::Today)]
            } else {
                Seq::empty()
            }) + (if description == "Empty trash"@ {
                seq![Action::NavigateToSidebar(SidebarSelection::Today)]
            } else {
                Seq::empty()
            }),
        Err(_) => Seq::empty(),
    }
}

/// The actions a finished data operation sends.
pub fn operation_outcome(description: &String, result: Result<String, String>) -> (r: Vec<Action>)
    ensures
        match result {
            Ok(m) => r@ == operation_outcome_spec(description@, Ok(m@)),
            Err(e) => r@.len() == 1 && (r@[0] matches Action::ShowDialog(DialogType::Error(text))
                && text@ == "Operation failed: "@ + e@),
        },
{
    let mut out: Vec<Action> = Vec::new();
    match result {
        Ok(_) => {
            out.push(Action::RefreshData);
            let c = chars_of(description.as_str());
            let mut is_delete = c.len() >= 14;
            if is_delete {
                let mut prefix = String::new();
                let mut i: usize = 0;
                while i < 14
                    invariant
                        i <= 14,
                        c@ == description@,
                        c@.len() >= 14,
                        prefix@ == c@.subrange(0, i as int),
                    decreases 14 - i,
                {
                    push_char(&mut prefix, c[i]);
                    proof {
                        assert(c@.subrange(0, i + 1) =~= c@.subrange(0, i as int).push(c@[i as int]));
                    }
                    i = i + 1;
                }
                is_delete = text_equals(&prefix, "Delete project");
            }
            let ghost first = out@;
            if is_delete {
                out.push(Action::NavigateToSidebar(SidebarSelection::Today));
            }
            let ghost second = out@;
            if text_equals(description, "Empty trash") {
                out.push(Action::NavigateToSidebar(SidebarSelection::Today));
            }
            proof {
                let spec = operation_outcome_spec(description@, Ok(Seq::<char>::empty()));
                assert(out@ =~= operation_outcome_spec(description@, Ok(Seq::<char>::empty())));
            }
        },
        Err(e) => {
            let mut text = String::from_str("Operation failed: ");
            text.append(e.as_str());
            out.push(Action::ShowDialog(DialogType::Error(text)));
        },
    }
    out
}

/// Whether a task is neither completed nor deleted.
pub open spec fn is_open_task(t: task::Model) -> bool {
    !t.is_completed && !t.is_deleted
}

/// The open tasks due on or before a day.
pub open spec fn due_by(t: task::Model, day: int) -> bool {
    due_day(t) matches Some(d) && d <= day
}

/// The open tasks due on a day.
pub open spec fn due_on(t: task::Model, day: int) -> bool {
    due_day(t) matches Some(d) && d == day
}

/// The test that a task is open.
pub open spec fn open_pred() -> spec_fn(task::Model) -> bool {
    |t: task::Model| is_open_task(t)
}

/// The test that a task is deleted.
pub open spec fn deleted_pred() -> spec_fn(task::Model) -> bool {
    |t: task::Model| t.is_deleted
}

/// The test that a task is due on or before a day.
pub open spec fn due_by_pred(day: int) -> spec_fn(task::Model) -> bool {
    |t: task::Model| due_by(t, day)
}

/// The test that a task is due on a day.
pub open spec fn due_on_pred(day: int) -> spec_fn(task::Model) -> bool {
    |t: task::Model| due_on(t, day)
}

/// The test that a task belongs to a project.
pub open spec fn in_project_pred(p: u128) -> spec_fn(task::Model) -> bool {
    |t: task::Model| t.project_uuid == p
}

/// The open tasks of a project.
pub open spec fn project_count(open: Seq<task::Model>, p: u128) -> nat {
    open.filter(in_project_pred(p)).len()
}

/// The navigation counts of the cached tasks on a day: open tasks due by today, due
/// tomorrow and due within ninety days, deleted tasks, open tasks per project; the
/// per-label counts are given.
pub open spec fn counts_match(c: NavigationCounts, all: Seq<task::Model>, today: int, labels: Seq<(u128, usize)>) -> bool {
    let open = all.filter(open_pred());
    &&& c.trash == all.filter(deleted_pred()).len()
    &&& c.today == open.filter(due_by_pred(today)).len()
    &&& c.tomorrow == open.filter(due_on_pred(today + 1)).len()
    &&& c.upcoming == open.filter(due_by_pred(today + 90)).len()
    &&& c.labels@ == labels
    &&& forall|j: int| 0 <= j < c.projects@.len() ==> #[trigger] c.projects@[j].1 == project_count(open, c.projects@[j].0)
    &&& forall|i: int, j: int| 0 <= i < j < c.projects@.len() ==> c.projects@[i].0 != c.projects@[j].0
    &&& covered(c.projects@, open)
}

/// Whether some entry counts the project.
pub open spec fn has_key(ps: Seq<(u128, usize)>, p: u128) -> bool {
    exists|j: int| 0 <= j < ps.len() && #[trigger] ps[j].0 == p
}

/// Whether every task's project has an entry.
pub open spec fn covered(ps: Seq<(u128, usize)>, open: Seq<task::Model>) -> bool {
    forall|k: int| 0 <= k < open.len() ==> has_key(ps, #[trigger] open[k].project_uuid)
}


/// Filtering twice keeps what passes both tests.
pub proof fn lemma_filter_twice<A>(s: Seq<A>, f: spec_fn(A) -> bool, g: spec_fn(A) -> bool)
    ensures
        s.filter(f).filter(g) == s.filter(|x: A| f(x) && g(x)),
    decreases s.len(),
{
    reveal(Seq::filter);
    if s.len() > 0 {
        lemma_filter_twice(s.drop_last(), f, g);
        let d = s.drop_last();
        d.lemma_filter_push(s.last(), f);
        d.filter(f).lemma_filter_push(s.last(), g);
        d.lemma_filter_push(s.last(), |x: A| f(x) && g(x));
        assert(d.push(s.last()) =~= s);
    }
}

/// The navigation counts, as they must come out: the tasks in the trash; the open tasks
/// (neither completed nor in the trash) due by today, due tomorrow, and due within
/// ninety days; and each listed project's open tasks.
pub open spec fn counts_direct(c: NavigationCounts, all: Seq<task::Model>, today: int) -> bool {
    &&& c.trash == all.filter(|t: task::Model| t.is_deleted).len()
    &&& c.today == all.filter(|t: task::Model| !t.is_completed && !t.is_deleted && (due_day(t) matches Some(d) && d <= today)).len()
    &&& c.tomorrow == all.filter(|t: task::Model| !t.is_completed && !t.is_deleted && (due_day(t) matches Some(d) && d == today + 1)).len()
    &&& c.upcoming == all.filter(|t: task::Model| !t.is_completed && !t.is_deleted && (due_day(t) matches Some(d) && d <= today + 90)).len()
    &&& forall|j: int| 0 <= j < c.projects@.len() ==> (#[trigger] c.projects@[j]).1
        == all.filter(|t: task::Model| !t.is_completed && !t.is_deleted && t.project_uuid == c.projects@[j].0).len()
}

/// The navigation counts count what their names say: trashed tasks, and open tasks by
/// due day and by project.
pub proof fn lemma_counts_direct(c: NavigationCounts, all: Seq<task::Model>, today: int, labels: Seq<(u128, usize)>)
    requires
        counts_match(c, all, today, labels),
    ensures
        counts_direct(c, all, today),
{
    let o = open_pred();
    lemma_filter_twice(all, o, due_by_pred(today));
    lemma_filter_twice(all, o, due_on_pred(today + 1));
    lemma_filter_twice(all, o, due_by_pred(today + 90));
    assert(deleted_pred() =~= (|t: task::Model| t.is_deleted));
    assert((|x: task::Model| o(x) && due_by_pred(today)(x))
        =~= (|t: task::Model| !t.is_completed && !t.is_deleted && (due_day(t) matches Some(d) && d <= today)));
    assert((|x: task::Model| o(x) && due_on_pred(today + 1)(x))
        =~= (|t: task::Model| !t.is_completed && !t.is_deleted && (due_day(t) matches Some(d) && d == today + 1)));
    assert((|x: task::Model| o(x) && due_by_pred(today + 90)(x))
        =~= (|t: task::Model| !t.is_completed && !t.is_deleted && (due_day(t) matches Some(d) && d <= today + 90)));
    assert forall|j: int| 0 <= j < c.projects@.len() implies (#[trigger] c.projects@[j]).1
        == all.filter(|t: task::Model| !t.is_completed && !t.is_deleted && t.project_uuid == c.projects@[j].0).len() by {
        let p = c.projects@[j].0;
        lemma_filter_twice(all, o, in_project_pred(p));
        assert((|x: task::Model| o(x) && in_project_pred(p)(x))
            =~= (|t: task::Model| !t.is_completed && !t.is_deleted && t.project_uuid == p));
    }
}

/// Counts the tasks for the navigation entries.
pub fn navigation_counts(all_tasks: &Vec<task::Model>, today: i32, label_counts: Vec<(u128, usize)>) -> (c: NavigationCounts)
    requires
        -0x4000_0000 < today < 0x4000_0000,
    ensures
        counts_match(c, all_tasks@, today as int, label_counts@),
        counts_direct(c, all_tasks@, today as int),
{
    let ghost all = all_tasks@;
    let ghost open_p = open_pred();
    let ghost del_p = deleted_pred();
    let ghost today_p = due_by_pred(today as int);
    let ghost tomorrow_p = due_on_pred(today + 1);
    let ghost upcoming_p = due_by_pred(today + 90);
    let mut trash: usize = 0;
    let mut n_today: usize = 0;
    let mut n_tomorrow: usize = 0;
    let mut n_upcoming: usize = 0;
    let mut projects: Vec<(u128, usize)> = Vec::new();
    let mut i: usize = 0;
    while i < all_tasks.len()
        invariant
            i <= all.len(),
            all == all_tasks@,
            -0x4000_0000 < today < 0x4000_0000,
            open_p == open_pred(),
            del_p == deleted_pred(),
            today_p == due_by_pred(today as int),
            tomorrow_p == due_on_pred(today + 1),
            upcoming_p == due_by_pred(today + 90),
            trash == all.take(i as int).filter(del_p).len(),
            n_today == all.take(i as int).filter(open_p).filter(today_p).len(),
            n_tomorrow == all.take(i as int).filter(open_p).filter(tomorrow_p).len(),
            n_upcoming == all.take(i as int).filter(open_p).filter(upcoming_p).len(),
            trash <= i && n_today <= i && n_tomorrow <= i && n_upcoming <= i,
            forall|j: int| 0 <= j < projects@.len() ==> #[trigger] projects@[j].1 == project_count(
                all.take(i as int).filter(open_p),
                projects@[j].0,
            ),
            forall|j: int| 0 <= j < projects@.len() ==> #[trigger] projects@[j].1 <= i,
            forall|a: int, b: int| 0 <= a < b < projects@.len() ==> projects@[a].0 != projects@[b].0,
            covered(projects@, all.take(i as int).filter(open_p)),
        decreases all.len() - i,
    {
        let t = &all_tasks[i];
        let ghost pre = all.take(i as int);
        let ghost open_pre = pre.filter(open_p);
        proof {
            assert(all.take(i + 1) =~= pre.push(*t));
            pre.lemma_filter_push(*t, del_p);
            pre.lemma_filter_push(*t, open_p);
            open_pre.lemma_filter_push(*t, today_p);
            open_pre.lemma_filter_push(*t, tomorrow_p);
            open_pre.lemma_filter_push(*t, upcoming_p);
        }
        if t.is_deleted {
            trash = trash + 1;
        }
        if !t.is_completed && !t.is_deleted {
            match task_due_day(t) {
                Some(d) => {
                    if d <= today {
                        n_today = n_today + 1;
                    }
                    if d as i64 == today as i64 + 1 {
                        n_tomorrow = n_tomorrow + 1;
                    }
                    if d as i64 <= today as i64 + 90 {
                        n_upcoming = n_upcoming + 1;
                    }
                },
                None => {},
            }
            let ghost open_next = open_pre.push(*t);
            assert(all.take(i + 1).filter(open_p) == open_next);
            let mut j: usize = 0;
            while j < projects.len() && projects[j].0 != t.project_uuid
                invariant
                    j <= projects@.len(),
                    forall|q: int| 0 <= q < j ==> projects@[q].0 != t.project_uuid,
                decreases projects@.len() - j,
            {
                j = j + 1;
            }
            let ghost before = projects@;
            proof {
                assert forall|q: int| 0 <= q < before.len() implies project_count(open_next, #[trigger] before[q].0)
                    == project_count(open_pre, before[q].0) + if before[q].0 == t.project_uuid { 1nat } else { 0nat } by {
                    let pq = before[q].0;
                    open_pre.lemma_filter_push(*t, in_project_pred(pq));
                }
            }
            if j < projects.len() {
                let count = projects[j].1;
                projects.set(j, (t.project_uuid, count + 1));
                proof {
                    assert forall|k: int| 0 <= k < open_next.len() implies has_key(projects@, #[trigger] open_next[k].project_uuid) by {
                        if k < open_pre.len() {
                            assert(open_next[k] == open_pre[k]);
                            assert(has_key(before, open_pre[k].project_uuid));
                            let q = choose|q: int| 0 <= q < before.len() && #[trigger] before[q].0 == open_pre[k].project_uuid;
                            assert(projects@[q].0 == before[q].0);
                        } else {
                            assert(projects@[j as int].0 == open_next[k].project_uuid);
                        }
                    }
                }
            } else {
                proof {
                    let pt = t.project_uuid;
                    open_pre.lemma_filter_push(*t, in_project_pred(pt));
                    if open_pre.filter(in_project_pred(pt)).len() > 0 {
                        let f = open_pre.filter(in_project_pred(pt));
                        open_pre.filter_lemma(in_project_pred(pt));
                        assert(f.contains(f[0]));
                        open_pre.lemma_filter_contains_rev(in_project_pred(pt), f[0]);
                        let k = choose|k: int| 0 <= k < open_pre.len() && open_pre[k] == f[0];
                        assert(has_key(before, open_pre[k].project_uuid));
                        let q = choose|q: int| 0 <= q < before.len() && #[trigger] before[q].0 == open_pre[k].project_uuid;
                        assert(false);
                    }
                }
                projects.push((t.project_uuid, 1));
                proof {
                    assert forall|k: int| 0 <= k < open_next.len() implies has_key(projects@, #[trigger] open_next[k].project_uuid) by {
                        if k < open_pre.len() {
                            assert(open_next[k] == open_pre[k]);
                            assert(has_key(before, open_pre[k].project_uuid));
                            let q = choose|q: int| 0 <= q < before.len() && #[trigger] before[q].0 == open_pre[k].project_uuid;
                            assert(projects@[q].0 == before[q].0);
                        } else {
                            assert(projects@[before.len() as int].0 == open_next[k].project_uuid);
                        }
                    }
                }
            }
        } else {
            assert(all.take(i + 1).filter(open_p) == open_pre);
            proof {
                assert forall|q: int| 0 <= q < projects@.len() implies #[trigger] projects@[q].1 == project_count(
                    all.take(i + 1).filter(open_p),
                    projects@[q].0,
                ) by {
                    assert(all.take(i + 1).filter(open_p) == open_pre);
                }
            }
        }
        i = i + 1;
    }
    proof {
        assert(all.take(i as int) =~= all);
    }
    let c = NavigationCounts {
        today: n_today,
        tomorrow: n_tomorrow,
        upcoming: n_upcoming,
        trash,
        projects,
        labels: label_counts,
    };
    proof {
        lemma_counts_direct(c, all_tasks@, today as int, c.labels@);
    }
    c
}

/// Which cached tasks a view lists.
#[derive(Debug, Clone, Copy, PartialEq, Eq, Structural)]
pub enum TaskQuery {
    Today,
    Tomorrow,
    Upcoming,
    Deleted,
    Project(u128),
    Label(u128),
}

/// The cached tasks a view lists: Today and Agenda share the Today query.
pub fn task_query_for(selection: SidebarSelection) -> (q: TaskQuery)
    ensures
        q == match selection {
            SidebarSelection::Today | SidebarSelection::Agenda => TaskQuery::Today,
            SidebarSelection::Tomorrow => TaskQuery::Tomorrow,
            SidebarSelection::Upcoming => TaskQuery::Upcoming,
            SidebarSelection::Trash => TaskQuery::Deleted,
            SidebarSelection::Project(p) => TaskQuery::Project(p),
            SidebarSelection::Label(l) => TaskQuery::Label(l),
        },
{
    match selection {
        SidebarSelection::Today | SidebarSelection::Agenda => TaskQuery::Today,
        SidebarSelection::Tomorrow => TaskQuery::Tomorrow,
        SidebarSelection::Upcoming => TaskQuery::Upcoming,
        SidebarSelection::Trash => TaskQuery::Deleted,
        SidebarSelection::Project(p) => TaskQuery::Project(p),
        SidebarSelection::Label(l) => TaskQuery::Label(l),
    }
}

} // verus!
