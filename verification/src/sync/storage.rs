//! How a set of backend changes is written to the local cache: the order of the writes,
//! the rows they store, and which cached rows they remove.

use vstd::prelude::*;
use crate::backend::{BackendLabel, BackendProject, BackendSection, BackendSyncData, BackendTask};
use crate::entities::{label, project, section, task};

verus! {

/// One write of a cache refresh, all of them in one transaction.
#[derive(Debug, Clone, Copy, PartialEq, Eq)]
pub enum WriteStep {
    /// Remove the records that an incremental sync reports deleted.
    ApplyDeletions,
    /// Upsert the projects, then link each to its parent.
    StoreProjects,
    /// Upsert the labels.
    StoreLabels,
    /// Upsert the sections.
    StoreSections,
    /// Upsert the tasks, link parents, and relink their labels.
    StoreTasks,
    /// Remove the cached open tasks that a full snapshot no longer lists.
    RemoveAbsentTasks,
    /// Remove trashed tasks older than the retention period.
    PurgeExpiredTrash,
    /// Save the incremental sync token.
    StoreSyncToken,
}

/// The writes of a cache refresh, in order: deletions first for an incremental sync,
/// then projects, labels, sections where there are any, and tasks; then, for a full
/// sync, the tasks absent from the snapshot are removed (which also purges expired
/// trash), else only expired trash is purged; last the token, where there is one.
pub open spec fn write_steps_spec(full_sync: bool, has_sections: bool, has_token: bool) -> Seq<WriteStep> {
    (if full_sync { Seq::empty() } else { seq![WriteStep::ApplyDeletions] })
        + seq![WriteStep::StoreProjects, WriteStep::StoreLabels]
        + (if has_sections { seq![WriteStep::StoreSections] } else { Seq::empty() })
        + seq![WriteStep::StoreTasks]
        + (if full_sync { seq![WriteStep::RemoveAbsentTasks, WriteStep::PurgeExpiredTrash] } else { seq![WriteStep::PurgeExpiredTrash] })
        + (if has_token { seq![WriteStep::StoreSyncToken] } else { Seq::empty() })
}

/// The writes that store a set of backend changes, in order.
pub fn write_steps(data: &BackendSyncData) -> (r: Vec<WriteStep>)
    ensures
        r@ == write_steps_spec(data.full_sync, data.sections@.len() > 0, data.sync_token is Some),
{
    let mut r: Vec<WriteStep> = Vec::new();
    if !data.full_sync {
        r.push(WriteStep::ApplyDeletions);
    }
    r.push(WriteStep::StoreProjects);
    r.push(WriteStep::StoreLabels);
    if data.sections.len() > 0 {
        r.push(WriteStep::StoreSections);
    }
    r.push(WriteStep::StoreTasks);
    if data.full_sync {
        r.push(WriteStep::RemoveAbsentTasks);
    }
    r.push(WriteStep::PurgeExpiredTrash);
    if data.sync_token.is_some() {
        r.push(WriteStep::StoreSyncToken);
    }
    assert(r@ =~= write_steps_spec(data.full_sync, data.sections@.len() > 0, data.sync_token is Some));
    r
}

/// The cached project row for a backend project; its parent is linked afterwards.
pub fn project_row(uuid: u128, backend_uuid: u128, p: &BackendProject) -> (r: project::Model)
    ensures
        r == (project::Model {
            uuid,
            backend_uuid,
            remote_id: p.remote_id,
            name: p.name,
            is_favorite: p.is_favorite,
            is_inbox_project: p.is_inbox,
            order_index: p.order_index,
            parent_uuid: None,
        }),
{
    project::Model {
        uuid,
        backend_uuid,
        remote_id: p.remote_id.clone(),
        name: p.name.clone(),
        is_favorite: p.is_favorite,
        is_inbox_project: p.is_inbox,
        order_index: p.order_index,
        parent_uuid: None,
    }
}

/// The cached label row for a backend label.
pub fn label_row(uuid: u128, backend_uuid: u128, l: &BackendLabel) -> (r: label::Model)
    ensures
        r == (label::Model {
            uuid,
            backend_uuid,
            remote_id: l.remote_id,
            name: l.name,
            order_index: l.order_index,
            is_favorite: l.is_favorite,
        }),
{
    label::Model {
        uuid,
        backend_uuid,
        remote_id: l.remote_id.clone(),
        name: l.name.clone(),
        order_index: l.order_index,
        is_favorite: l.is_favorite,
    }
}

/// The cached section row for a backend section in the project the caller resolved.
pub fn section_row(uuid: u128, backend_uuid: u128, s: &BackendSection, project_uuid: u128) -> (r: section::Model)
    ensures
        r == (section::Model {
            uuid,
            backend_uuid,
            remote_id: s.remote_id,
            name: s.name,
            project_uuid,
            order_index: s.order_index,
        }),
{
    section::Model {
        uuid,
        backend_uuid,
        remote_id: s.remote_id.clone(),
        name: s.name.clone(),
        project_uuid,
        order_index: s.order_index,
    }
}

/// Whether the snapshot lists a task with the remote id.
pub open spec fn listed(snapshot: Seq<BackendTask>, remote_id: Seq<char>) -> bool {
    exists|i: int| 0 <= i < snapshot.len() && (#[trigger] snapshot[i]).remote_id@ == remote_id
}

/// Whether a cached task is stale after a full snapshot: an open task of the backend
/// that the snapshot does not list.
pub open spec fn stale(t: task::Model, backend_uuid: u128, snapshot: Seq<BackendTask>) -> bool {
    t.backend_uuid == backend_uuid && !t.is_deleted && !listed(snapshot, t.remote_id@)
}

/// Whether the snapshot lists the remote id.
fn is_listed(snapshot: &Vec<BackendTask>, remote_id: &String) -> (b: bool)
    ensures
        b == listed(snapshot@, remote_id@),
{
    let mut i: usize = 0;
    while i < snapshot.len()
        invariant
            i <= snapshot@.len(),
            forall|j: int| 0 <= j < i ==> (#[trigger] snapshot@[j]).remote_id@ != remote_id@,
        decreases snapshot@.len() - i,
    {
        if snapshot[i].remote_id == *remote_id {
            return true;
        }
        i = i + 1;
    }
    false
}

/// The UUIDs of the cached tasks that a full snapshot makes stale, in cache order.
pub fn stale_task_uuids(cached: &Vec<task::Model>, backend_uuid: u128, snapshot: &Vec<BackendTask>) -> (r: Vec<u128>)
    ensures
        forall|u: u128| r@.contains(u) <==> exists|i: int| 0 <= i < cached@.len()
            && (#[trigger] cached@[i]).uuid == u && stale(cached@[i], backend_uuid, snapshot@),
{
    let mut r: Vec<u128> = Vec::new();
    let mut i: usize = 0;
    while i < cached.len()
        invariant
            i <= cached@.len(),
            forall|u: u128| r@.contains(u) <==> exists|k: int| 0 <= k < i
                && (#[trigger] cached@[k]).uuid == u && stale(cached@[k], backend_uuid, snapshot@),
        decreases cached@.len() - i,
    {
        let t = &cached[i];
        let is_stale = t.backend_uuid == backend_uuid && !t.is_deleted && !is_listed(snapshot, &t.remote_id);
        let ghost before = r@;
        if is_stale {
            r.push(t.uuid);
        }
        proof {
            assert forall|u: u128| r@.contains(u) <==> exists|k: int| 0 <= k < i + 1
                && (#[trigger] cached@[k]).uuid == u && stale(cached@[k], backend_uuid, snapshot@) by {
                if r@.contains(u) {
                    if is_stale && u == t.uuid {
                        assert(cached@[i as int].uuid == u);
                    } else {
                        if is_stale {
                            let j = choose|j: int| 0 <= j < r@.len() && r@[j] == u;
                            assert(j < before.len());
                            assert(before[j] == u);
                        }
                        assert(before.contains(u));
                    }
                }
                if exists|k: int| 0 <= k < i + 1 && (#[trigger] cached@[k]).uuid == u && stale(cached@[k], backend_uuid, snapshot@) {
                    let k = choose|k: int| 0 <= k < i + 1 && (#[trigger] cached@[k]).uuid == u && stale(cached@[k], backend_uuid, snapshot@);
                    if k < i {
                        assert(before.contains(u));
                        let j = choose|j: int| 0 <= j < before.len() && before[j] == u;
                        assert(r@[j] == u);
                    } else {
                        assert(r@[r@.len() - 1] == u);
                    }
                }
            }
        }
        i = i + 1;
    }
    r
}

/// The label relations of a task: for each of its label names, in order, the first
/// cached label with that name; names with no cached label are left out.
pub open spec fn first_label_named(labels: Seq<label::Model>, name: Seq<char>, k: int) -> bool {
    &&& 0 <= k < labels.len()
    &&& labels[k].name@ == name
    &&& forall|j: int| 0 <= j < k ==> (#[trigger] labels[j]).name@ != name
}

/// The position of the first cached label with the name, if any.
pub open spec fn first_label_index(labels: Seq<label::Model>, name: Seq<char>) -> Option<int> {
    if exists|k: int| first_label_named(labels, name, k) {
        Some(choose|k: int| first_label_named(labels, name, k))
    } else {
        None
    }
}

/// The label relations of a task, in the order of its label names: for each name that
/// a cached label has, the task with the first such label.
pub open spec fn links_spec(task_uuid: u128, names: Seq<String>, labels: Seq<label::Model>) -> Seq<(u128, u128)>
    decreases names.len(),
{
    if names.len() == 0 {
        Seq::empty()
    } else {
        let before = links_spec(task_uuid, names.drop_last(), labels);
        match first_label_index(labels, names.last()@) {
            Some(k) => before.push((task_uuid, labels[k].uuid)),
            None => before,
        }
    }
}

/// The first cached label with a name is at one position.
proof fn lemma_first_label_unique(labels: Seq<label::Model>, name: Seq<char>, i: int, j: int)
    requires
        first_label_named(labels, name, i),
        first_label_named(labels, name, j),
    ensures
        i == j,
{
    if i < j {
        assert(labels[i].name@ != name);
    }
    if j < i {
        assert(labels[j].name@ != name);
    }
}

/// The position of the first cached label with the name.
fn find_label(labels: &Vec<label::Model>, name: &String) -> (r: Option<usize>)
    ensures
        match r {
            Some(k) => first_label_named(labels@, name@, k as int),
            None => forall|j: int| 0 <= j < labels@.len() ==> (#[trigger] labels@[j]).name@ != name@,
        },
{
    let mut i: usize = 0;
    while i < labels.len()
        invariant
            i <= labels@.len(),
            forall|j: int| 0 <= j < i ==> (#[trigger] labels@[j]).name@ != name@,
        decreases labels@.len() - i,
    {
        if labels[i].name == *name {
            return Some(i);
        }
        i = i + 1;
    }
    None
}

/// The (task, label) relations for a task's label names: each name that a cached label
/// has gives one relation with the first such label, in the order of the names.
pub fn label_links(task_uuid: u128, label_names: &Vec<String>, labels: &Vec<label::Model>) -> (r: Vec<(u128, u128)>)
    ensures
        r@.len() <= label_names@.len(),
        forall|k: int| 0 <= k < r@.len() ==> (#[trigger] r@[k]).0 == task_uuid
            && exists|n: int, j: int| 0 <= n < label_names@.len() && first_label_named(labels@, label_names@[n]@, j)
                && labels@[j].uuid == r@[k].1,
        forall|n: int| 0 <= n < label_names@.len() ==> (forall|j: int| first_label_named(labels@, #[trigger] label_names@[n]@, j)
            ==> r@.contains((task_uuid, labels@[j].uuid))),
        r@ == links_spec(task_uuid, label_names@, labels@),
{
    let mut r: Vec<(u128, u128)> = Vec::new();
    let mut n: usize = 0;
    while n < label_names.len()
        invariant
            n <= label_names@.len(),
            r@.len() <= n,
            forall|k: int| 0 <= k < r@.len() ==> (#[trigger] r@[k]).0 == task_uuid
                && exists|m: int, j: int| 0 <= m < label_names@.len() && first_label_named(labels@, label_names@[m]@, j)
                    && labels@[j].uuid == r@[k].1,
            forall|m: int| 0 <= m < n ==> (forall|j: int| first_label_named(labels@, #[trigger] label_names@[m]@, j)
                ==> r@.contains((task_uuid, labels@[j].uuid))),
            r@ == links_spec(task_uuid, label_names@.take(n as int), labels@),
        decreases label_names@.len() - n,
    {
        let ghost before = r@;
        proof {
            assert(label_names@.take(n + 1).drop_last() =~= label_names@.take(n as int));
            assert(label_names@.take(n + 1).last() == label_names@[n as int]);
        }
        match find_label(labels, &label_names[n]) {
            Some(k) => {
                r.push((task_uuid, labels[k].uuid));
                proof {
                    let c = choose|c: int| first_label_named(labels@, label_names@[n as int]@, c);
                    lemma_first_label_unique(labels@, label_names@[n as int]@, k as int, c);
                    assert(r@[r@.len() - 1] == (task_uuid, labels@[k as int].uuid));
                    assert forall|m: int| 0 <= m < n + 1 implies (forall|j: int| first_label_named(labels@, #[trigger] label_names@[m]@, j)
                        ==> r@.contains((task_uuid, labels@[j].uuid))) by {
                        assert forall|j: int| first_label_named(labels@, label_names@[m]@, j)
                            implies r@.contains((task_uuid, labels@[j].uuid)) by {
                            if m < n {
                                assert(before.contains((task_uuid, labels@[j].uuid)));
                                let w = choose|w: int| 0 <= w < before.len() && before[w] == (task_uuid, labels@[j].uuid);
                                assert(r@[w] == before[w]);
                            } else {
                                if j < k {
                                    assert(labels@[j].name@ != label_names@[m]@);
                                } else if k < j {
                                    assert(labels@[k as int].name@ != label_names@[m]@);
                                }
                                assert(r@[r@.len() - 1] == (task_uuid, labels@[j].uuid));
                            }
                        }
                    }
                    assert forall|q: int| 0 <= q < r@.len() implies (#[trigger] r@[q]).0 == task_uuid
                        && exists|m: int, j: int| 0 <= m < label_names@.len() && first_label_named(labels@, label_names@[m]@, j)
                            && labels@[j].uuid == r@[q].1 by {
                        if q < before.len() {
                            assert(r@[q] == before[q]);
                        } else {
                            assert(first_label_named(labels@, label_names@[n as int]@, k as int));
                        }
                    }
                }
            },
            None => {},
        }
        n = n + 1;
    }
    proof {
        assert(label_names@.take(n as int) =~= label_names@);
    }
    r
}

} // verus!
