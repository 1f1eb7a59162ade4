//! The local cache of backend records, held in memory: how a set of backend changes is
//! written to it, all of it or none.

use vstd::prelude::*;
use crate::backend::{BackendLabel, BackendProject, BackendSection, BackendSyncData, BackendTask};
use crate::entities::{label, project, section, task};
use crate::sync::tasks::{cached_task, cached_task_spec};
use crate::ext::{format_uuid, uuid_text};
use crate::sync::storage::{label_links, label_row, links_spec, listed, project_row, section_row, stale, stale_task_uuids};
use crate::ui::components::dialogs::common::chars_of;
use crate::ui::app_core::actions::SidebarSelection;
use crate::ui::app_core::task_manager::{counts_match, navigation_counts};
use crate::ui::app_core::view_snapshot::ViewSnapshot;

verus! {

/// A record's key: the backend it belongs to and its remote id.
pub type RecordKey = (u128, Seq<char>);

/// Whether position `i` holds the first record with the key.
pub open spec fn first_key_at(keys: Seq<RecordKey>, key: RecordKey, i: int) -> bool {
    &&& 0 <= i < keys.len()
    &&& keys[i] == key
    &&& forall|j: int| 0 <= j < i ==> keys[j] != key
}

/// The position of the first record with the key, if any.
pub open spec fn key_index(keys: Seq<RecordKey>, key: RecordKey) -> Option<int> {
    if exists|i: int| first_key_at(keys, key, i) {
        Some(choose|i: int| first_key_at(keys, key, i))
    } else {
        None
    }
}

/// There is one first position of a key.
pub proof fn lemma_first_key_unique(keys: Seq<RecordKey>, key: RecordKey, i: int, j: int)
    requires
        first_key_at(keys, key, i),
        first_key_at(keys, key, j),
    ensures
        i == j,
{
    if i < j {
        assert(keys[i] != key);
    }
    if j < i {
        assert(keys[j] != key);
    }
}

/// The position found by a search is the first one.
pub proof fn lemma_key_index_is(keys: Seq<RecordKey>, key: RecordKey, i: int)
    requires
        first_key_at(keys, key, i),
    ensures
        key_index(keys, key) == Some(i),
{
    let c = choose|c: int| first_key_at(keys, key, c);
    lemma_first_key_unique(keys, key, i, c);
}

/// The keys of projects.
pub open spec fn project_keys(ps: Seq<project::Model>) -> Seq<RecordKey> {
    ps.map_values(|p: project::Model| (p.backend_uuid, p.remote_id@))
}

/// The keys of labels.
pub open spec fn label_keys(ls: Seq<label::Model>) -> Seq<RecordKey> {
    ls.map_values(|l: label::Model| (l.backend_uuid, l.remote_id@))
}

/// The keys of sections.
pub open spec fn section_keys(ss: Seq<section::Model>) -> Seq<RecordKey> {
    ss.map_values(|s: section::Model| (s.backend_uuid, s.remote_id@))
}

/// The keys of tasks.
pub open spec fn task_keys(ts: Seq<task::Model>) -> Seq<RecordKey> {
    ts.map_values(|t: task::Model| (t.backend_uuid, t.remote_id@))
}

/// The position of the first project of the backend with the remote id.
fn find_project(ps: &Vec<project::Model>, backend_uuid: u128, remote_id: &String) -> (r: Option<usize>)
    ensures
        match r {
            Some(i) => key_index(project_keys(ps@), (backend_uuid, remote_id@)) == Some(i as int),
            None => key_index(project_keys(ps@), (backend_uuid, remote_id@)) is None,
        },
{
    let ghost keys = project_keys(ps@);
    let mut i: usize = 0;
    while i < ps.len()
        invariant
            i <= ps@.len(),
            keys == project_keys(ps@),
            forall|j: int| 0 <= j < i ==> keys[j] != (backend_uuid, remote_id@),
        decreases ps@.len() - i,
    {
        if ps[i].backend_uuid == backend_uuid && ps[i].remote_id == *remote_id {
            proof {
                lemma_key_index_is(keys, (backend_uuid, remote_id@), i as int);
            }
            return Some(i);
        }
        i = i + 1;
    }
    None
}

/// The position of the first label of the backend with the remote id.
fn find_label(ls: &Vec<label::Model>, backend_uuid: u128, remote_id: &String) -> (r: Option<usize>)
    ensures
        match r {
            Some(i) => key_index(label_keys(ls@), (backend_uuid, remote_id@)) == Some(i as int),
            None => key_index(label_keys(ls@), (backend_uuid, remote_id@)) is None,
        },
{
    let ghost keys = label_keys(ls@);
    let mut i: usize = 0;
    while i < ls.len()
        invariant
            i <= ls@.len(),
            keys == label_keys(ls@),
            forall|j: int| 0 <= j < i ==> keys[j] != (backend_uuid, remote_id@),
        decreases ls@.len() - i,
    {
        if ls[i].backend_uuid == backend_uuid && ls[i].remote_id == *remote_id {
            proof {
                lemma_key_index_is(keys, (backend_uuid, remote_id@), i as int);
            }
            return Some(i);
        }
        i = i + 1;
    }
    None
}

/// The position of the first section of the backend with the remote id.
fn find_section(ss: &Vec<section::Model>, backend_uuid: u128, remote_id: &String) -> (r: Option<usize>)
    ensures
        match r {
            Some(i) => key_index(section_keys(ss@), (backend_uuid, remote_id@)) == Some(i as int),
            None => key_index(section_keys(ss@), (backend_uuid, remote_id@)) is None,
        },
{
    let ghost keys = section_keys(ss@);
    let mut i: usize = 0;
    while i < ss.len()
        invariant
            i <= ss@.len(),
            keys == section_keys(ss@),
            forall|j: int| 0 <= j < i ==> keys[j] != (backend_uuid, remote_id@),
        decreases ss@.len() - i,
    {
        if ss[i].backend_uuid == backend_uuid && ss[i].remote_id == *remote_id {
            proof {
                lemma_key_index_is(keys, (backend_uuid, remote_id@), i as int);
            }
            return Some(i);
        }
        i = i + 1;
    }
    None
}

/// The position of the first task of the backend with the remote id.
fn find_task(ts: &Vec<task::Model>, backend_uuid: u128, remote_id: &String) -> (r: Option<usize>)
    ensures
        match r {
            Some(i) => key_index(task_keys(ts@), (backend_uuid, remote_id@)) == Some(i as int),
            None => key_index(task_keys(ts@), (backend_uuid, remote_id@)) is None,
        },
{
    let ghost keys = task_keys(ts@);
    let mut i: usize = 0;
    while i < ts.len()
        invariant
            i <= ts@.len(),
            keys == task_keys(ts@),
            forall|j: int| 0 <= j < i ==> keys[j] != (backend_uuid, remote_id@),
        decreases ts@.len() - i,
    {
        if ts[i].backend_uuid == backend_uuid && ts[i].remote_id == *remote_id {
            proof {
                lemma_key_index_is(keys, (backend_uuid, remote_id@), i as int);
            }
            return Some(i);
        }
        i = i + 1;
    }
    None
}


/// What a cache holds: the backend it caches, the incremental sync token, the records,
/// and the (task, label) relations.
#[verifier::ext_equal]
pub struct CacheView {
    pub backend_uuid: u128,
    pub sync_token: Option<String>,
    pub projects: Seq<project::Model>,
    pub labels: Seq<label::Model>,
    pub sections: Seq<section::Model>,
    pub tasks: Seq<task::Model>,
    pub task_labels: Seq<(u128, u128)>,
}

/// The records of one backend, kept in memory between reads and writes of the cache.
pub struct LocalCache {
    pub backend_uuid: u128,
    pub sync_token: Option<String>,
    pub projects: Vec<project::Model>,
    pub labels: Vec<label::Model>,
    pub sections: Vec<section::Model>,
    pub tasks: Vec<task::Model>,
    pub task_labels: Vec<(u128, u128)>,
}

impl View for LocalCache {
    type V = CacheView;

    open spec fn view(&self) -> CacheView {
        CacheView {
            backend_uuid: self.backend_uuid,
            sync_token: self.sync_token,
            projects: self.projects@,
            labels: self.labels@,
            sections: self.sections@,
            tasks: self.tasks@,
            task_labels: self.task_labels@,
        }
    }
}

/// The local UUID of the cached project of the backend with the remote id.
pub open spec fn resolve_project(v: CacheView, remote_id: Seq<char>) -> Option<u128> {
    match key_index(project_keys(v.projects), (v.backend_uuid, remote_id)) {
        Some(i) => Some(v.projects[i].uuid),
        None => None,
    }
}

/// The local UUID of the cached section of the backend with the remote id, if one is given.
pub open spec fn resolve_section(v: CacheView, remote_id: Option<String>) -> Option<u128> {
    match remote_id {
        Some(r) => match key_index(section_keys(v.sections), (v.backend_uuid, r@)) {
            Some(i) => Some(v.sections[i].uuid),
            None => None,
        },
        None => None,
    }
}

/// The local UUID of the cached task of the backend with the remote id, if one is given.
pub open spec fn resolve_task(v: CacheView, remote_id: Option<String>) -> Option<u128> {
    match remote_id {
        Some(r) => match key_index(task_keys(v.tasks), (v.backend_uuid, r@)) {
            Some(i) => Some(v.tasks[i].uuid),
            None => None,
        },
        None => None,
    }
}

/// Whether a relation is not one of the task's.
pub open spec fn other_task(u: u128) -> spec_fn((u128, u128)) -> bool {
    |p: (u128, u128)| p.0 != u
}

/// Storing a task the backend returned: a task of an unknown project is left out and
/// nothing changes.  Otherwise the cached row with its remote id is replaced, keeping
/// its local UUID and trash date, or a new row with the fresh UUID is added; its
/// project, section and parent are the cached ones with those remote ids; and its label
/// relations become those of its label names.
pub open spec fn store_task_spec(v: CacheView, b: BackendTask, fresh: u128) -> (CacheView, Option<u128>) {
    match resolve_project(v, b.project_remote_id@) {
        None => (v, None),
        Some(project_uuid) => {
            let existing = key_index(task_keys(v.tasks), (v.backend_uuid, b.remote_id@));
            let uuid = match existing { Some(i) => v.tasks[i].uuid, None => fresh };
            let row = cached_task_spec(uuid, v.backend_uuid, b, project_uuid,
                resolve_section(v, b.section_remote_id), resolve_task(v, b.parent_remote_id));
            let tasks = match existing {
                Some(i) => v.tasks.update(i, task::Model { deleted_at: v.tasks[i].deleted_at, ..row }),
                None => v.tasks.push(row),
            };
            let task_labels = v.task_labels.filter(other_task(uuid)) + links_spec(uuid, b.labels@, v.labels);
            (CacheView { tasks, task_labels, ..v }, Some(uuid))
        },
    }
}

/// A copy of a backend task.
pub fn duplicate_backend_task(b: &BackendTask) -> (r: BackendTask)
    ensures
        r.remote_id == b.remote_id && r.content == b.content && r.description == b.description
            && r.project_remote_id == b.project_remote_id && r.section_remote_id == b.section_remote_id
            && r.parent_remote_id == b.parent_remote_id && r.priority == b.priority && r.order_index == b.order_index
            && r.due_date == b.due_date && r.due_datetime == b.due_datetime && r.is_recurring == b.is_recurring
            && r.deadline == b.deadline && r.duration == b.duration && r.is_completed == b.is_completed
            && r.completed_at == b.completed_at && r.labels@ == b.labels@,
{
    BackendTask {
        remote_id: b.remote_id.clone(),
        content: b.content.clone(),
        description: task::copy_opt_string(&b.description),
        project_remote_id: b.project_remote_id.clone(),
        section_remote_id: task::copy_opt_string(&b.section_remote_id),
        parent_remote_id: task::copy_opt_string(&b.parent_remote_id),
        priority: b.priority,
        order_index: b.order_index,
        due_date: task::copy_opt_string(&b.due_date),
        due_datetime: task::copy_opt_string(&b.due_datetime),
        is_recurring: b.is_recurring,
        deadline: task::copy_opt_string(&b.deadline),
        duration: task::copy_opt_string(&b.duration),
        is_completed: b.is_completed,
        completed_at: task::copy_opt_string(&b.completed_at),
        labels: crate::backend::todoist::copy_strings(&b.labels),
    }
}

/// The relations that are not the task's, in order.
fn links_of_others(links: &Vec<(u128, u128)>, u: u128) -> (r: Vec<(u128, u128)>)
    ensures
        r@ == links@.filter(other_task(u)),
{
    let mut out: Vec<(u128, u128)> = Vec::new();
    let mut i: usize = 0;
    while i < links.len()
        invariant
            i <= links@.len(),
            out@ == links@.take(i as int).filter(other_task(u)),
        decreases links@.len() - i,
    {
        proof {
            assert(links@.take(i + 1) =~= links@.take(i as int).push(links@[i as int]));
            links@.take(i as int).lemma_filter_push(links@[i as int], other_task(u));
        }
        if links[i].0 != u {
            out.push(links[i]);
        }
        i = i + 1;
    }
    proof {
        assert(links@.take(i as int) =~= links@);
    }
    out
}


/// Whether the list of remote ids holds the remote id.
pub open spec fn in_ids(ids: Seq<String>, remote_id: Seq<char>) -> bool {
    exists|i: int| 0 <= i < ids.len() && (#[trigger] ids[i])@ == remote_id
}

/// Whether the list of remote ids holds the remote id.
fn has_id(ids: &Vec<String>, remote_id: &String) -> (b: bool)
    ensures
        b == in_ids(ids@, remote_id@),
{
    let mut i: usize = 0;
    while i < ids.len()
        invariant
            i <= ids@.len(),
            forall|j: int| 0 <= j < i ==> (#[trigger] ids@[j])@ != remote_id@,
        decreases ids@.len() - i,
    {
        if ids[i] == *remote_id {
            return true;
        }
        i = i + 1;
    }
    false
}

/// A task that an incremental sync reports deleted: of the backend, not in the trash,
/// with a deleted remote id.
pub open spec fn task_deleted(backend: u128, ids: Seq<String>) -> spec_fn(task::Model) -> bool {
    |t: task::Model| !(t.backend_uuid == backend && !t.is_deleted && in_ids(ids, t.remote_id@))
}

/// A section that is not reported deleted.
pub open spec fn section_kept(backend: u128, ids: Seq<String>) -> spec_fn(section::Model) -> bool {
    |s: section::Model| !(s.backend_uuid == backend && in_ids(ids, s.remote_id@))
}

/// A label that is not reported deleted.
pub open spec fn label_kept(backend: u128, ids: Seq<String>) -> spec_fn(label::Model) -> bool {
    |l: label::Model| !(l.backend_uuid == backend && in_ids(ids, l.remote_id@))
}

/// A project that is not reported deleted.
pub open spec fn project_kept(backend: u128, ids: Seq<String>) -> spec_fn(project::Model) -> bool {
    |p: project::Model| !(p.backend_uuid == backend && in_ids(ids, p.remote_id@))
}

/// The cache after the deletions an incremental sync reports: the backend's open tasks,
/// sections, labels and projects with deleted remote ids are removed.
pub open spec fn deletions_spec(v: CacheView, data: BackendSyncData) -> CacheView {
    CacheView {
        tasks: v.tasks.filter(task_deleted(v.backend_uuid, data.deleted_task_ids@)),
        sections: v.sections.filter(section_kept(v.backend_uuid, data.deleted_section_ids@)),
        labels: v.labels.filter(label_kept(v.backend_uuid, data.deleted_label_ids@)),
        projects: v.projects.filter(project_kept(v.backend_uuid, data.deleted_project_ids@)),
        ..v
    }
}


/// What a filter keeps passes it and comes from the sequence, and every element that
/// passes it is kept.
pub proof fn lemma_filter_exact<A>(s: Seq<A>, f: spec_fn(A) -> bool)
    ensures
        forall|i: int| 0 <= i < s.filter(f).len() ==> f(#[trigger] s.filter(f)[i]) && s.contains(s.filter(f)[i]),
        forall|i: int| 0 <= i < s.len() && f(#[trigger] s[i]) ==> s.filter(f).contains(s[i]),
{
    lemma_filter_from(s, f);
    assert forall|i: int| 0 <= i < s.filter(f).len() implies f(#[trigger] s.filter(f)[i]) && s.contains(s.filter(f)[i]) by {
        s.lemma_filter_pred(f, i);
    }
    assert forall|i: int| 0 <= i < s.len() && f(#[trigger] s[i]) implies s.filter(f).contains(s[i]) by {
        s.lemma_filter_contains(f, i);
    }
}

/// The deletions that an incremental sync reports, as they must come out: no open task,
/// section, label or project of the backend with a reported remote id is left; every
/// other record is kept (in particular every task in the trash); nothing new appears;
/// the relations and the rest stay.
pub open spec fn reported_deletions_applied(before: CacheView, after: CacheView, data: BackendSyncData) -> bool {
    let b = before.backend_uuid;
    &&& after == (CacheView { tasks: after.tasks, sections: after.sections, labels: after.labels, projects: after.projects, ..before })
    &&& forall|i: int| 0 <= i < after.tasks.len() ==> !((#[trigger] after.tasks[i]).backend_uuid == b && !after.tasks[i].is_deleted
        && in_ids(data.deleted_task_ids@, after.tasks[i].remote_id@)) && before.tasks.contains(after.tasks[i])
    &&& forall|i: int| 0 <= i < before.tasks.len() && ((#[trigger] before.tasks[i]).is_deleted || before.tasks[i].backend_uuid != b
        || !in_ids(data.deleted_task_ids@, before.tasks[i].remote_id@)) ==> after.tasks.contains(before.tasks[i])
    &&& forall|i: int| 0 <= i < after.sections.len() ==> !((#[trigger] after.sections[i]).backend_uuid == b
        && in_ids(data.deleted_section_ids@, after.sections[i].remote_id@)) && before.sections.contains(after.sections[i])
    &&& forall|i: int| 0 <= i < before.sections.len() && ((#[trigger] before.sections[i]).backend_uuid != b
        || !in_ids(data.deleted_section_ids@, before.sections[i].remote_id@)) ==> after.sections.contains(before.sections[i])
    &&& forall|i: int| 0 <= i < after.labels.len() ==> !((#[trigger] after.labels[i]).backend_uuid == b
        && in_ids(data.deleted_label_ids@, after.labels[i].remote_id@)) && before.labels.contains(after.labels[i])
    &&& forall|i: int| 0 <= i < before.labels.len() && ((#[trigger] before.labels[i]).backend_uuid != b
        || !in_ids(data.deleted_label_ids@, before.labels[i].remote_id@)) ==> after.labels.contains(before.labels[i])
    &&& forall|i: int| 0 <= i < after.projects.len() ==> !((#[trigger] after.projects[i]).backend_uuid == b
        && in_ids(data.deleted_project_ids@, after.projects[i].remote_id@)) && before.projects.contains(after.projects[i])
    &&& forall|i: int| 0 <= i < before.projects.len() && ((#[trigger] before.projects[i]).backend_uuid != b
        || !in_ids(data.deleted_project_ids@, before.projects[i].remote_id@)) ==> after.projects.contains(before.projects[i])
}

/// Applying the reported deletions removes exactly the backend's open tasks, and the
/// backend's sections, labels and projects, whose remote ids are reported deleted, and
/// keeps everything else, tasks in the trash among them.
pub proof fn lemma_deletions_remove_exactly(v: CacheView, data: BackendSyncData)
    ensures
        reported_deletions_applied(v, deletions_spec(v, data), data),
{
    let b = v.backend_uuid;
    lemma_filter_exact(v.tasks, task_deleted(b, data.deleted_task_ids@));
    lemma_filter_exact(v.sections, section_kept(b, data.deleted_section_ids@));
    lemma_filter_exact(v.labels, label_kept(b, data.deleted_label_ids@));
    lemma_filter_exact(v.projects, project_kept(b, data.deleted_project_ids@));
}

/// The cached project row for a backend project, without a parent yet.
pub open spec fn project_row_spec(uuid: u128, backend: u128, p: BackendProject) -> project::Model {
    project::Model {
        uuid,
        backend_uuid: backend,
        remote_id: p.remote_id,
        name: p.name,
        is_favorite: p.is_favorite,
        is_inbox_project: p.is_inbox,
        order_index: p.order_index,
        parent_uuid: None,
    }
}

/// A project stored: the row with its remote id replaced, keeping its local UUID, or
/// added with the fresh UUID.
pub open spec fn upsert_project(ps: Seq<project::Model>, backend: u128, p: BackendProject, fresh: u128) -> Seq<project::Model> {
    match key_index(project_keys(ps), (backend, p.remote_id@)) {
        Some(i) => ps.update(i, project_row_spec(ps[i].uuid, backend, p)),
        None => ps.push(project_row_spec(fresh, backend, p)),
    }
}

/// The projects stored in order, the k-th new one with the k-th fresh UUID.
pub open spec fn store_projects_spec(ps: Seq<project::Model>, backend: u128, items: Seq<BackendProject>, fresh: Seq<u128>) -> Seq<project::Model>
    decreases items.len(),
{
    if items.len() == 0 {
        ps
    } else {
        upsert_project(store_projects_spec(ps, backend, items.drop_last(), fresh), backend, items.last(), fresh[items.len() - 1])
    }
}

/// A stored project linked to its parent, where both are cached.
pub open spec fn link_parent(ps: Seq<project::Model>, backend: u128, p: BackendProject) -> Seq<project::Model> {
    match (key_index(project_keys(ps), (backend, p.remote_id@)), p.parent_remote_id) {
        (Some(i), Some(parent)) => match key_index(project_keys(ps), (backend, parent@)) {
            Some(j) => ps.update(i, project::Model { parent_uuid: Some(ps[j].uuid), ..ps[i] }),
            None => ps,
        },
        _ => ps,
    }
}

/// The stored projects linked to their parents, in order.
pub open spec fn link_parents_spec(ps: Seq<project::Model>, backend: u128, items: Seq<BackendProject>) -> Seq<project::Model>
    decreases items.len(),
{
    if items.len() == 0 {
        ps
    } else {
        link_parent(link_parents_spec(ps, backend, items.drop_last()), backend, items.last())
    }
}

/// The cached label row for a backend label.
pub open spec fn label_row_spec(uuid: u128, backend: u128, l: BackendLabel) -> label::Model {
    label::Model { uuid, backend_uuid: backend, remote_id: l.remote_id, name: l.name, order_index: l.order_index, is_favorite: l.is_favorite }
}

/// A label stored: replaced keeping its local UUID, or added with the fresh UUID.
pub open spec fn upsert_label(ls: Seq<label::Model>, backend: u128, l: BackendLabel, fresh: u128) -> Seq<label::Model> {
    match key_index(label_keys(ls), (backend, l.remote_id@)) {
        Some(i) => ls.update(i, label_row_spec(ls[i].uuid, backend, l)),
        None => ls.push(label_row_spec(fresh, backend, l)),
    }
}

/// The labels stored in order.
pub open spec fn store_labels_spec(ls: Seq<label::Model>, backend: u128, items: Seq<BackendLabel>, fresh: Seq<u128>) -> Seq<label::Model>
    decreases items.len(),
{
    if items.len() == 0 {
        ls
    } else {
        upsert_label(store_labels_spec(ls, backend, items.drop_last(), fresh), backend, items.last(), fresh[items.len() - 1])
    }
}

/// The cached section row for a backend section in the project the cache resolved.
pub open spec fn section_row_spec(uuid: u128, backend: u128, s: BackendSection, project_uuid: u128) -> section::Model {
    section::Model { uuid, backend_uuid: backend, remote_id: s.remote_id, name: s.name, project_uuid, order_index: s.order_index }
}

/// The local UUID of the cached project of the backend with the remote id.
pub open spec fn project_uuid_in(ps: Seq<project::Model>, backend: u128, remote_id: Seq<char>) -> Option<u128> {
    match key_index(project_keys(ps), (backend, remote_id)) {
        Some(i) => Some(ps[i].uuid),
        None => None,
    }
}

/// The message of a section whose project is not cached.
pub open spec fn missing_project_message(remote_id: Seq<char>) -> Seq<char> {
    "Project with remote_id "@ + remote_id + " not found locally during section sync. Please sync projects first."@
}

/// The failure of storing the sections: the message for the first one whose project is
/// not cached.
pub open spec fn sections_failure(ps: Seq<project::Model>, backend: u128, items: Seq<BackendSection>) -> Option<Seq<char>>
    decreases items.len(),
{
    if items.len() == 0 {
        None
    } else {
        match sections_failure(ps, backend, items.drop_last()) {
            Some(m) => Some(m),
            None => match project_uuid_in(ps, backend, items.last().project_remote_id@) {
                Some(_) => None,
                None => Some(missing_project_message(items.last().project_remote_id@)),
            },
        }
    }
}

/// A section stored in its cached project: replaced keeping its local UUID, or added
/// with the fresh UUID.
pub open spec fn upsert_section(ss: Seq<section::Model>, ps: Seq<project::Model>, backend: u128, s: BackendSection, fresh: u128) -> Seq<section::Model> {
    let project_uuid = project_uuid_in(ps, backend, s.project_remote_id@)->0;
    match key_index(section_keys(ss), (backend, s.remote_id@)) {
        Some(i) => ss.update(i, section_row_spec(ss[i].uuid, backend, s, project_uuid)),
        None => ss.push(section_row_spec(fresh, backend, s, project_uuid)),
    }
}

/// The sections stored in order.
pub open spec fn store_sections_spec(ss: Seq<section::Model>, ps: Seq<project::Model>, backend: u128, items: Seq<BackendSection>, fresh: Seq<u128>) -> Seq<section::Model>
    decreases items.len(),
{
    if items.len() == 0 {
        ss
    } else {
        upsert_section(store_sections_spec(ss, ps, backend, items.drop_last(), fresh), ps, backend, items.last(), fresh[items.len() - 1])
    }
}

/// The first pass of storing a task of a batch: a task of an unknown project is
/// skipped; otherwise the row with its remote id is replaced, keeping its local UUID and
/// trash date, or a row with the fresh UUID is added; its section is the cached one and
/// it has no parent yet.
pub open spec fn upsert_task(v: CacheView, b: BackendTask, fresh: u128) -> Seq<task::Model> {
    match resolve_project(v, b.project_remote_id@) {
        None => v.tasks,
        Some(project_uuid) => {
            let existing = key_index(task_keys(v.tasks), (v.backend_uuid, b.remote_id@));
            let uuid = match existing { Some(i) => v.tasks[i].uuid, None => fresh };
            let row = cached_task_spec(uuid, v.backend_uuid, b, project_uuid, resolve_section(v, b.section_remote_id), None);
            match existing {
                Some(i) => v.tasks.update(i, task::Model { deleted_at: v.tasks[i].deleted_at, ..row }),
                None => v.tasks.push(row),
            }
        },
    }
}

/// The first pass over a batch, in order, the k-th task with the k-th fresh UUID.
pub open spec fn upsert_tasks_spec(v: CacheView, items: Seq<BackendTask>, fresh: Seq<u128>) -> CacheView
    decreases items.len(),
{
    if items.len() == 0 {
        v
    } else {
        let before = upsert_tasks_spec(v, items.drop_last(), fresh);
        CacheView { tasks: upsert_task(before, items.last(), fresh[items.len() - 1]), ..before }
    }
}

/// The second pass for one task of a batch: where the cache holds the task and its
/// parent, the task gets that parent.
pub open spec fn link_task_parent(ts: Seq<task::Model>, backend: u128, b: BackendTask) -> Seq<task::Model> {
    match (key_index(task_keys(ts), (backend, b.remote_id@)), b.parent_remote_id) {
        (Some(i), Some(parent)) => match key_index(task_keys(ts), (backend, parent@)) {
            Some(j) => ts.update(i, task::Model { parent_uuid: Some(ts[j].uuid), ..ts[i] }),
            None => ts,
        },
        _ => ts,
    }
}

/// The second pass over a batch, in order.
pub open spec fn link_task_parents_spec(ts: Seq<task::Model>, backend: u128, items: Seq<BackendTask>) -> Seq<task::Model>
    decreases items.len(),
{
    if items.len() == 0 {
        ts
    } else {
        link_task_parent(link_task_parents_spec(ts, backend, items.drop_last()), backend, items.last())
    }
}

/// Whether the UUID is that of the cached row of one of the batch's tasks.
pub open spec fn in_batch(v: CacheView, items: Seq<BackendTask>, u: u128) -> bool {
    exists|k: int| 0 <= k < items.len() && match key_index(task_keys(v.tasks), (v.backend_uuid, (#[trigger] items[k]).remote_id@)) {
        Some(i) => v.tasks[i].uuid == u,
        None => false,
    }
}

/// The label relations of a batch's stored tasks, in order: for each task of a cached
/// project, those of its label names.
pub open spec fn batch_links(v: CacheView, items: Seq<BackendTask>) -> Seq<(u128, u128)>
    decreases items.len(),
{
    if items.len() == 0 {
        Seq::empty()
    } else {
        let before = batch_links(v, items.drop_last());
        let b = items.last();
        match (resolve_project(v, b.project_remote_id@), key_index(task_keys(v.tasks), (v.backend_uuid, b.remote_id@))) {
            (Some(_), Some(i)) => before + links_spec(v.tasks[i].uuid, b.labels@, v.labels),
            _ => before,
        }
    }
}

/// Storing a batch of tasks: first every task of a cached project is stored without a
/// parent; then each task gets its parent from the cache as it is after the whole
/// batch; last the label relations of the batch's tasks are replaced by those of their
/// label names.
pub open spec fn store_tasks_spec(v: CacheView, items: Seq<BackendTask>, fresh: Seq<u128>) -> CacheView {
    let v1 = upsert_tasks_spec(v, items, fresh);
    let v2 = CacheView { tasks: link_task_parents_spec(v1.tasks, v.backend_uuid, items), ..v1 };
    CacheView {
        task_labels: v.task_labels.filter(|p: (u128, u128)| !in_batch(v2, items, p.0)) + batch_links(v2, items),
        ..v2
    }
}

/// Whether a cached task with the UUID is stale after a full snapshot.
pub open spec fn stale_uuid(ts: Seq<task::Model>, backend: u128, snapshot: Seq<BackendTask>, u: u128) -> bool {
    exists|i: int| 0 <= i < ts.len() && (#[trigger] ts[i]).uuid == u && stale(ts[i], backend, snapshot)
}

/// The cache after a full snapshot: the stale tasks and their label relations removed.
pub open spec fn remove_absent_spec(v: CacheView, snapshot: Seq<BackendTask>) -> CacheView {
    CacheView {
        tasks: v.tasks.filter(|t: task::Model| !stale_uuid(v.tasks, v.backend_uuid, snapshot, t.uuid)),
        task_labels: v.task_labels.filter(|p: (u128, u128)| !stale_uuid(v.tasks, v.backend_uuid, snapshot, p.0)),
        ..v
    }
}

/// Whether one text comes before another, character by character.
pub open spec fn text_before(a: Seq<char>, b: Seq<char>) -> bool
    decreases a.len(),
{
    if a.len() == 0 {
        b.len() > 0
    } else if b.len() == 0 {
        false
    } else if a[0] != b[0] {
        (a[0] as u32) < (b[0] as u32)
    } else {
        text_before(a.drop_first(), b.drop_first())
    }
}

/// A task of the backend in the trash since before the cutoff.
pub open spec fn expired(t: task::Model, backend: u128, cutoff: Seq<char>) -> bool {
    &&& t.backend_uuid == backend
    &&& t.is_deleted
    &&& t.deleted_at is Some
    &&& text_before(t.deleted_at->0@, cutoff)
}

/// The cache with the expired trash removed, and nothing else.
pub open spec fn purge_spec(v: CacheView, cutoff: Seq<char>) -> CacheView {
    CacheView { tasks: v.tasks.filter(|t: task::Model| !expired(t, v.backend_uuid, cutoff)), ..v }
}

/// Whether one text comes before another, character by character (for texts in UTF-8
/// this is the order of their bytes).
pub fn text_before_exec(a: &str, b: &str) -> (r: bool)
    ensures
        r == text_before(a@, b@),
{
    let x = chars_of(a);
    let y = chars_of(b);
    let mut i: usize = 0;
    proof {
        assert(x@.skip(0) =~= x@);
        assert(y@.skip(0) =~= y@);
    }
    while i < x.len() && i < y.len() && x[i] == y[i]
        invariant
            i <= x@.len(),
            i <= y@.len(),
            text_before(x@, y@) == text_before(x@.skip(i as int), y@.skip(i as int)),
        decreases x@.len() - i,
    {
        proof {
            assert(x@.skip(i as int).drop_first() =~= x@.skip(i + 1));
            assert(y@.skip(i as int).drop_first() =~= y@.skip(i + 1));
        }
        i = i + 1;
    }
    if i == x.len() {
        i < y.len()
    } else if i == y.len() {
        false
    } else {
        (x[i] as u32) < (y[i] as u32)
    }
}

impl LocalCache {
    /// Stores a task the backend returned, keeping the local identifier of a task it
    /// already holds; a task of an unknown project is left out.
    pub fn store_task(&mut self, b: &BackendTask, fresh_uuid: u128) -> (r: Option<u128>)
        ensures
            (final(self)@, r) == store_task_spec(old(self)@, *b, fresh_uuid),
            r is None <==> resolve_project(old(self)@, b.project_remote_id@) is None,
            r is None ==> *final(self) == *old(self),
    {
        let backend = self.backend_uuid;
        let project_uuid = match find_project(&self.projects, backend, &b.project_remote_id) {
            Some(i) => self.projects[i].uuid,
            None => return None,
        };
        let section_uuid = match &b.section_remote_id {
            Some(r) => match find_section(&self.sections, backend, r) {
                Some(i) => Some(self.sections[i].uuid),
                None => None,
            },
            None => None,
        };
        let parent_uuid = match &b.parent_remote_id {
            Some(r) => match find_task(&self.tasks, backend, r) {
                Some(i) => Some(self.tasks[i].uuid),
                None => None,
            },
            None => None,
        };
        let existing = find_task(&self.tasks, backend, &b.remote_id);
        let uuid = match existing {
            Some(i) => self.tasks[i].uuid,
            None => fresh_uuid,
        };
        let row = cached_task(uuid, backend, duplicate_backend_task(b), project_uuid, section_uuid, parent_uuid);
        match existing {
            Some(i) => {
                let kept = task::copy_opt_string(&self.tasks[i].deleted_at);
                let row = task::Model { deleted_at: kept, ..row };
                self.tasks.set(i, row);
            },
            None => {
                self.tasks.push(row);
            },
        }
        let mut links = links_of_others(&self.task_labels, uuid);
        let mut added = label_links(uuid, &b.labels, &self.labels);
        links.append(&mut added);
        self.task_labels = links;
        Some(uuid)
    }
}


/// A copy of a list of relations.
fn copy_links(v: &Vec<(u128, u128)>) -> (r: Vec<(u128, u128)>)
    ensures
        r@ == v@,
{
    let mut out: Vec<(u128, u128)> = Vec::new();
    let mut i: usize = 0;
    while i < v.len()
        invariant
            i <= v@.len(),
            out@ == v@.take(i as int),
        decreases v@.len() - i,
    {
        out.push(v[i]);
        proof {
            assert(v@.take(i + 1) =~= v@.take(i as int).push(v@[i as int]));
        }
        i = i + 1;
    }
    proof {
        assert(v@.take(i as int) =~= v@);
    }
    out
}

/// The fresh UUIDs from a position on, as many as there are items.
pub open spec fn fresh_from(fresh: Seq<u128>, offset: int, n: int) -> Seq<u128> {
    fresh.subrange(offset, offset + n)
}

impl LocalCache {
    /// A copy of the cache.
    pub fn duplicate(&self) -> (r: Self)
        ensures
            r@ == self@,
    {
        LocalCache {
            backend_uuid: self.backend_uuid,
            sync_token: task::copy_opt_string(&self.sync_token),
            projects: project::duplicate_all(&self.projects),
            labels: label::duplicate_all(&self.labels),
            sections: section::duplicate_all(&self.sections),
            tasks: task::duplicate_all(&self.tasks),
            task_labels: copy_links(&self.task_labels),
        }
    }

    /// Removes the records that an incremental sync reports deleted.
    pub fn apply_deletions(&mut self, data: &BackendSyncData)
        ensures
            final(self)@ == deletions_spec(old(self)@, *data),
            reported_deletions_applied(old(self)@, final(self)@, *data),
    {
        proof {
            lemma_deletions_remove_exactly(self@, *data);
        }
        let backend = self.backend_uuid;
        let ghost v = self@;
        let mut tasks: Vec<task::Model> = Vec::new();
        let mut i: usize = 0;
        while i < self.tasks.len()
            invariant
                self@ == v,
                i <= v.tasks.len(),
                tasks@ == v.tasks.take(i as int).filter(task_deleted(backend, data.deleted_task_ids@)),
            decreases v.tasks.len() - i,
        {
            proof {
                assert(v.tasks.take(i + 1) =~= v.tasks.take(i as int).push(v.tasks[i as int]));
                v.tasks.take(i as int).lemma_filter_push(v.tasks[i as int], task_deleted(backend, data.deleted_task_ids@));
            }
            let t = &self.tasks[i];
            if !(t.backend_uuid == backend && !t.is_deleted && has_id(&data.deleted_task_ids, &t.remote_id)) {
                tasks.push(t.duplicate());
            }
            i = i + 1;
        }
        let mut sections: Vec<section::Model> = Vec::new();
        let mut i: usize = 0;
        while i < self.sections.len()
            invariant
                self@ == v,
                i <= v.sections.len(),
                sections@ == v.sections.take(i as int).filter(section_kept(backend, data.deleted_section_ids@)),
            decreases v.sections.len() - i,
        {
            proof {
                assert(v.sections.take(i + 1) =~= v.sections.take(i as int).push(v.sections[i as int]));
                v.sections.take(i as int).lemma_filter_push(v.sections[i as int], section_kept(backend, data.deleted_section_ids@));
            }
            let x = &self.sections[i];
            if !(x.backend_uuid == backend && has_id(&data.deleted_section_ids, &x.remote_id)) {
                sections.push(x.duplicate());
            }
            i = i + 1;
        }
        let mut labels: Vec<label::Model> = Vec::new();
        let mut i: usize = 0;
        while i < self.labels.len()
            invariant
                self@ == v,
                i <= v.labels.len(),
                labels@ == v.labels.take(i as int).filter(label_kept(backend, data.deleted_label_ids@)),
            decreases v.labels.len() - i,
        {
            proof {
                assert(v.labels.take(i + 1) =~= v.labels.take(i as int).push(v.labels[i as int]));
                v.labels.take(i as int).lemma_filter_push(v.labels[i as int], label_kept(backend, data.deleted_label_ids@));
            }
            let x = &self.labels[i];
            if !(x.backend_uuid == backend && has_id(&data.deleted_label_ids, &x.remote_id)) {
                labels.push(x.duplicate());
            }
            i = i + 1;
        }
        let mut projects: Vec<project::Model> = Vec::new();
        let mut i: usize = 0;
        while i < self.projects.len()
            invariant
                self@ == v,
                i <= v.projects.len(),
                projects@ == v.projects.take(i as int).filter(project_kept(backend, data.deleted_project_ids@)),
            decreases v.projects.len() - i,
        {
            proof {
                assert(v.projects.take(i + 1) =~= v.projects.take(i as int).push(v.projects[i as int]));
                v.projects.take(i as int).lemma_filter_push(v.projects[i as int], project_kept(backend, data.deleted_project_ids@));
            }
            let x = &self.projects[i];
            if !(x.backend_uuid == backend && has_id(&data.deleted_project_ids, &x.remote_id)) {
                projects.push(x.duplicate());
            }
            i = i + 1;
        }
        proof {
            assert(v.tasks.take(v.tasks.len() as int) =~= v.tasks);
            assert(v.sections.take(v.sections.len() as int) =~= v.sections);
            assert(v.labels.take(v.labels.len() as int) =~= v.labels);
            assert(v.projects.take(v.projects.len() as int) =~= v.projects);
        }
        self.tasks = tasks;
        self.sections = sections;
        self.labels = labels;
        self.projects = projects;
    }
}


impl LocalCache {
    /// Stores one project.
    fn upsert_project_one(&mut self, p: &BackendProject, fresh: u128)
        ensures
            final(self)@ == (CacheView { projects: upsert_project(old(self)@.projects, old(self).backend_uuid, *p, fresh), ..old(self)@ }),
    {
        let backend = self.backend_uuid;
        match find_project(&self.projects, backend, &p.remote_id) {
            Some(i) => {
                let u = self.projects[i].uuid;
                self.projects.set(i, project_row(u, backend, p));
            },
            None => {
                self.projects.push(project_row(fresh, backend, p));
            },
        }
    }

    /// Links one stored project to its parent, where both are cached.
    fn link_parent_one(&mut self, p: &BackendProject)
        ensures
            final(self)@ == (CacheView { projects: link_parent(old(self)@.projects, old(self).backend_uuid, *p), ..old(self)@ }),
    {
        let backend = self.backend_uuid;
        if let Some(i) = find_project(&self.projects, backend, &p.remote_id) {
            if let Some(parent) = &p.parent_remote_id {
                if let Some(j) = find_project(&self.projects, backend, parent) {
                    let pu = self.projects[j].uuid;
                    let row = project::Model { parent_uuid: Some(pu), ..self.projects[i].duplicate() };
                    self.projects.set(i, row);
                }
            }
        }
    }

    /// Stores the backend's projects, then links each to its parent.
    pub fn store_projects(&mut self, items: &Vec<BackendProject>, fresh: &Vec<u128>, offset: usize)
        requires
            offset + items@.len() <= fresh@.len(),
        ensures
            final(self)@ == (CacheView {
                projects: link_parents_spec(
                    store_projects_spec(old(self)@.projects, old(self).backend_uuid, items@, fresh_from(fresh@, offset as int, items@.len() as int)),
                    old(self).backend_uuid, items@),
                ..old(self)@
            }),
    {
        let ghost v = self@;
        let ghost fs = fresh_from(fresh@, offset as int, items@.len() as int);
        let mut k: usize = 0;
        while k < items.len()
            invariant
                k <= items@.len(),
                offset + items@.len() <= fresh@.len(),
                fs == fresh_from(fresh@, offset as int, items@.len() as int),
                self@ == (CacheView { projects: store_projects_spec(v.projects, v.backend_uuid, items@.take(k as int), fs), ..v }),
            decreases items@.len() - k,
        {
            proof {
                assert(items@.take(k + 1).drop_last() =~= items@.take(k as int));
                assert(items@.take(k + 1).last() == items@[k as int]);
                assert(fs[k as int] == fresh@[offset + k]);
            }
            assert(offset + k < fresh.len());
            self.upsert_project_one(&items[k], fresh[offset + k]);
            k = k + 1;
        }
        proof {
            assert(items@.take(k as int) =~= items@);
        }
        let ghost stored = self@;
        let mut k: usize = 0;
        while k < items.len()
            invariant
                k <= items@.len(),
                self@ == (CacheView { projects: link_parents_spec(stored.projects, v.backend_uuid, items@.take(k as int)), ..stored }),
                stored.backend_uuid == v.backend_uuid,
            decreases items@.len() - k,
        {
            proof {
                assert(items@.take(k + 1).drop_last() =~= items@.take(k as int));
                assert(items@.take(k + 1).last() == items@[k as int]);
            }
            self.link_parent_one(&items[k]);
            k = k + 1;
        }
        proof {
            assert(items@.take(k as int) =~= items@);
        }
    }

    /// Stores one label.
    fn upsert_label_one(&mut self, l: &BackendLabel, fresh: u128)
        ensures
            final(self)@ == (CacheView { labels: upsert_label(old(self)@.labels, old(self).backend_uuid, *l, fresh), ..old(self)@ }),
    {
        let backend = self.backend_uuid;
        match find_label(&self.labels, backend, &l.remote_id) {
            Some(i) => {
                let u = self.labels[i].uuid;
                self.labels.set(i, label_row(u, backend, l));
            },
            None => {
                self.labels.push(label_row(fresh, backend, l));
            },
        }
    }

    /// Stores the backend's labels.
    pub fn store_labels(&mut self, items: &Vec<BackendLabel>, fresh: &Vec<u128>, offset: usize)
        requires
            offset + items@.len() <= fresh@.len(),
        ensures
            final(self)@ == (CacheView {
                labels: store_labels_spec(old(self)@.labels, old(self).backend_uuid, items@, fresh_from(fresh@, offset as int, items@.len() as int)),
                ..old(self)@
            }),
    {
        let ghost v = self@;
        let ghost fs = fresh_from(fresh@, offset as int, items@.len() as int);
        let mut k: usize = 0;
        while k < items.len()
            invariant
                k <= items@.len(),
                offset + items@.len() <= fresh@.len(),
                fs == fresh_from(fresh@, offset as int, items@.len() as int),
                self@ == (CacheView { labels: store_labels_spec(v.labels, v.backend_uuid, items@.take(k as int), fs), ..v }),
            decreases items@.len() - k,
        {
            proof {
                assert(items@.take(k + 1).drop_last() =~= items@.take(k as int));
                assert(items@.take(k + 1).last() == items@[k as int]);
                assert(fs[k as int] == fresh@[offset + k]);
            }
            assert(offset + k < fresh.len());
            self.upsert_label_one(&items[k], fresh[offset + k]);
            k = k + 1;
        }
        proof {
            assert(items@.take(k as int) =~= items@);
        }
    }
}


/// The text of the message for a section whose project is not cached.
fn missing_project_text(remote_id: &String) -> (m: String)
    ensures
        m@ == missing_project_message(remote_id@),
{
    let mut m = String::from_str("Project with remote_id ");
    m.append(remote_id.as_str());
    m.append(" not found locally during section sync. Please sync projects first.");
    m
}

impl LocalCache {
    /// Stores one section in its cached project.
    fn upsert_section_one(&mut self, x: &BackendSection, fresh: u128, project_uuid: u128)
        requires
            project_uuid_in(old(self).projects@, old(self).backend_uuid, x.project_remote_id@) == Some(project_uuid),
        ensures
            final(self)@ == (CacheView {
                sections: upsert_section(old(self)@.sections, old(self)@.projects, old(self).backend_uuid, *x, fresh),
                ..old(self)@
            }),
    {
        let backend = self.backend_uuid;
        match find_section(&self.sections, backend, &x.remote_id) {
            Some(i) => {
                let u = self.sections[i].uuid;
                self.sections.set(i, section_row(u, backend, x, project_uuid));
            },
            None => {
                self.sections.push(section_row(fresh, backend, x, project_uuid));
            },
        }
    }

    /// Stores the backend's sections, each in its cached project; where a section's
    /// project is not cached, nothing is stored and the first such section is reported.
    pub fn store_sections(&mut self, items: &Vec<BackendSection>, fresh: &Vec<u128>, offset: usize) -> (r: Result<(), String>)
        requires
            offset + items@.len() <= fresh@.len(),
        ensures
            match sections_failure(old(self)@.projects, old(self).backend_uuid, items@) {
                Some(m) => r matches Err(e) && e@ == m && final(self)@ == old(self)@,
                None => r is Ok && final(self)@ == (CacheView {
                    sections: store_sections_spec(old(self)@.sections, old(self)@.projects, old(self).backend_uuid, items@,
                        fresh_from(fresh@, offset as int, items@.len() as int)),
                    ..old(self)@
                }),
            },
    {
        let backend = self.backend_uuid;
        let mut k: usize = 0;
        while k < items.len()
            invariant
                k <= items@.len(),
                sections_failure(self@.projects, backend, items@.take(k as int)) is None,
                backend == self.backend_uuid,
            decreases items@.len() - k,
        {
            proof {
                assert(items@.take(k + 1).drop_last() =~= items@.take(k as int));
                assert(items@.take(k + 1).last() == items@[k as int]);
            }
            if find_project(&self.projects, backend, &items[k].project_remote_id).is_none() {
                proof {
                    lemma_failure_prefix(self@.projects, backend, items@, k as int + 1);
                }
                return Err(missing_project_text(&items[k].project_remote_id));
            }
            k = k + 1;
        }
        proof {
            assert(items@.take(k as int) =~= items@);
        }
        let ghost v = self@;
        let ghost fs = fresh_from(fresh@, offset as int, items@.len() as int);
        let mut k: usize = 0;
        while k < items.len()
            invariant
                k <= items@.len(),
                offset + items@.len() <= fresh@.len(),
                fs == fresh_from(fresh@, offset as int, items@.len() as int),
                sections_failure(v.projects, v.backend_uuid, items@) is None,
                self@ == (CacheView { sections: store_sections_spec(v.sections, v.projects, v.backend_uuid, items@.take(k as int), fs), ..v }),
            decreases items@.len() - k,
        {
            proof {
                assert(items@.take(k + 1).drop_last() =~= items@.take(k as int));
                assert(items@.take(k + 1).last() == items@[k as int]);
                assert(fs[k as int] == fresh@[offset + k]);
                lemma_no_failure_each(v.projects, v.backend_uuid, items@, k as int);
            }
            let pu = match find_project(&self.projects, self.backend_uuid, &items[k].project_remote_id) {
                Some(i) => self.projects[i].uuid,
                None => 0,
            };
            assert(offset + k < fresh.len());
            self.upsert_section_one(&items[k], fresh[offset + k], pu);
            k = k + 1;
        }
        proof {
            assert(items@.take(k as int) =~= items@);
        }
        Ok(())
    }
}

/// Where the first `n` sections already fail, so do all.
proof fn lemma_failure_prefix(ps: Seq<project::Model>, backend: u128, items: Seq<BackendSection>, n: int)
    requires
        0 < n <= items.len(),
        sections_failure(ps, backend, items.take(n - 1)) is None,
        project_uuid_in(ps, backend, items[n - 1].project_remote_id@) is None,
    ensures
        sections_failure(ps, backend, items) == Some(missing_project_message(items[n - 1].project_remote_id@)),
    decreases items.len(),
{
    assert(items.take(n).drop_last() =~= items.take(n - 1));
    assert(items.take(n).last() == items[n - 1]);
    if n < items.len() {
        assert(items.drop_last().take(n - 1) =~= items.take(n - 1));
        assert(items.drop_last()[n - 1] == items[n - 1]);
        lemma_failure_prefix(ps, backend, items.drop_last(), n);
    } else {
        assert(items.take(n) =~= items);
    }
}

/// Where storing the sections does not fail, each section's project is cached.
proof fn lemma_no_failure_each(ps: Seq<project::Model>, backend: u128, items: Seq<BackendSection>, k: int)
    requires
        0 <= k < items.len(),
        sections_failure(ps, backend, items) is None,
    ensures
        project_uuid_in(ps, backend, items[k].project_remote_id@) is Some,
    decreases items.len(),
{
    if k < items.len() - 1 {
        lemma_no_failure_each(ps, backend, items.drop_last(), k);
    }
}

/// The relations of tasks that are not stale, in order.
fn links_not_stale(links: &Vec<(u128, u128)>, stale_ids: &Vec<u128>, ghost_pred: Ghost<spec_fn(u128) -> bool>) -> (r: Vec<(u128, u128)>)
    requires
        forall|u: u128| stale_ids@.contains(u) <==> (ghost_pred@)(u),
    ensures
        r@ == links@.filter(|p: (u128, u128)| !(ghost_pred@)(p.0)),
{
    let ghost f = |p: (u128, u128)| !(ghost_pred@)(p.0);
    let mut out: Vec<(u128, u128)> = Vec::new();
    let mut i: usize = 0;
    while i < links.len()
        invariant
            i <= links@.len(),
            f == (|p: (u128, u128)| !(ghost_pred@)(p.0)),
            forall|u: u128| stale_ids@.contains(u) <==> (ghost_pred@)(u),
            out@ == links@.take(i as int).filter(f),
        decreases links@.len() - i,
    {
        proof {
            assert(links@.take(i + 1) =~= links@.take(i as int).push(links@[i as int]));
            links@.take(i as int).lemma_filter_push(links@[i as int], f);
        }
        if !has_uuid(stale_ids, links[i].0) {
            out.push(links[i]);
        }
        i = i + 1;
    }
    proof {
        assert(links@.take(i as int) =~= links@);
    }
    out
}

/// Whether the list holds the UUID.
fn has_uuid(ids: &Vec<u128>, u: u128) -> (b: bool)
    ensures
        b == ids@.contains(u),
{
    let mut i: usize = 0;
    while i < ids.len()
        invariant
            i <= ids@.len(),
            forall|j: int| 0 <= j < i ==> ids@[j] != u,
        decreases ids@.len() - i,
    {
        if ids[i] == u {
            return true;
        }
        i = i + 1;
    }
    false
}


impl LocalCache {
    /// Stores the first pass of one task of a batch.
    fn upsert_task_one(&mut self, b: &BackendTask, fresh_uuid: u128)
        ensures
            final(self)@ == (CacheView { tasks: upsert_task(old(self)@, *b, fresh_uuid), ..old(self)@ }),
    {
        let backend = self.backend_uuid;
        let project_uuid = match find_project(&self.projects, backend, &b.project_remote_id) {
            Some(i) => self.projects[i].uuid,
            None => return,
        };
        let section_uuid = match &b.section_remote_id {
            Some(r) => match find_section(&self.sections, backend, r) {
                Some(i) => Some(self.sections[i].uuid),
                None => None,
            },
            None => None,
        };
        let existing = find_task(&self.tasks, backend, &b.remote_id);
        let uuid = match existing {
            Some(i) => self.tasks[i].uuid,
            None => fresh_uuid,
        };
        let row = cached_task(uuid, backend, duplicate_backend_task(b), project_uuid, section_uuid, None);
        match existing {
            Some(i) => {
                let kept = task::copy_opt_string(&self.tasks[i].deleted_at);
                let row = task::Model { deleted_at: kept, ..row };
                self.tasks.set(i, row);
            },
            None => {
                self.tasks.push(row);
            },
        }
    }

    /// The second pass for one task of a batch.
    fn link_task_parent_one(&mut self, b: &BackendTask)
        ensures
            final(self)@ == (CacheView { tasks: link_task_parent(old(self)@.tasks, old(self).backend_uuid, *b), ..old(self)@ }),
    {
        let backend = self.backend_uuid;
        if let Some(i) = find_task(&self.tasks, backend, &b.remote_id) {
            if let Some(parent) = &b.parent_remote_id {
                if let Some(j) = find_task(&self.tasks, backend, parent) {
                    let pu = self.tasks[j].uuid;
                    let row = task::Model { parent_uuid: Some(pu), ..self.tasks[i].duplicate() };
                    self.tasks.set(i, row);
                }
            }
        }
    }

    /// Stores a batch of tasks: every task of a cached project without a parent first,
    /// the k-th with the k-th fresh UUID where it is new; then the parents, from the cache
    /// after the whole batch; then the label relations of the batch's tasks.
    pub fn store_tasks(&mut self, items: &Vec<BackendTask>, fresh: &Vec<u128>, offset: usize)
        requires
            offset + items@.len() <= fresh@.len(),
        ensures
            final(self)@ == store_tasks_spec(old(self)@, items@, fresh_from(fresh@, offset as int, items@.len() as int)),
    {
        let ghost v = self@;
        let ghost fs = fresh_from(fresh@, offset as int, items@.len() as int);
        let mut k: usize = 0;
        while k < items.len()
            invariant
                k <= items@.len(),
                offset + items@.len() <= fresh@.len(),
                fs == fresh_from(fresh@, offset as int, items@.len() as int),
                self@ == upsert_tasks_spec(v, items@.take(k as int), fs),
            decreases items@.len() - k,
        {
            proof {
                assert(items@.take(k + 1).drop_last() =~= items@.take(k as int));
                assert(items@.take(k + 1).last() == items@[k as int]);
                assert(fs[k as int] == fresh@[offset + k]);
            }
            assert(offset + k < fresh.len());
            self.upsert_task_one(&items[k], fresh[offset + k]);
            k = k + 1;
        }
        proof {
            assert(items@.take(k as int) =~= items@);
        }
        let ghost v1 = self@;
        let mut k: usize = 0;
        while k < items.len()
            invariant
                k <= items@.len(),
                self@ == (CacheView { tasks: link_task_parents_spec(v1.tasks, v1.backend_uuid, items@.take(k as int)), ..v1 }),
            decreases items@.len() - k,
        {
            proof {
                assert(items@.take(k + 1).drop_last() =~= items@.take(k as int));
                assert(items@.take(k + 1).last() == items@[k as int]);
            }
            self.link_task_parent_one(&items[k]);
            k = k + 1;
        }
        proof {
            assert(items@.take(k as int) =~= items@);
        }
        let ghost v2 = self@;
        let backend = self.backend_uuid;
        let mut batch: Vec<u128> = Vec::new();
        let mut added: Vec<(u128, u128)> = Vec::new();
        let mut k: usize = 0;
        while k < items.len()
            invariant
                k <= items@.len(),
                self@ == v2,
                backend == v2.backend_uuid,
                forall|u: u128| batch@.contains(u) <==> in_batch(v2, items@.take(k as int), u),
                added@ == batch_links(v2, items@.take(k as int)),
            decreases items@.len() - k,
        {
            proof {
                assert(items@.take(k + 1).drop_last() =~= items@.take(k as int));
                assert(items@.take(k + 1).last() == items@[k as int]);
            }
            let ghost before = batch@;
            let found = find_task(&self.tasks, backend, &items[k].remote_id);
            match found {
                Some(i) => {
                    let u = self.tasks[i].uuid;
                    batch.push(u);
                    if find_project(&self.projects, backend, &items[k].project_remote_id).is_some() {
                        let mut more = label_links(u, &items[k].labels, &self.labels);
                        added.append(&mut more);
                    }
                },
                None => {},
            }
            proof {
                let t = items@.take(k + 1);
                assert forall|u: u128| batch@.contains(u) <==> in_batch(v2, t, u) by {
                    if batch@.contains(u) {
                        let w = choose|w: int| 0 <= w < batch@.len() && batch@[w] == u;
                        if w < before.len() {
                            assert(before.contains(u));
                            let m = choose|m: int| 0 <= m < k && match key_index(task_keys(v2.tasks), (v2.backend_uuid, (#[trigger] items@.take(k as int)[m]).remote_id@)) {
                                Some(i) => v2.tasks[i].uuid == u,
                                None => false,
                            };
                            assert(t[m] == items@.take(k as int)[m]);
                        } else {
                            assert(t[k as int] == items@[k as int]);
                        }
                    }
                    if in_batch(v2, t, u) {
                        let m = choose|m: int| 0 <= m < t.len() && match key_index(task_keys(v2.tasks), (v2.backend_uuid, (#[trigger] t[m]).remote_id@)) {
                            Some(i) => v2.tasks[i].uuid == u,
                            None => false,
                        };
                        if m < k {
                            assert(items@.take(k as int)[m] == t[m]);
                            assert(in_batch(v2, items@.take(k as int), u));
                            assert(before.contains(u));
                            let w = choose|w: int| 0 <= w < before.len() && before[w] == u;
                            assert(batch@[w] == u);
                        } else {
                            assert(t[m] == items@[k as int]);
                            assert(batch@[batch@.len() - 1] == u);
                        }
                    }
                }
            }
            k = k + 1;
        }
        proof {
            assert(items@.take(k as int) =~= items@);
        }
        let ghost pred = |u: u128| in_batch(v2, items@, u);
        let mut kept = links_not_stale(&self.task_labels, &batch, Ghost(pred));
        proof {
            let g1 = |p: (u128, u128)| !pred(p.0);
            let g2 = |p: (u128, u128)| !in_batch(v2, items@, p.0);
            assert(g1 =~= g2);
            assert(kept@ == v2.task_labels.filter(g1));
        }
        kept.append(&mut added);
        self.task_labels = kept;
        proof {
            lemma_passes_keep_links(v, items@, fs);
            assert(v1 == upsert_tasks_spec(v, items@, fs));
            assert(v1.backend_uuid == v.backend_uuid);
            assert(v2.task_labels == v.task_labels);
            let w2 = CacheView { tasks: link_task_parents_spec(v1.tasks, v.backend_uuid, items@), ..v1 };
            assert(w2 == v2);
            assert(self@.task_labels =~= v.task_labels.filter(|p: (u128, u128)| !in_batch(w2, items@, p.0)) + batch_links(w2, items@));
            assert(self@ =~= (CacheView {
                task_labels: v.task_labels.filter(|p: (u128, u128)| !in_batch(w2, items@, p.0)) + batch_links(w2, items@),
                ..w2
            }));
        }
    }

    /// After a full snapshot, removes the backend's open tasks that it no longer lists,
    /// and their label relations.
    pub fn remove_absent_tasks(&mut self, snapshot: &Vec<BackendTask>)
        ensures
            final(self)@ == remove_absent_spec(old(self)@, snapshot@),
    {
        let ghost v = self@;
        let backend = self.backend_uuid;
        let stale_ids = stale_task_uuids(&self.tasks, backend, snapshot);
        let ghost pred = |u: u128| stale_uuid(v.tasks, backend, snapshot@, u);
        assert forall|u: u128| stale_ids@.contains(u) <==> pred(u) by {}
        let ghost f = |t: task::Model| !stale_uuid(v.tasks, backend, snapshot@, t.uuid);
        let mut tasks: Vec<task::Model> = Vec::new();
        let mut i: usize = 0;
        while i < self.tasks.len()
            invariant
                self@ == v,
                backend == v.backend_uuid,
                i <= v.tasks.len(),
                forall|u: u128| stale_ids@.contains(u) <==> pred(u),
                pred == (|u: u128| stale_uuid(v.tasks, backend, snapshot@, u)),
                f == (|t: task::Model| !stale_uuid(v.tasks, backend, snapshot@, t.uuid)),
                tasks@ == v.tasks.take(i as int).filter(f),
            decreases v.tasks.len() - i,
        {
            proof {
                assert(v.tasks.take(i + 1) =~= v.tasks.take(i as int).push(v.tasks[i as int]));
                v.tasks.take(i as int).lemma_filter_push(v.tasks[i as int], f);
                assert(pred(v.tasks[i as int].uuid) == stale_uuid(v.tasks, backend, snapshot@, v.tasks[i as int].uuid));
            }
            if !has_uuid(&stale_ids, self.tasks[i].uuid) {
                tasks.push(self.tasks[i].duplicate());
            }
            i = i + 1;
        }
        proof {
            assert(v.tasks.take(i as int) =~= v.tasks);
        }
        let links = links_not_stale(&self.task_labels, &stale_ids, Ghost(pred));
        proof {
            let g1 = |p: (u128, u128)| !pred(p.0);
            let g2 = |p: (u128, u128)| !stale_uuid(v.tasks, v.backend_uuid, snapshot@, p.0);
            assert(g1 =~= g2);
            assert(links@ == v.task_labels.filter(g1));
            assert(links@ =~= v.task_labels.filter(g2));
        }
        self.tasks = tasks;
        self.task_labels = links;
    }

    /// Removes the backend's tasks that have been in the trash since before the cutoff,
    /// and nothing else.
    pub fn purge_expired_trash(&mut self, cutoff: &str)
        ensures
            final(self)@ == purge_spec(old(self)@, cutoff@),
            expired_trash_purged(old(self)@, final(self)@, cutoff@),
    {
        proof {
            lemma_purge_exactly(self@, cutoff@);
        }
        let ghost v = self@;
        let backend = self.backend_uuid;
        let ghost f = |t: task::Model| !expired(t, backend, cutoff@);
        let mut tasks: Vec<task::Model> = Vec::new();
        let mut i: usize = 0;
        while i < self.tasks.len()
            invariant
                self@ == v,
                backend == v.backend_uuid,
                i <= v.tasks.len(),
                f == (|t: task::Model| !expired(t, backend, cutoff@)),
                tasks@ == v.tasks.take(i as int).filter(f),
            decreases v.tasks.len() - i,
        {
            proof {
                assert(v.tasks.take(i + 1) =~= v.tasks.take(i as int).push(v.tasks[i as int]));
                v.tasks.take(i as int).lemma_filter_push(v.tasks[i as int], f);
            }
            let t = &self.tasks[i];
            let old_enough = match &t.deleted_at {
                Some(d) => text_before_exec(d.as_str(), cutoff),
                None => false,
            };
            if !(t.backend_uuid == backend && t.is_deleted && old_enough) {
                tasks.push(t.duplicate());
            }
            i = i + 1;
        }
        proof {
            assert(v.tasks.take(i as int) =~= v.tasks);
        }
        self.tasks = tasks;
    }
}


/// How many fresh UUIDs a set of backend changes may need: one for each record it holds.
pub open spec fn fresh_needed(data: BackendSyncData) -> int {
    (data.projects@.len() + data.labels@.len() + data.sections@.len() + data.tasks@.len()) as int
}

/// The cache after a set of backend changes is written, all of it or none, in the
/// order of `write_steps`: for an incremental sync the reported deletions; the
/// projects, linked to their parents; the labels; the sections, which fail where a
/// section's project is not cached; the tasks; for a full sync the tasks it no longer
/// lists; the expired trash; and the new sync token, where there is one.  The fresh
/// UUIDs go to the projects, labels, sections and tasks in that order.
pub open spec fn apply_spec(v: CacheView, data: BackendSyncData, cutoff: Seq<char>, fresh: Seq<u128>) -> Result<CacheView, Seq<char>> {
    let b = v.backend_uuid;
    let np = data.projects@.len() as int;
    let nl = data.labels@.len() as int;
    let ns = data.sections@.len() as int;
    let nt = data.tasks@.len() as int;
    let v1 = if data.full_sync { v } else { deletions_spec(v, data) };
    let v2 = CacheView {
        projects: link_parents_spec(store_projects_spec(v1.projects, b, data.projects@, fresh_from(fresh, 0, np)), b, data.projects@),
        ..v1
    };
    let v3 = CacheView { labels: store_labels_spec(v2.labels, b, data.labels@, fresh_from(fresh, np, nl)), ..v2 };
    match sections_failure(v3.projects, b, data.sections@) {
        Some(m) => Err(m),
        None => {
            let v4 = CacheView {
                sections: store_sections_spec(v3.sections, v3.projects, b, data.sections@, fresh_from(fresh, np + nl, ns)),
                ..v3
            };
            let v5 = store_tasks_spec(v4, data.tasks@, fresh_from(fresh, np + nl + ns, nt));
            let v6 = if data.full_sync { remove_absent_spec(v5, data.tasks@) } else { v5 };
            let v7 = purge_spec(v6, cutoff);
            Ok(match data.sync_token {
                Some(t) => CacheView { sync_token: Some(t), ..v7 },
                None => v7,
            })
        },
    }
}

impl LocalCache {
    /// Writes a set of backend changes, all of them or none: the writes run on a copy
    /// that replaces the cache only when every one succeeded.
    pub fn apply(&mut self, data: &BackendSyncData, trash_cutoff: &str, fresh: &Vec<u128>) -> (r: Result<(), String>)
        requires
            fresh_needed(*data) <= fresh@.len(),
        ensures
            match apply_spec(old(self)@, *data, trash_cutoff@, fresh@) {
                Ok(v) => r is Ok && final(self)@ == v,
                Err(m) => r matches Err(e) && e@ == m,
            },
            r is Err ==> *final(self) == *old(self),
    {
        let np = data.projects.len();
        let nl = data.labels.len();
        let ns = data.sections.len();
        assert(np + nl + ns + data.tasks@.len() <= fresh.len());
        let mut next = self.duplicate();
        if !data.full_sync {
            next.apply_deletions(data);
        }
        next.store_projects(&data.projects, fresh, 0);
        next.store_labels(&data.labels, fresh, np);
        if data.sections.len() > 0 {
            match next.store_sections(&data.sections, fresh, np + nl) {
                Ok(()) => {},
                Err(e) => return Err(e),
            }
        } else {
            proof {
                assert(data.sections@.len() == 0);
            }
        }
        next.store_tasks(&data.tasks, fresh, np + nl + ns);
        if data.full_sync {
            next.remove_absent_tasks(&data.tasks);
        }
        next.purge_expired_trash(trash_cutoff);
        match &data.sync_token {
            Some(t) => {
                next.sync_token = Some(t.clone());
            },
            None => {},
        }
        *self = next;
        Ok(())
    }
}

/// After a set of changes is written, no task of the backend that was in the trash
/// since before the cutoff is left in the cache.
pub proof fn lemma_no_expired_trash_left(v: CacheView, data: BackendSyncData, cutoff: Seq<char>, fresh: Seq<u128>)
    requires
        apply_spec(v, data, cutoff, fresh) is Ok,
    ensures
        forall|i: int| 0 <= i < apply_spec(v, data, cutoff, fresh)->Ok_0.tasks.len()
            ==> !expired(#[trigger] apply_spec(v, data, cutoff, fresh)->Ok_0.tasks[i], v.backend_uuid, cutoff),
{
    let w = apply_spec(v, data, cutoff, fresh)->Ok_0;
    let b = v.backend_uuid;
    let f = |t: task::Model| !expired(t, b, cutoff);
    assert forall|i: int| 0 <= i < w.tasks.len() implies !expired(#[trigger] w.tasks[i], b, cutoff) by {
        let pre = w.tasks;
        let np = data.projects@.len() as int;
        let nl = data.labels@.len() as int;
        let ns = data.sections@.len() as int;
        let nt = data.tasks@.len() as int;
        let v1 = if data.full_sync { v } else { deletions_spec(v, data) };
        let v2 = CacheView {
            projects: link_parents_spec(store_projects_spec(v1.projects, b, data.projects@, fresh_from(fresh, 0, np)), b, data.projects@),
            ..v1
        };
        let v3 = CacheView { labels: store_labels_spec(v2.labels, b, data.labels@, fresh_from(fresh, np, nl)), ..v2 };
        let v4 = CacheView {
            sections: store_sections_spec(v3.sections, v3.projects, b, data.sections@, fresh_from(fresh, np + nl, ns)),
            ..v3
        };
        let v5 = store_tasks_spec(v4, data.tasks@, fresh_from(fresh, np + nl + ns, nt));
        let v6 = if data.full_sync { remove_absent_spec(v5, data.tasks@) } else { v5 };
        assert(v6.backend_uuid == b) by {
            lemma_store_tasks_keeps_backend(v4, data.tasks@, fresh_from(fresh, np + nl + ns, nt));
        }
        assert(w.tasks == v6.tasks.filter(f));
        v6.tasks.lemma_filter_pred(f, i);
        assert(f(w.tasks[i]));
    }
}

/// Storing tasks keeps the backend and the sync token.
pub proof fn lemma_store_tasks_keeps_backend(v: CacheView, items: Seq<BackendTask>, fresh: Seq<u128>)
    ensures
        store_tasks_spec(v, items, fresh).backend_uuid == v.backend_uuid,
        store_tasks_spec(v, items, fresh).sync_token == v.sync_token,
{
    lemma_passes_keep_links(v, items, fresh);
}

/// The first pass keeps everything but the tasks.
pub proof fn lemma_passes_keep_links(v: CacheView, items: Seq<BackendTask>, fresh: Seq<u128>)
    ensures
        upsert_tasks_spec(v, items, fresh) == (CacheView { tasks: upsert_tasks_spec(v, items, fresh).tasks, ..v }),
    decreases items.len(),
{
    if items.len() > 0 {
        lemma_passes_keep_links(v, items.drop_last(), fresh);
    }
}

/// Writing a set of changes that carries a sync token stores that token; one without a
/// token keeps the previous token.
pub proof fn lemma_sync_token_written(v: CacheView, data: BackendSyncData, cutoff: Seq<char>, fresh: Seq<u128>)
    requires
        apply_spec(v, data, cutoff, fresh) is Ok,
    ensures
        data.sync_token is Some ==> apply_spec(v, data, cutoff, fresh)->Ok_0.sync_token == data.sync_token,
        data.sync_token is None ==> apply_spec(v, data, cutoff, fresh)->Ok_0.sync_token == v.sync_token,
{
    let b = v.backend_uuid;
    let np = data.projects@.len() as int;
    let nl = data.labels@.len() as int;
    let ns = data.sections@.len() as int;
    let nt = data.tasks@.len() as int;
    let v1 = if data.full_sync { v } else { deletions_spec(v, data) };
    let v2 = CacheView {
        projects: link_parents_spec(store_projects_spec(v1.projects, b, data.projects@, fresh_from(fresh, 0, np)), b, data.projects@),
        ..v1
    };
    let v3 = CacheView { labels: store_labels_spec(v2.labels, b, data.labels@, fresh_from(fresh, np, nl)), ..v2 };
    let v4 = CacheView {
        sections: store_sections_spec(v3.sections, v3.projects, b, data.sections@, fresh_from(fresh, np + nl, ns)),
        ..v3
    };
    lemma_store_tasks_keeps_backend(v4, data.tasks@, fresh_from(fresh, np + nl + ns, nt));
}


impl LocalCache {
    /// A cache of a backend with nothing in it yet.
    pub fn new(backend_uuid: u128) -> (c: Self)
        ensures
            c.backend_uuid == backend_uuid,
            c.sync_token is None,
            c@.projects.len() == 0 && c@.labels.len() == 0 && c@.sections.len() == 0,
            c@.tasks.len() == 0 && c@.task_labels.len() == 0,
    {
        LocalCache {
            backend_uuid,
            sync_token: None,
            projects: Vec::new(),
            labels: Vec::new(),
            sections: Vec::new(),
            tasks: Vec::new(),
            task_labels: Vec::new(),
        }
    }

    /// The local UUID of the cached project with the remote id.
    pub fn project_uuid_of(&self, remote_id: &String) -> (r: Option<u128>)
        ensures
            r == resolve_project(self@, remote_id@),
    {
        match find_project(&self.projects, self.backend_uuid, remote_id) {
            Some(i) => Some(self.projects[i].uuid),
            None => None,
        }
    }

    /// The local UUID of the cached task with the remote id.
    pub fn task_uuid_of(&self, remote_id: &String) -> (r: Option<u128>)
        ensures
            r == resolve_task(self@, Some(*remote_id)),
    {
        match find_task(&self.tasks, self.backend_uuid, remote_id) {
            Some(i) => Some(self.tasks[i].uuid),
            None => None,
        }
    }

    /// Stores one project the backend returned and links it to its parent; gives its
    /// local UUID, kept where the cache held it, the fresh one otherwise.
    pub fn store_project(&mut self, p: &BackendProject, fresh: u128) -> (u: u128)
        ensures
            final(self)@ == (CacheView {
                projects: link_parent(upsert_project(old(self)@.projects, old(self).backend_uuid, *p, fresh), old(self).backend_uuid, *p),
                ..old(self)@
            }),
            u == match key_index(project_keys(old(self)@.projects), (old(self).backend_uuid, p.remote_id@)) {
                Some(i) => old(self)@.projects[i].uuid,
                None => fresh,
            },
    {
        let u = match find_project(&self.projects, self.backend_uuid, &p.remote_id) {
            Some(i) => self.projects[i].uuid,
            None => fresh,
        };
        self.upsert_project_one(p, fresh);
        self.link_parent_one(p);
        u
    }

    /// Stores one label the backend returned; gives its local UUID, kept where the cache
    /// held it, the fresh one otherwise.
    pub fn store_label(&mut self, l: &BackendLabel, fresh: u128) -> (u: u128)
        ensures
            final(self)@ == (CacheView { labels: upsert_label(old(self)@.labels, old(self).backend_uuid, *l, fresh), ..old(self)@ }),
            u == match key_index(label_keys(old(self)@.labels), (old(self).backend_uuid, l.remote_id@)) {
                Some(i) => old(self)@.labels[i].uuid,
                None => fresh,
            },
    {
        let u = match find_label(&self.labels, self.backend_uuid, &l.remote_id) {
            Some(i) => self.labels[i].uuid,
            None => fresh,
        };
        self.upsert_label_one(l, fresh);
        u
    }
}


/// The tasks a view lists from the cache: the trash for the Trash view, the open
/// tasks with the label for a label view, and every task not in the trash otherwise.
pub open spec fn listed_for(v: CacheView, selection: SidebarSelection) -> spec_fn(task::Model) -> bool {
    |t: task::Model| match selection {
        SidebarSelection::Trash => t.is_deleted,
        SidebarSelection::Label(l) => !t.is_deleted && v.task_labels.contains((t.uuid, l)),
        _ => !t.is_deleted,
    }
}

/// Whether a task is open, not in the trash, and has the label.
pub open spec fn counted_for_label(v: CacheView, l: u128) -> spec_fn(task::Model) -> bool {
    |t: task::Model| !t.is_deleted && !t.is_completed && v.task_labels.contains((t.uuid, l))
}

/// For each label, in order, the number of its open tasks.
pub open spec fn label_counts_spec(v: CacheView) -> Seq<(u128, usize)> {
    v.labels.map_values(|lb: label::Model| (lb.uuid, v.tasks.filter(counted_for_label(v, lb.uuid)).len() as usize))
}

/// Whether the relations hold the pair.
fn has_link(links: &Vec<(u128, u128)>, t: u128, l: u128) -> (b: bool)
    ensures
        b == links@.contains((t, l)),
{
    let mut i: usize = 0;
    while i < links.len()
        invariant
            i <= links@.len(),
            forall|j: int| 0 <= j < i ==> links@[j] != (t, l),
        decreases links@.len() - i,
    {
        if links[i].0 == t && links[i].1 == l {
            assert(links@[i as int] == (t, l));
            return true;
        }
        i = i + 1;
    }
    false
}

impl LocalCache {
    /// The number of open tasks with the label.
    fn label_count(&self, l: u128) -> (n: usize)
        ensures
            n == self.tasks@.filter(counted_for_label(self@, l)).len(),
    {
        let ghost f = counted_for_label(self@, l);
        let mut n: usize = 0;
        let mut i: usize = 0;
        while i < self.tasks.len()
            invariant
                i <= self.tasks@.len(),
                f == counted_for_label(self@, l),
                n == self.tasks@.take(i as int).filter(f).len(),
                n <= i,
            decreases self.tasks@.len() - i,
        {
            proof {
                assert(self.tasks@.take(i + 1) =~= self.tasks@.take(i as int).push(self.tasks@[i as int]));
                self.tasks@.take(i as int).lemma_filter_push(self.tasks@[i as int], f);
            }
            let t = &self.tasks[i];
            if !t.is_deleted && !t.is_completed && has_link(&self.task_labels, t.uuid, l) {
                n = n + 1;
            }
            i = i + 1;
        }
        proof {
            assert(self.tasks@.take(i as int) =~= self.tasks@);
        }
        n
    }

    /// The data of a view: the records, the tasks the view lists (the task list picks
    /// and orders them further), every task for parent titles, and the counts.
    pub fn snapshot(&self, selection: SidebarSelection, generation: u64, initial: bool, today: i32) -> (r: ViewSnapshot)
        requires
            -0x4000_0000 < today < 0x4000_0000,
        ensures
            r.generation == generation,
            r.selection == selection,
            r.is_initial == initial,
            r.projects@ == self.projects@,
            r.labels@ == self.labels@,
            r.sections@ == self.sections@,
            r.tasks@ == self.tasks@.filter(listed_for(self@, selection)),
            r.all_tasks@ == self.tasks@,
            counts_match(r.navigation_counts, self.tasks@, today as int, label_counts_spec(self@)),
            view_listing(self@, selection, r.tasks@),
            label_counts_open(self@, r.navigation_counts.labels@),
    {
        let count = self.tasks.len();
        proof {
            assert(self.tasks@.len() == count);
            lemma_snapshot_laws(self@, selection);
        }
        let ghost f = listed_for(self@, selection);
        let mut listed: Vec<task::Model> = Vec::new();
        let mut i: usize = 0;
        while i < self.tasks.len()
            invariant
                i <= self.tasks@.len(),
                f == listed_for(self@, selection),
                listed@ == self.tasks@.take(i as int).filter(f),
            decreases self.tasks@.len() - i,
        {
            proof {
                assert(self.tasks@.take(i + 1) =~= self.tasks@.take(i as int).push(self.tasks@[i as int]));
                self.tasks@.take(i as int).lemma_filter_push(self.tasks@[i as int], f);
            }
            let t = &self.tasks[i];
            let keep = match selection {
                SidebarSelection::Trash => t.is_deleted,
                SidebarSelection::Label(l) => !t.is_deleted && has_link(&self.task_labels, t.uuid, l),
                _ => !t.is_deleted,
            };
            if keep {
                listed.push(t.duplicate());
            }
            i = i + 1;
        }
        proof {
            assert(self.tasks@.take(i as int) =~= self.tasks@);
        }
        let mut counts: Vec<(u128, usize)> = Vec::new();
        let mut k: usize = 0;
        while k < self.labels.len()
            invariant
                k <= self.labels@.len(),
                counts@ == label_counts_spec(self@).take(k as int),
            decreases self.labels@.len() - k,
        {
            let u = self.labels[k].uuid;
            let n = self.label_count(u);
            counts.push((u, n));
            proof {
                assert(label_counts_spec(self@).take(k + 1) =~= label_counts_spec(self@).take(k as int).push(label_counts_spec(self@)[k as int]));
            }
            k = k + 1;
        }
        proof {
            assert(label_counts_spec(self@).take(k as int) =~= label_counts_spec(self@));
        }
        let navigation = navigation_counts(&self.tasks, today, counts);
        ViewSnapshot {
            generation,
            selection,
            is_initial: initial,
            projects: project::duplicate_all(&self.projects),
            labels: label::duplicate_all(&self.labels),
            sections: section::duplicate_all(&self.sections),
            tasks: listed,
            all_tasks: task::duplicate_all(&self.tasks),
            navigation_counts: navigation,
        }
    }
}


/// Whether a cached task with the UUID is in the trash.
pub open spec fn trashed(ts: Seq<task::Model>, u: u128) -> bool {
    exists|i: int| 0 <= i < ts.len() && (#[trigger] ts[i]).uuid == u && ts[i].is_deleted
}

impl LocalCache {
    /// Empties the trash: every task in it, and its label relations, are removed; gives
    /// how many tasks were removed.
    pub fn empty_trash(&mut self) -> (n: usize)
        ensures
            final(self)@ == (CacheView {
                tasks: old(self)@.tasks.filter(|t: task::Model| !t.is_deleted),
                task_labels: old(self)@.task_labels.filter(|p: (u128, u128)| !trashed(old(self)@.tasks, p.0)),
                ..old(self)@
            }),
            n == old(self)@.tasks.filter(|t: task::Model| t.is_deleted).len(),
    {
        let ghost v = self@;
        let ghost keep = |t: task::Model| !t.is_deleted;
        let ghost gone = |t: task::Model| t.is_deleted;
        let mut tasks: Vec<task::Model> = Vec::new();
        let mut removed: Vec<u128> = Vec::new();
        let mut n: usize = 0;
        let mut i: usize = 0;
        while i < self.tasks.len()
            invariant
                self@ == v,
                i <= v.tasks.len(),
                keep == (|t: task::Model| !t.is_deleted),
                gone == (|t: task::Model| t.is_deleted),
                tasks@ == v.tasks.take(i as int).filter(keep),
                n == v.tasks.take(i as int).filter(gone).len(),
                n <= i,
                forall|u: u128| removed@.contains(u) <==> trashed(v.tasks.take(i as int), u),
            decreases v.tasks.len() - i,
        {
            let ghost before = removed@;
            proof {
                assert(v.tasks.take(i + 1) =~= v.tasks.take(i as int).push(v.tasks[i as int]));
                v.tasks.take(i as int).lemma_filter_push(v.tasks[i as int], keep);
                v.tasks.take(i as int).lemma_filter_push(v.tasks[i as int], gone);
            }
            let t = &self.tasks[i];
            if t.is_deleted {
                removed.push(t.uuid);
                n = n + 1;
            } else {
                tasks.push(t.duplicate());
            }
            proof {
                let pre = v.tasks.take(i as int);
                let post = v.tasks.take(i + 1);
                assert forall|u: u128| removed@.contains(u) <==> trashed(post, u) by {
                    if removed@.contains(u) {
                        let w = choose|w: int| 0 <= w < removed@.len() && removed@[w] == u;
                        if w < before.len() {
                            assert(before.contains(u));
                            let k = choose|k: int| 0 <= k < pre.len() && (#[trigger] pre[k]).uuid == u && pre[k].is_deleted;
                            assert(post[k] == pre[k]);
                        } else {
                            assert(post[i as int] == v.tasks[i as int]);
                        }
                    }
                    if trashed(post, u) {
                        let k = choose|k: int| 0 <= k < post.len() && (#[trigger] post[k]).uuid == u && post[k].is_deleted;
                        if k < i {
                            assert(pre[k] == post[k]);
                            assert(trashed(pre, u));
                            assert(before.contains(u));
                            let w = choose|w: int| 0 <= w < before.len() && before[w] == u;
                            assert(removed@[w] == u);
                        } else {
                            assert(removed@[removed@.len() - 1] == u);
                        }
                    }
                }
            }
            i = i + 1;
        }
        proof {
            assert(v.tasks.take(i as int) =~= v.tasks);
        }
        let ghost pred = |u: u128| trashed(v.tasks, u);
        let links = links_not_stale(&self.task_labels, &removed, Ghost(pred));
        proof {
            let g1 = |p: (u128, u128)| !pred(p.0);
            let g2 = |p: (u128, u128)| !trashed(v.tasks, p.0);
            assert(g1 =~= g2);
            assert(links@ == v.task_labels.filter(g1));
        }
        self.tasks = tasks;
        self.task_labels = links;
        n
    }
}

/// A character as SQLite's `LIKE` compares it: ASCII letters without their case.
pub open spec fn fold_code(c: char) -> u32 {
    let v = c as u32;
    if 65 <= v <= 90 { (v + 32) as u32 } else { v }
}

/// Whether the text matches the pattern as SQLite's `LIKE` matches it: `%` stands for
/// any run of characters, `_` for any one character, and ASCII letters match without
/// their case.
pub open spec fn like(t: Seq<char>, p: Seq<char>) -> bool
    decreases p.len(), t.len(),
{
    if p.len() == 0 {
        t.len() == 0
    } else if p[0] == '%' {
        like(t, p.drop_first()) || (t.len() > 0 && like(t.drop_first(), p))
    } else if t.len() == 0 {
        false
    } else if p[0] == '_' {
        like(t.drop_first(), p.drop_first())
    } else {
        fold_code(t[0]) == fold_code(p[0]) && like(t.drop_first(), p.drop_first())
    }
}

fn fold_exec(c: char) -> (r: u32)
    ensures
        r == fold_code(c),
{
    let v = c as u32;
    if 65 <= v && v <= 90 { v + 32 } else { v }
}

/// Whether the text matches the pattern as SQLite's `LIKE` does.
pub fn like_exec(text: &str, pat: &Vec<char>) -> (b: bool)
    requires
        pat@.len() < usize::MAX,
    ensures
        b == like(text@, pat@),
{
    let t = chars_of(text);
    let n = t.len();
    let m = pat.len();
    let ghost ts = t@;
    let ghost ps = pat@;
    // The row of the empty rest of the text.
    let mut next: Vec<bool> = Vec::new();
    let mut j: usize = 0;
    while j <= m
        invariant
            j <= m + 1,
            m == ps.len(),
            m < usize::MAX,
            next@.len() == j,
        decreases m + 1 - j,
    {
        next.push(false);
        j = j + 1;
    }
    let mut j: usize = m + 1;
    while j > 0
        invariant
            j <= m + 1,
            m == ps.len(),
            n == ts.len(),
            ps == pat@,
            next@.len() == m + 1,
            forall|k: int| j <= k <= m ==> next@[k] == like(ts.skip(n as int), ps.skip(k)),
        decreases j,
    {
        j = j - 1;
        proof {
            assert(ts.skip(n as int).len() == 0);
            if j < m {
                assert(ps.skip(j as int).drop_first() =~= ps.skip(j + 1));
                assert(ps.skip(j as int)[0] == ps[j as int]);
            }
        }
        let value = if j == m {
            true
        } else if pat[j] == '%' {
            next[j + 1]
        } else {
            false
        };
        next.set(j, value);
    }
    let mut i: usize = n;
    while i > 0
        invariant
            i <= n,
            m == ps.len(),
            m < usize::MAX,
            n == ts.len(),
            ps == pat@,
            ts == t@,
            next@.len() == m + 1,
            forall|k: int| 0 <= k <= m ==> next@[k] == like(ts.skip(i as int), ps.skip(k)),
        decreases i,
    {
        i = i - 1;
        let mut cur: Vec<bool> = Vec::new();
        let mut j: usize = 0;
        while j <= m
            invariant
                j <= m + 1,
                m == ps.len(),
                m < usize::MAX,
                cur@.len() == j,
            decreases m + 1 - j,
        {
            cur.push(false);
            j = j + 1;
        }
        let mut j: usize = m + 1;
        while j > 0
            invariant
                j <= m + 1,
                i < n,
                m == ps.len(),
                n == ts.len(),
                ps == pat@,
                ts == t@,
                next@.len() == m + 1,
                cur@.len() == m + 1,
                forall|k: int| 0 <= k <= m ==> next@[k] == like(ts.skip(i + 1), ps.skip(k)),
                forall|k: int| j <= k <= m ==> cur@[k] == like(ts.skip(i as int), ps.skip(k)),
            decreases j,
        {
            j = j - 1;
            proof {
                assert(ts.skip(i as int).drop_first() =~= ts.skip(i + 1));
                assert(ts.skip(i as int)[0] == ts[i as int]);
                assert(ts.skip(i as int).len() > 0);
                if j < m {
                    assert(ps.skip(j as int).drop_first() =~= ps.skip(j + 1));
                    assert(ps.skip(j as int)[0] == ps[j as int]);
                }
            }
            let value = if j == m {
                false
            } else if pat[j] == '%' {
                cur[j + 1] || next[j]
            } else if pat[j] == '_' {
                next[j + 1]
            } else {
                fold_exec(t[i]) == fold_exec(pat[j]) && next[j + 1]
            };
            cur.set(j, value);
        }
        next = cur;
    }
    proof {
        assert(ts.skip(0) =~= ts);
        assert(ps.skip(0) =~= ps);
    }
    next[0]
}

/// Whether a search finds the task: not in the trash, and its content or description
/// matches the pattern.
pub open spec fn search_hit(pat: Seq<char>) -> spec_fn(task::Model) -> bool {
    |t: task::Model| !t.is_deleted && (like(t.content@, pat) || (t.description is Some && like(t.description->0@, pat)))
}

/// The search's order: open tasks before completed ones, then by position.
pub open spec fn search_le(a: task::Model, b: task::Model) -> bool {
    (!a.is_completed && b.is_completed) || (a.is_completed == b.is_completed && a.order_index <= b.order_index)
}

/// Inserts a task after every task that does not come after it.
pub open spec fn insert_by_search_order(s: Seq<task::Model>, e: task::Model) -> Seq<task::Model>
    decreases s.len(),
{
    if s.len() == 0 {
        seq![e]
    } else if search_le(s.last(), e) {
        s.push(e)
    } else {
        insert_by_search_order(s.drop_last(), e).push(s.last())
    }
}

/// The tasks in search order; tasks in the same place of the order keep their
/// relative order.
pub open spec fn search_sorted(s: Seq<task::Model>) -> Seq<task::Model>
    decreases s.len(),
{
    if s.len() == 0 {
        Seq::empty()
    } else {
        insert_by_search_order(search_sorted(s.drop_last()), s.last())
    }
}

/// The search pattern of a query: the query anywhere in the text.
pub open spec fn search_pattern(query: Seq<char>) -> Seq<char> {
    seq!['%'] + query + seq!['%']
}

proof fn lemma_insert_search_at(s: Seq<task::Model>, e: task::Model, j: int)
    requires
        0 <= j <= s.len(),
        forall|k: int| j <= k < s.len() ==> !search_le(#[trigger] s[k], e),
        j > 0 ==> search_le(s[j - 1], e),
    ensures
        insert_by_search_order(s, e) == s.insert(j, e),
    decreases s.len(),
{
    if s.len() == 0 {
        assert(seq![e] =~= s.insert(0, e));
    } else if j == s.len() {
        assert(s.push(e) =~= s.insert(j, e));
    } else {
        assert(!search_le(s[s.len() - 1], e));
        let d = s.drop_last();
        assert forall|k: int| j <= k < d.len() implies !search_le(#[trigger] d[k], e) by {
            assert(d[k] == s[k]);
        }
        if j > 0 {
            assert(d[j - 1] == s[j - 1]);
        }
        lemma_insert_search_at(d, e, j);
        assert(d.insert(j, e).push(s.last()) =~= s.insert(j, e));
    }
}

impl LocalCache {
    /// The tasks outside the trash whose content or description holds the query, as
    /// SQLite's `LIKE '%query%'` matches (ASCII letters without their case, `%` and `_`
    /// as wildcards), open tasks first, then by position.
    pub fn search_tasks(&self, query: &str) -> (r: Vec<task::Model>)
        requires
            query@.len() < usize::MAX - 2,
        ensures
            r@ == search_sorted(self.tasks@.filter(search_hit(search_pattern(query@)))),
            search_result(self@, search_pattern(query@), r@),
    {
        proof {
            lemma_search_laws(self@, search_pattern(query@));
        }
        let mut pat: Vec<char> = Vec::new();
        pat.push('%');
        let q = chars_of(query);
        let mut k: usize = 0;
        while k < q.len()
            invariant
                k <= q@.len(),
                q@ == query@,
                query@.len() < usize::MAX - 2,
                pat@ == seq!['%'] + q@.take(k as int),
            decreases q@.len() - k,
        {
            pat.push(q[k]);
            proof {
                assert(q@.take(k + 1) =~= q@.take(k as int).push(q@[k as int]));
                assert(seq!['%'] + q@.take(k + 1) =~= (seq!['%'] + q@.take(k as int)).push(q@[k as int]));
            }
            k = k + 1;
        }
        pat.push('%');
        proof {
            assert(q@.take(k as int) =~= query@);
            assert(pat@ =~= search_pattern(query@));
        }
        let ghost f = search_hit(search_pattern(query@));
        let ghost ts = self.tasks@;
        let mut out: Vec<task::Model> = Vec::new();
        let mut i: usize = 0;
        while i < self.tasks.len()
            invariant
                i <= ts.len(),
                ts == self.tasks@,
                pat@ == search_pattern(query@),
                query@.len() < usize::MAX - 2,
                f == search_hit(search_pattern(query@)),
                out@ == search_sorted(ts.take(i as int).filter(f)),
            decreases ts.len() - i,
        {
            proof {
                assert(ts.take(i + 1) =~= ts.take(i as int).push(ts[i as int]));
                ts.take(i as int).lemma_filter_push(ts[i as int], f);
            }
            let t = &self.tasks[i];
            let hit = !t.is_deleted && (like_exec(t.content.as_str(), &pat) || match &t.description {
                Some(d) => like_exec(d.as_str(), &pat),
                None => false,
            });
            if hit {
                let ghost before = out@;
                let e = t.duplicate();
                let mut j: usize = out.len();
                while j > 0 && !(
                    (!out[j - 1].is_completed && e.is_completed)
                    || (out[j - 1].is_completed == e.is_completed && out[j - 1].order_index <= e.order_index))
                    invariant
                        j <= out@.len(),
                        out@ == before,
                        forall|k: int| j <= k < out@.len() ==> !search_le(#[trigger] out@[k], e),
                    decreases j,
                {
                    j = j - 1;
                }
                proof {
                    lemma_insert_search_at(before, e, j as int);
                    let pre = ts.take(i as int).filter(f);
                    assert(ts.take(i + 1).filter(f) == pre.push(ts[i as int]));
                    assert(pre.push(ts[i as int]).drop_last() =~= pre);
                }
                out.insert(j, e);
            }
            i = i + 1;
        }
        proof {
            assert(ts.take(i as int) =~= ts);
        }
        out
    }
}


/// What a filter keeps comes from the filtered sequence.
pub proof fn lemma_filter_from<A>(s: Seq<A>, f: spec_fn(A) -> bool)
    ensures
        forall|i: int| 0 <= i < s.filter(f).len() ==> s.contains(#[trigger] s.filter(f)[i]),
    decreases s.len(),
{
    reveal(Seq::filter);
    if s.len() > 0 {
        lemma_filter_from(s.drop_last(), f);
        let d = s.drop_last();
        assert forall|i: int| 0 <= i < s.filter(f).len() implies s.contains(#[trigger] s.filter(f)[i]) by {
            if i < d.filter(f).len() {
                assert(s.filter(f)[i] == d.filter(f)[i]);
                let k = choose|k: int| 0 <= k < d.len() && d[k] == d.filter(f)[i];
                assert(s[k] == d[k]);
            } else {
                assert(s.filter(f)[i] == s.last());
                assert(s[s.len() - 1] == s.last());
            }
        }
    }
}

/// After a full snapshot is written, every open task of the backend left in the cache is
/// one that the snapshot lists.
pub proof fn lemma_full_snapshot_open_tasks_listed(v: CacheView, data: BackendSyncData, cutoff: Seq<char>, fresh: Seq<u128>)
    requires
        data.full_sync,
        apply_spec(v, data, cutoff, fresh) is Ok,
    ensures
        forall|i: int| 0 <= i < apply_spec(v, data, cutoff, fresh)->Ok_0.tasks.len()
            && (#[trigger] apply_spec(v, data, cutoff, fresh)->Ok_0.tasks[i]).backend_uuid == v.backend_uuid
            && !apply_spec(v, data, cutoff, fresh)->Ok_0.tasks[i].is_deleted
            ==> listed(data.tasks@, apply_spec(v, data, cutoff, fresh)->Ok_0.tasks[i].remote_id@),
{
    let w = apply_spec(v, data, cutoff, fresh)->Ok_0;
    let b = v.backend_uuid;
    let np = data.projects@.len() as int;
    let nl = data.labels@.len() as int;
    let ns = data.sections@.len() as int;
    let nt = data.tasks@.len() as int;
    let v2 = CacheView {
        projects: link_parents_spec(store_projects_spec(v.projects, b, data.projects@, fresh_from(fresh, 0, np)), b, data.projects@),
        ..v
    };
    let v3 = CacheView { labels: store_labels_spec(v2.labels, b, data.labels@, fresh_from(fresh, np, nl)), ..v2 };
    let v4 = CacheView {
        sections: store_sections_spec(v3.sections, v3.projects, b, data.sections@, fresh_from(fresh, np + nl, ns)),
        ..v3
    };
    let v5 = store_tasks_spec(v4, data.tasks@, fresh_from(fresh, np + nl + ns, nt));
    lemma_store_tasks_keeps_backend(v4, data.tasks@, fresh_from(fresh, np + nl + ns, nt));
    let v6 = remove_absent_spec(v5, data.tasks@);
    let keep = |t: task::Model| !stale_uuid(v5.tasks, v5.backend_uuid, data.tasks@, t.uuid);
    let f = |t: task::Model| !expired(t, b, cutoff);
    assert(w.tasks == v6.tasks.filter(f));
    assert(v6.tasks == v5.tasks.filter(keep));
    lemma_filter_from(v6.tasks, f);
    lemma_filter_from(v5.tasks, keep);
    assert forall|i: int| 0 <= i < w.tasks.len() && (#[trigger] w.tasks[i]).backend_uuid == b && !w.tasks[i].is_deleted
        implies listed(data.tasks@, w.tasks[i].remote_id@) by {
        let t = w.tasks[i];
        assert(v6.tasks.contains(t));
        let k = choose|k: int| 0 <= k < v6.tasks.len() && v6.tasks[k] == t;
        v5.tasks.lemma_filter_pred(keep, k);
        assert(keep(t));
        assert(v5.tasks.contains(t));
        let j = choose|j: int| 0 <= j < v5.tasks.len() && v5.tasks[j] == t;
        assert(!stale(v5.tasks[j], b, data.tasks@));
    }
}


/// The position of the first record with the UUID, if any.
pub open spec fn uuid_index(us: Seq<u128>, u: u128) -> Option<int> {
    if exists|i: int| 0 <= i < us.len() && us[i] == u && forall|j: int| 0 <= j < i ==> us[j] != u {
        Some(choose|i: int| 0 <= i < us.len() && us[i] == u && forall|j: int| 0 <= j < i ==> us[j] != u)
    } else {
        None
    }
}

/// A search that found the first record with the UUID found the one `uuid_index` names.
proof fn lemma_uuid_index_is(us: Seq<u128>, u: u128, i: int)
    requires
        0 <= i < us.len(),
        us[i] == u,
        forall|j: int| 0 <= j < i ==> us[j] != u,
    ensures
        uuid_index(us, u) == Some(i),
{
    let c = choose|c: int| 0 <= c < us.len() && us[c] == u && forall|j: int| 0 <= j < c ==> us[j] != u;
    if c < i {
        assert(us[c] != u);
    }
    if i < c {
        assert(us[i] != u);
    }
}

/// The UUIDs of tasks.
pub open spec fn task_uuids(ts: Seq<task::Model>) -> Seq<u128> {
    ts.map_values(|t: task::Model| t.uuid)
}

/// The UUIDs of projects.
pub open spec fn project_uuids(ps: Seq<project::Model>) -> Seq<u128> {
    ps.map_values(|p: project::Model| p.uuid)
}

/// The UUIDs of sections.
pub open spec fn section_uuids(ss: Seq<section::Model>) -> Seq<u128> {
    ss.map_values(|x: section::Model| x.uuid)
}

/// The UUIDs of labels.
pub open spec fn label_uuids(ls: Seq<label::Model>) -> Seq<u128> {
    ls.map_values(|l: label::Model| l.uuid)
}

fn task_at(ts: &Vec<task::Model>, u: u128) -> (r: Option<usize>)
    ensures
        match r {
            Some(i) => uuid_index(task_uuids(ts@), u) == Some(i as int),
            None => uuid_index(task_uuids(ts@), u) is None,
        },
{
    let ghost us = task_uuids(ts@);
    let mut i: usize = 0;
    while i < ts.len()
        invariant
            i <= ts@.len(),
            us == task_uuids(ts@),
            forall|j: int| 0 <= j < i ==> us[j] != u,
        decreases ts@.len() - i,
    {
        if ts[i].uuid == u {
            proof {
                lemma_uuid_index_is(us, u, i as int);
            }
            return Some(i);
        }
        i = i + 1;
    }
    None
}

fn project_at(ps: &Vec<project::Model>, u: u128) -> (r: Option<usize>)
    ensures
        match r {
            Some(i) => uuid_index(project_uuids(ps@), u) == Some(i as int),
            None => uuid_index(project_uuids(ps@), u) is None,
        },
{
    let ghost us = project_uuids(ps@);
    let mut i: usize = 0;
    while i < ps.len()
        invariant
            i <= ps@.len(),
            us == project_uuids(ps@),
            forall|j: int| 0 <= j < i ==> us[j] != u,
        decreases ps@.len() - i,
    {
        if ps[i].uuid == u {
            proof {
                lemma_uuid_index_is(us, u, i as int);
            }
            return Some(i);
        }
        i = i + 1;
    }
    None
}

fn section_at(ss: &Vec<section::Model>, u: u128) -> (r: Option<usize>)
    ensures
        match r {
            Some(i) => uuid_index(section_uuids(ss@), u) == Some(i as int),
            None => uuid_index(section_uuids(ss@), u) is None,
        },
{
    let ghost us = section_uuids(ss@);
    let mut i: usize = 0;
    while i < ss.len()
        invariant
            i <= ss@.len(),
            us == section_uuids(ss@),
            forall|j: int| 0 <= j < i ==> us[j] != u,
        decreases ss@.len() - i,
    {
        if ss[i].uuid == u {
            proof {
                lemma_uuid_index_is(us, u, i as int);
            }
            return Some(i);
        }
        i = i + 1;
    }
    None
}

fn label_at(ls: &Vec<label::Model>, u: u128) -> (r: Option<usize>)
    ensures
        match r {
            Some(i) => uuid_index(label_uuids(ls@), u) == Some(i as int),
            None => uuid_index(label_uuids(ls@), u) is None,
        },
{
    let ghost us = label_uuids(ls@);
    let mut i: usize = 0;
    while i < ls.len()
        invariant
            i <= ls@.len(),
            us == label_uuids(ls@),
            forall|j: int| 0 <= j < i ==> us[j] != u,
        decreases ls@.len() - i,
    {
        if ls[i].uuid == u {
            proof {
                lemma_uuid_index_is(us, u, i as int);
            }
            return Some(i);
        }
        i = i + 1;
    }
    None
}

/// A message made of a text and a UUID.
fn with_uuid(text: &str, u: u128) -> (m: String)
    ensures
        m@ == text@ + uuid_text(u),
{
    let mut m = String::from_str(text);
    let id = format_uuid(u);
    m.append(id.as_str());
    m
}

/// What restoring a task needs from the cache: the task, and the remote ids of its
/// project, section and parent.
pub struct RestoreLookup {
    pub task: task::Model,
    pub project_remote_id: String,
    pub section_remote_id: Option<String>,
    pub parent_remote_id: Option<String>,
}

/// What restoring a task finds in the cache: the first task with the UUID, the remote
/// id of its project, of its section where the cache holds it, and of its parent; a
/// missing task, project or parent is an error.
pub open spec fn restore_lookup_spec(v: CacheView, u: u128) -> Result<(task::Model, String, Option<String>, Option<String>), Seq<char>> {
    match uuid_index(task_uuids(v.tasks), u) {
        None => Err("Task not found in local storage: "@ + uuid_text(u)),
        Some(i) => {
            let t = v.tasks[i];
            match uuid_index(project_uuids(v.projects), t.project_uuid) {
                None => Err("Project not found: "@ + uuid_text(t.project_uuid)),
                Some(p) => {
                    let section = match t.section_uuid {
                        Some(s) => match uuid_index(section_uuids(v.sections), s) {
                            Some(k) => Some(v.sections[k].remote_id),
                            None => None,
                        },
                        None => None,
                    };
                    match t.parent_uuid {
                        None => Ok((t, v.projects[p].remote_id, section, None)),
                        Some(pu) => match uuid_index(task_uuids(v.tasks), pu) {
                            None => Err("Task not found: "@ + uuid_text(pu)),
                            Some(q) => Ok((t, v.projects[p].remote_id, section, Some(v.tasks[q].remote_id))),
                        },
                    }
                },
            }
        },
    }
}

/// What creating a task needs from the cache: the remote id of its project and the
/// name of its label, where they are given; one the cache lacks is an error.
pub open spec fn create_lookup_spec(v: CacheView, project_uuid: Option<u128>, label_uuid: Option<u128>) -> Result<(Option<String>, Option<String>), Seq<char>> {
    let project = match project_uuid {
        None => Ok(None),
        Some(u) => match uuid_index(project_uuids(v.projects), u) {
            Some(p) => Ok(Some(v.projects[p].remote_id)),
            None => Err("Project not found: "@ + uuid_text(u)),
        },
    };
    match project {
        Err(m) => Err(m),
        Ok(remote) => match label_uuid {
            None => Ok((remote, None)),
            Some(u) => match uuid_index(label_uuids(v.labels), u) {
                Some(l) => Ok((remote, Some(v.labels[l].name))),
                None => Err("Label not found: "@ + uuid_text(u)),
            },
        },
    }
}

impl LocalCache {
    /// Finds what restoring a task needs.
    pub fn restore_lookup(&self, task_uuid: u128) -> (r: Result<RestoreLookup, String>)
        ensures
            match restore_lookup_spec(self@, task_uuid) {
                Ok((t, p, s, q)) => r matches Ok(l) && l.task == t && l.project_remote_id == p
                    && l.section_remote_id == s && l.parent_remote_id == q,
                Err(m) => r matches Err(e) && e@ == m,
            },
    {
        let i = match task_at(&self.tasks, task_uuid) {
            Some(i) => i,
            None => return Err(with_uuid("Task not found in local storage: ", task_uuid)),
        };
        let t = self.tasks[i].duplicate();
        let p = match project_at(&self.projects, t.project_uuid) {
            Some(p) => p,
            None => return Err(with_uuid("Project not found: ", t.project_uuid)),
        };
        let section = match t.section_uuid {
            Some(s) => match section_at(&self.sections, s) {
                Some(k) => Some(self.sections[k].remote_id.clone()),
                None => None,
            },
            None => None,
        };
        let parent = match t.parent_uuid {
            None => None,
            Some(pu) => match task_at(&self.tasks, pu) {
                Some(q) => Some(self.tasks[q].remote_id.clone()),
                None => return Err(with_uuid("Task not found: ", pu)),
            },
        };
        Ok(RestoreLookup { task: t, project_remote_id: self.projects[p].remote_id.clone(), section_remote_id: section, parent_remote_id: parent })
    }

    /// Finds what creating a task needs.
    pub fn create_lookup(&self, project_uuid: Option<u128>, label_uuid: Option<u128>) -> (r: Result<(Option<String>, Option<String>), String>)
        ensures
            match create_lookup_spec(self@, project_uuid, label_uuid) {
                Ok(x) => r == Ok::<(Option<String>, Option<String>), String>(x),
                Err(m) => r matches Err(e) && e@ == m,
            },
    {
        let remote = match project_uuid {
            None => None,
            Some(u) => match project_at(&self.projects, u) {
                Some(p) => Some(self.projects[p].remote_id.clone()),
                None => return Err(with_uuid("Project not found: ", u)),
            },
        };
        match label_uuid {
            None => Ok((remote, None)),
            Some(u) => match label_at(&self.labels, u) {
                Some(l) => Ok((remote, Some(self.labels[l].name.clone()))),
                None => Err(with_uuid("Label not found: ", u)),
            },
        }
    }

    /// Replaces a restored task: the old row and its label relations are removed, and
    /// the task the backend created is stored.
    pub fn replace_restored(&mut self, old_uuid: u128, created: &BackendTask, fresh_uuid: u128) -> (r: Option<u128>)
        ensures
            ({
                let removed = CacheView {
                    tasks: old(self)@.tasks.filter(|t: task::Model| t.uuid != old_uuid),
                    task_labels: old(self)@.task_labels.filter(other_task(old_uuid)),
                    ..old(self)@
                };
                (final(self)@, r) == store_task_spec(removed, *created, fresh_uuid)
            }),
    {
        let ghost v = self@;
        let ghost f = |t: task::Model| t.uuid != old_uuid;
        let mut tasks: Vec<task::Model> = Vec::new();
        let mut i: usize = 0;
        while i < self.tasks.len()
            invariant
                self@ == v,
                i <= v.tasks.len(),
                f == (|t: task::Model| t.uuid != old_uuid),
                tasks@ == v.tasks.take(i as int).filter(f),
            decreases v.tasks.len() - i,
        {
            proof {
                assert(v.tasks.take(i + 1) =~= v.tasks.take(i as int).push(v.tasks[i as int]));
                v.tasks.take(i as int).lemma_filter_push(v.tasks[i as int], f);
            }
            if self.tasks[i].uuid != old_uuid {
                tasks.push(self.tasks[i].duplicate());
            }
            i = i + 1;
        }
        proof {
            assert(v.tasks.take(i as int) =~= v.tasks);
        }
        let links = links_of_others(&self.task_labels, old_uuid);
        self.tasks = tasks;
        self.task_labels = links;
        self.store_task(created, fresh_uuid)
    }
}


/// Whether a view lists a task: the Trash lists the tasks in it, a label view the open
/// tasks outside the trash with the label, the other views every task outside the trash.
pub open spec fn shown_in(v: CacheView, selection: SidebarSelection, t: task::Model) -> bool {
    match selection {
        SidebarSelection::Trash => t.is_deleted,
        SidebarSelection::Label(l) => !t.is_deleted && v.task_labels.contains((t.uuid, l)),
        _ => !t.is_deleted,
    }
}

/// The tasks a snapshot lists, as they must come out: cached tasks the view shows, and
/// every cached task it shows.
pub open spec fn view_listing(v: CacheView, selection: SidebarSelection, listed: Seq<task::Model>) -> bool {
    &&& forall|i: int| 0 <= i < listed.len() ==> shown_in(v, selection, #[trigger] listed[i]) && v.tasks.contains(listed[i])
    &&& forall|i: int| 0 <= i < v.tasks.len() && shown_in(v, selection, #[trigger] v.tasks[i]) ==> listed.contains(v.tasks[i])
}

/// The label counts, as they must come out: one per label, in order, each the number of
/// cached tasks with the label that are neither completed nor in the trash.
pub open spec fn label_counts_open(v: CacheView, counts: Seq<(u128, usize)>) -> bool {
    &&& counts.len() == v.labels.len()
    &&& forall|k: int| 0 <= k < counts.len() ==> (#[trigger] counts[k]).0 == v.labels[k].uuid
        && counts[k].1 == v.tasks.filter(|t: task::Model| !t.is_deleted && !t.is_completed
            && v.task_labels.contains((t.uuid, v.labels[k].uuid))).len()
}

/// A snapshot lists exactly the tasks its view shows, and counts each label's open
/// tasks outside the trash.
pub proof fn lemma_snapshot_laws(v: CacheView, selection: SidebarSelection)
    requires
        v.tasks.len() <= usize::MAX,
    ensures
        view_listing(v, selection, v.tasks.filter(listed_for(v, selection))),
        label_counts_open(v, label_counts_spec(v)),
{
    let f = listed_for(v, selection);
    lemma_filter_exact(v.tasks, f);
    assert forall|k: int| 0 <= k < label_counts_spec(v).len() implies (#[trigger] label_counts_spec(v)[k]).0 == v.labels[k].uuid
        && label_counts_spec(v)[k].1 == v.tasks.filter(|t: task::Model| !t.is_deleted && !t.is_completed
            && v.task_labels.contains((t.uuid, v.labels[k].uuid))).len() by {
        let l = v.labels[k].uuid;
        let g = |t: task::Model| !t.is_deleted && !t.is_completed && v.task_labels.contains((t.uuid, l));
        assert(counted_for_label(v, l) =~= g);
        v.tasks.lemma_filter_len(g);
        assert(v.tasks.filter(g).len() <= usize::MAX);
    }
}

/// Whether tasks come in search order: open tasks before completed ones, and by position
/// among tasks alike in that.
pub open spec fn in_search_order(r: Seq<task::Model>) -> bool {
    forall|i: int, j: int| 0 <= i < j < r.len() ==> (!(#[trigger] r[i]).is_completed || (#[trigger] r[j]).is_completed)
        && (r[i].is_completed == r[j].is_completed ==> r[i].order_index <= r[j].order_index)
}

/// Whether a search pattern finds a task: it is outside the trash, and its content or
/// description matches.
pub open spec fn found_by(pat: Seq<char>, t: task::Model) -> bool {
    !t.is_deleted && (like(t.content@, pat) || (t.description is Some && like(t.description->0@, pat)))
}

/// The search result, as it must come out: cached tasks the pattern finds, every one
/// of them, in search order.
pub open spec fn search_result(v: CacheView, pat: Seq<char>, r: Seq<task::Model>) -> bool {
    &&& forall|i: int| 0 <= i < r.len() ==> found_by(pat, #[trigger] r[i]) && v.tasks.contains(r[i])
    &&& forall|i: int| 0 <= i < v.tasks.len() && found_by(pat, #[trigger] v.tasks[i]) ==> r.contains(v.tasks[i])
    &&& in_search_order(r)
}

proof fn lemma_insert_search(s: Seq<task::Model>, e: task::Model)
    requires
        in_search_order(s),
    ensures
        in_search_order(insert_by_search_order(s, e)),
        insert_by_search_order(s, e).len() == s.len() + 1,
        forall|x: task::Model| #[trigger] insert_by_search_order(s, e).contains(x) <==> x == e || s.contains(x),
    decreases s.len(),
{
    let r = insert_by_search_order(s, e);
    if s.len() == 0 {
        assert(r[0] == e);
    } else if search_le(s.last(), e) {
        assert(r =~= s.push(e));
        assert forall|i: int, j: int| 0 <= i < j < r.len() implies (!(#[trigger] r[i]).is_completed || (#[trigger] r[j]).is_completed)
            && (r[i].is_completed == r[j].is_completed ==> r[i].order_index <= r[j].order_index) by {
            if j == s.len() {
                if i < s.len() - 1 {
                    assert(s[i] == r[i] && s[s.len() - 1] == s.last());
                }
            } else {
                assert(r[i] == s[i] && r[j] == s[j]);
            }
        }
        assert forall|x: task::Model| #[trigger] r.contains(x) <==> x == e || s.contains(x) by {
            if r.contains(x) {
                let k = choose|k: int| 0 <= k < r.len() && r[k] == x;
                if k < s.len() {
                    assert(s[k] == x);
                }
            }
            if s.contains(x) {
                let k = choose|k: int| 0 <= k < s.len() && s[k] == x;
                assert(r[k] == x);
            }
            if x == e {
                assert(r[s.len() as int] == e);
            }
        }
    } else {
        let d = s.drop_last();
        assert(in_search_order(d)) by {
            assert forall|i: int, j: int| 0 <= i < j < d.len() implies (!(#[trigger] d[i]).is_completed || (#[trigger] d[j]).is_completed)
                && (d[i].is_completed == d[j].is_completed ==> d[i].order_index <= d[j].order_index) by {
                assert(d[i] == s[i] && d[j] == s[j]);
            }
        }
        lemma_insert_search(d, e);
        let m = insert_by_search_order(d, e);
        assert(r =~= m.push(s.last()));
        assert forall|i: int| 0 <= i < m.len() implies (!(#[trigger] m[i]).is_completed || s.last().is_completed)
            && (m[i].is_completed == s.last().is_completed ==> m[i].order_index <= s.last().order_index) by {
            assert(m.contains(m[i]));
            if m[i] != e {
                assert(d.contains(m[i]));
                let k = choose|k: int| 0 <= k < d.len() && d[k] == m[i];
                assert(s[k] == d[k]);
                assert(s[s.len() - 1] == s.last());
            }
        }
        assert forall|i: int, j: int| 0 <= i < j < r.len() implies (!(#[trigger] r[i]).is_completed || (#[trigger] r[j]).is_completed)
            && (r[i].is_completed == r[j].is_completed ==> r[i].order_index <= r[j].order_index) by {
            assert(r[i] == m[i]);
            if j < r.len() - 1 {
                assert(r[j] == m[j]);
            }
        }
        assert forall|x: task::Model| #[trigger] r.contains(x) <==> x == e || s.contains(x) by {
            if r.contains(x) {
                let k = choose|k: int| 0 <= k < r.len() && r[k] == x;
                if k < m.len() {
                    assert(m.contains(m[k]));
                    if m[k] != e {
                        let q = choose|q: int| 0 <= q < d.len() && d[q] == m[k];
                        assert(s[q] == d[q]);
                    }
                } else {
                    assert(s[s.len() - 1] == x);
                }
            }
            if s.contains(x) {
                let k = choose|k: int| 0 <= k < s.len() && s[k] == x;
                if k < d.len() {
                    assert(d[k] == x);
                    assert(m.contains(x));
                    let q = choose|q: int| 0 <= q < m.len() && m[q] == x;
                    assert(r[q] == x);
                } else {
                    assert(r[r.len() - 1] == x);
                }
            }
            if x == e {
                assert(m.contains(e));
                let q = choose|q: int| 0 <= q < m.len() && m[q] == e;
                assert(r[q] == e);
            }
        }
    }
}

/// Sorting for a search keeps the tasks and puts them in search order.
pub proof fn lemma_search_sorted(s: Seq<task::Model>)
    ensures
        in_search_order(search_sorted(s)),
        search_sorted(s).len() == s.len(),
        forall|x: task::Model| #[trigger] search_sorted(s).contains(x) <==> s.contains(x),
    decreases s.len(),
{
    if s.len() > 0 {
        let d = s.drop_last();
        lemma_search_sorted(d);
        lemma_insert_search(search_sorted(d), s.last());
        assert forall|x: task::Model| #[trigger] search_sorted(s).contains(x) <==> s.contains(x) by {
            if d.contains(x) {
                let k = choose|k: int| 0 <= k < d.len() && d[k] == x;
                assert(s[k] == x);
            }
            if s.contains(x) {
                let k = choose|k: int| 0 <= k < s.len() && s[k] == x;
                if k < d.len() {
                    assert(d[k] == x);
                } else {
                    assert(x == s.last());
                }
            }
            if x == s.last() {
                assert(s[s.len() - 1] == x);
            }
        }
    }
}

/// A search gives exactly the cached tasks outside the trash whose content or
/// description the pattern matches, open tasks first, then by position.
pub proof fn lemma_search_laws(v: CacheView, pat: Seq<char>)
    ensures
        search_result(v, pat, search_sorted(v.tasks.filter(search_hit(pat)))),
{
    let f = search_hit(pat);
    let hits = v.tasks.filter(f);
    lemma_filter_exact(v.tasks, f);
    lemma_search_sorted(hits);
    let r = search_sorted(hits);
    assert forall|i: int| 0 <= i < r.len() implies found_by(pat, #[trigger] r[i]) && v.tasks.contains(r[i]) by {
        assert(r.contains(r[i]));
        assert(hits.contains(r[i]));
        let k = choose|k: int| 0 <= k < hits.len() && hits[k] == r[i];
        assert(f(hits[k]));
    }
    assert forall|i: int| 0 <= i < v.tasks.len() && found_by(pat, #[trigger] v.tasks[i]) implies r.contains(v.tasks[i]) by {
        assert(f(v.tasks[i]));
        assert(hits.contains(v.tasks[i]));
    }
}


/// The trash purge, as it must come out: no task of the backend in the trash since
/// before the cutoff is left; every other task is kept; nothing else changes.
pub open spec fn expired_trash_purged(before: CacheView, after: CacheView, cutoff: Seq<char>) -> bool {
    let b = before.backend_uuid;
    &&& after == (CacheView { tasks: after.tasks, ..before })
    &&& forall|i: int| 0 <= i < after.tasks.len() ==> !((#[trigger] after.tasks[i]).backend_uuid == b && after.tasks[i].is_deleted
        && after.tasks[i].deleted_at is Some && text_before(after.tasks[i].deleted_at->0@, cutoff)) && before.tasks.contains(after.tasks[i])
    &&& forall|i: int| 0 <= i < before.tasks.len() && !((#[trigger] before.tasks[i]).backend_uuid == b && before.tasks[i].is_deleted
        && before.tasks[i].deleted_at is Some && text_before(before.tasks[i].deleted_at->0@, cutoff)) ==> after.tasks.contains(before.tasks[i])
}

/// Purging keeps every task but the backend's trash older than the cutoff, which it removes.
pub proof fn lemma_purge_exactly(v: CacheView, cutoff: Seq<char>)
    ensures
        expired_trash_purged(v, purge_spec(v, cutoff), cutoff),
{
    lemma_filter_exact(v.tasks, |t: task::Model| !expired(t, v.backend_uuid, cutoff));
}

} // verus!
