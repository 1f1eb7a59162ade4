//! Why storing a batch of tasks twice changes nothing: the second pass over the tasks
//! writes what the first left, and the parents come out the same.

use vstd::prelude::*;
use crate::backend::BackendTask;
use crate::entities::task;
use crate::sync::cache::{
    key_index, lemma_first_key_unique, lemma_key_index_is, first_key_at, link_task_parent, link_task_parents_spec,
    task_keys, CacheView, RecordKey, resolve_project, resolve_section, upsert_task, upsert_tasks_spec,
    lemma_passes_keep_links, store_tasks_spec, in_batch, batch_links, apply_spec, fresh_from, store_projects_spec,
    link_parents_spec, store_labels_spec, store_sections_spec, remove_absent_spec, purge_spec, expired, stale_uuid,
    lemma_store_tasks_keeps_backend,
};
use crate::backend::BackendSyncData;
use crate::sync::storage::{listed, stale};
use crate::sync::storage::links_spec;
use crate::sync::tasks::cached_task_spec;

verus! {

/// Whether two rows differ at most in their parent.
pub open spec fn same_but_parent(a: task::Model, b: task::Model) -> bool {
    a == task::Model { parent_uuid: a.parent_uuid, ..b }
}

/// The UUIDs of tasks, in order.
pub open spec fn uuids_of(ts: Seq<task::Model>) -> Seq<u128> {
    ts.map_values(|t: task::Model| t.uuid)
}

/// Whether the second pass for one task links the row at `i`.
pub open spec fn link_hit_at(ts: Seq<task::Model>, backend: u128, b: BackendTask, i: int) -> bool {
    &&& key_index(task_keys(ts), (backend, b.remote_id@)) == Some(i)
    &&& b.parent_remote_id is Some
    &&& key_index(task_keys(ts), (backend, b.parent_remote_id->0@)) is Some
}

/// The parent that the second pass leaves on the row at `i`: that of the last task of
/// the batch that links the row, or the row's own where none does.
pub open spec fn linked_parent(ts: Seq<task::Model>, backend: u128, s: Seq<BackendTask>, i: int) -> Option<u128>
    decreases s.len(),
{
    if s.len() == 0 {
        ts[i].parent_uuid
    } else if link_hit_at(ts, backend, s.last(), i) {
        Some(ts[key_index(task_keys(ts), (backend, s.last().parent_remote_id->0@))->0].uuid)
    } else {
        linked_parent(ts, backend, s.drop_last(), i)
    }
}

/// Whether some task of the batch links the row at `i`.
pub open spec fn link_hits_any(ts: Seq<task::Model>, backend: u128, s: Seq<BackendTask>, i: int) -> bool {
    exists|k: int| 0 <= k < s.len() && link_hit_at(ts, backend, #[trigger] s[k], i)
}

/// The second pass only sets parents: each row keeps everything else, so the keys and
/// UUIDs stay; each row's parent is the one `linked_parent` gives.
pub proof fn lemma_link_rows(ts: Seq<task::Model>, backend: u128, s: Seq<BackendTask>)
    ensures
        link_task_parents_spec(ts, backend, s).len() == ts.len(),
        task_keys(link_task_parents_spec(ts, backend, s)) == task_keys(ts),
        uuids_of(link_task_parents_spec(ts, backend, s)) == uuids_of(ts),
        forall|i: int| 0 <= i < ts.len() ==> #[trigger] link_task_parents_spec(ts, backend, s)[i]
            == (task::Model { parent_uuid: linked_parent(ts, backend, s, i), ..ts[i] }),
    decreases s.len(),
{
    if s.len() > 0 {
        let d = s.drop_last();
        lemma_link_rows(ts, backend, d);
        let mid = link_task_parents_spec(ts, backend, d);
        let b = s.last();
        let out = link_task_parent(mid, backend, b);
        assert(task_keys(mid) == task_keys(ts));
        match (key_index(task_keys(mid), (backend, b.remote_id@)), b.parent_remote_id) {
            (Some(i0), Some(parent)) => {
                match key_index(task_keys(mid), (backend, parent@)) {
                    Some(j) => {
                        assert(0 <= i0 < mid.len()) by {
                            let c = choose|c: int| first_key_at(task_keys(mid), (backend, b.remote_id@), c);
                        }
                        assert(0 <= j < mid.len()) by {
                            let c = choose|c: int| first_key_at(task_keys(mid), (backend, parent@), c);
                        }
                        assert(mid[j].uuid == uuids_of(mid)[j]);
                        assert(uuids_of(ts)[j] == ts[j].uuid);
                        assert(task_keys(out) =~= task_keys(mid));
                        assert(uuids_of(out) =~= uuids_of(mid));
                    },
                    None => {},
                }
            },
            _ => {},
        }
        assert(task_keys(out) =~= task_keys(ts));
        assert(uuids_of(out) =~= uuids_of(ts));
    }
}

/// Rows whose parents differ only where the second pass links them come out of it the same.
pub proof fn lemma_linked_parent_agrees(a: Seq<task::Model>, b: Seq<task::Model>, backend: u128, s: Seq<BackendTask>, i: int)
    requires
        task_keys(a) == task_keys(b),
        uuids_of(a) == uuids_of(b),
        0 <= i < a.len(),
        a[i].parent_uuid == b[i].parent_uuid || link_hits_any(a, backend, s, i),
    ensures
        linked_parent(a, backend, s, i) == linked_parent(b, backend, s, i),
    decreases s.len(),
{
    assert(a.len() == task_keys(a).len());
    assert(b.len() == task_keys(b).len());
    if s.len() > 0 {
        let d = s.drop_last();
        if link_hit_at(a, backend, s.last(), i) {
            let j = key_index(task_keys(a), (backend, s.last().parent_remote_id->0@))->0;
            assert(0 <= j < a.len()) by {
                let c = choose|c: int| first_key_at(task_keys(a), (backend, s.last().parent_remote_id->0@), c);
            }
            assert(uuids_of(a)[j] == uuids_of(b)[j]);
            assert(a[j].uuid == uuids_of(a)[j]);
            assert(b[j].uuid == uuids_of(b)[j]);
            assert(link_hit_at(b, backend, s.last(), i));
            assert(key_index(task_keys(b), (backend, s.last().parent_remote_id->0@))->0 == j);
        } else {
            assert(!link_hit_at(b, backend, s.last(), i));
            if a[i].parent_uuid != b[i].parent_uuid {
                let k = choose|k: int| 0 <= k < s.len() && link_hit_at(a, backend, #[trigger] s[k], i);
                if k == s.len() - 1 {
                    assert(s[k] == s.last());
                }
                assert(d[k] == s[k]);
            }
            lemma_linked_parent_agrees(a, b, backend, d, i);
        }
    }
}

/// Without a link at a row, its parent stays.
pub proof fn lemma_unlinked_parent(ts: Seq<task::Model>, backend: u128, s: Seq<BackendTask>, i: int)
    requires
        !link_hits_any(ts, backend, s, i),
    ensures
        linked_parent(ts, backend, s, i) == ts[i].parent_uuid,
    decreases s.len(),
{
    if s.len() > 0 {
        let d = s.drop_last();
        assert(!link_hit_at(ts, backend, s[s.len() - 1], i));
        assert forall|k: int| 0 <= k < d.len() implies !link_hit_at(ts, backend, #[trigger] d[k], i) by {
            assert(d[k] == s[k]);
        }
        lemma_unlinked_parent(ts, backend, d, i);
    }
}

/// Two sets of rows that differ only in parents, and only where the second pass links
/// them, come out of the second pass the same.
pub proof fn lemma_link_agrees(a: Seq<task::Model>, b: Seq<task::Model>, backend: u128, s: Seq<BackendTask>)
    requires
        a.len() == b.len(),
        task_keys(a) == task_keys(b),
        uuids_of(a) == uuids_of(b),
        forall|i: int| 0 <= i < a.len() ==> same_but_parent(#[trigger] a[i], b[i]),
        forall|i: int| 0 <= i < a.len() && (#[trigger] a[i]).parent_uuid != b[i].parent_uuid ==> link_hits_any(a, backend, s, i),
    ensures
        link_task_parents_spec(a, backend, s) == link_task_parents_spec(b, backend, s),
{
    lemma_link_rows(a, backend, s);
    lemma_link_rows(b, backend, s);
    assert forall|i: int| 0 <= i < a.len() implies link_task_parents_spec(a, backend, s)[i] == link_task_parents_spec(b, backend, s)[i] by {
        lemma_linked_parent_agrees(a, b, backend, s, i);
    }
    assert(link_task_parents_spec(a, backend, s) =~= link_task_parents_spec(b, backend, s));
}


/// A key that occurs has a first position.
pub proof fn lemma_first_exists(keys: Seq<RecordKey>, key: RecordKey, j: int)
    requires
        0 <= j < keys.len(),
        keys[j] == key,
    ensures
        key_index(keys, key) is Some,
    decreases j,
{
    if exists|q: int| 0 <= q < j && keys[q] == key {
        let q = choose|q: int| 0 <= q < j && keys[q] == key;
        lemma_first_exists(keys, key, q);
    } else {
        assert(first_key_at(keys, key, j));
    }
}

/// A key's first position survives appending a record; a key that was missing is then
/// found at the end exactly when it is the appended one.
pub proof fn lemma_key_index_push(keys: Seq<RecordKey>, k2: RecordKey, key: RecordKey)
    ensures
        key_index(keys.push(k2), key) == match key_index(keys, key) {
            Some(i) => Some(i),
            None => if key == k2 { Some(keys.len() as int) } else { None },
        },
{
    let ks = keys.push(k2);
    match key_index(keys, key) {
        Some(i) => {
            let c = choose|c: int| first_key_at(keys, key, c);
            lemma_first_key_unique(keys, key, i, c);
            assert(first_key_at(ks, key, i));
            lemma_key_index_is(ks, key, i);
        },
        None => {
            assert forall|j: int| 0 <= j < keys.len() implies keys[j] != key by {
                if keys[j] == key {
                    lemma_first_exists(keys, key, j);
                }
            }
            if key == k2 {
                assert(first_key_at(ks, key, keys.len() as int));
                lemma_key_index_is(ks, key, keys.len() as int);
            } else {
                if exists|i: int| first_key_at(ks, key, i) {
                    let i = choose|i: int| first_key_at(ks, key, i);
                    assert(i < keys.len() ==> ks[i] == keys[i]);
                }
            }
        },
    }
}

/// The row that the first pass writes for a task at position `i`, read off the state.
pub open spec fn written_row(x: CacheView, b: BackendTask, i: int) -> task::Model {
    task::Model {
        deleted_at: x.tasks[i].deleted_at,
        ..cached_task_spec(x.tasks[i].uuid, x.backend_uuid, b, resolve_project(x, b.project_remote_id@)->0,
            resolve_section(x, b.section_remote_id), None)
    }
}

/// Where the first pass writes a task of a cached project, in a state that already
/// holds its key.
pub open spec fn task_hit(x: CacheView, b: BackendTask) -> Option<int> {
    if resolve_project(x, b.project_remote_id@) is Some {
        key_index(task_keys(x.tasks), (x.backend_uuid, b.remote_id@))
    } else {
        None
    }
}

/// The row at `i` after the first pass over a batch that adds no row: that written for
/// the last task that hits `i`, or the row as it was.
pub open spec fn fold_row(x: CacheView, s: Seq<BackendTask>, i: int) -> task::Model
    decreases s.len(),
{
    if s.len() == 0 {
        x.tasks[i]
    } else if task_hit(x, s.last()) == Some(i) {
        written_row(x, s.last(), i)
    } else {
        fold_row(x, s.drop_last(), i)
    }
}

/// Whether some task of the batch hits the row at `i`.
pub open spec fn hits_any(x: CacheView, s: Seq<BackendTask>, i: int) -> bool {
    exists|k: int| 0 <= k < s.len() && task_hit(x, #[trigger] s[k]) == Some(i)
}

/// Two states with the same projects, sections, backend, keys, UUIDs and trash dates.
pub open spec fn same_frame(x: CacheView, y: CacheView) -> bool {
    &&& x.backend_uuid == y.backend_uuid
    &&& x.projects == y.projects
    &&& x.sections == y.sections
    &&& task_keys(x.tasks) == task_keys(y.tasks)
    &&& uuids_of(x.tasks) == uuids_of(y.tasks)
    &&& forall|i: int| 0 <= i < x.tasks.len() ==> (#[trigger] x.tasks[i]).deleted_at == y.tasks[i].deleted_at
}

/// The first pass over a batch whose every task of a cached project already has its row
/// adds no row and writes each hit row as `fold_row` says.
pub proof fn lemma_fold_without_push(x: CacheView, s: Seq<BackendTask>, f: Seq<u128>)
    requires
        forall|k: int| 0 <= k < s.len() && resolve_project(x, (#[trigger] s[k]).project_remote_id@) is Some
            ==> key_index(task_keys(x.tasks), (x.backend_uuid, s[k].remote_id@)) is Some,
    ensures
        same_frame(upsert_tasks_spec(x, s, f), x),
        upsert_tasks_spec(x, s, f).tasks.len() == x.tasks.len(),
        forall|i: int| 0 <= i < x.tasks.len() ==> #[trigger] upsert_tasks_spec(x, s, f).tasks[i] == fold_row(x, s, i),
    decreases s.len(),
{
    lemma_passes_keep_links(x, s, f);
    assert(x.tasks.len() == task_keys(x.tasks).len());
    if s.len() > 0 {
        let d = s.drop_last();
        assert forall|k: int| 0 <= k < d.len() && resolve_project(x, (#[trigger] d[k]).project_remote_id@) is Some
            implies key_index(task_keys(x.tasks), (x.backend_uuid, d[k].remote_id@)) is Some by {
            assert(d[k] == s[k]);
        }
        lemma_fold_without_push(x, d, f);
        let y = upsert_tasks_spec(x, d, f);
        lemma_passes_keep_links(x, d, f);
        let b = s.last();
        assert(s[s.len() - 1] == b);
        let out = upsert_task(y, b, f[s.len() - 1]);
        assert(resolve_project(y, b.project_remote_id@) == resolve_project(x, b.project_remote_id@));
        assert(resolve_section(y, b.section_remote_id) == resolve_section(x, b.section_remote_id));
        if resolve_project(x, b.project_remote_id@) is Some {
            let i0 = key_index(task_keys(x.tasks), (x.backend_uuid, b.remote_id@))->0;
            assert(0 <= i0 < x.tasks.len()) by {
                let c = choose|c: int| first_key_at(task_keys(x.tasks), (x.backend_uuid, b.remote_id@), c);
            }
            assert(task_keys(y.tasks)[i0] == (x.backend_uuid, b.remote_id@)) by {
                let c = choose|c: int| first_key_at(task_keys(x.tasks), (x.backend_uuid, b.remote_id@), c);
            }
            assert(y.tasks[i0].uuid == uuids_of(y.tasks)[i0]);
            assert(x.tasks[i0].uuid == uuids_of(x.tasks)[i0]);
            assert(out[i0] == written_row(x, b, i0));
            assert(task_keys(out) =~= task_keys(y.tasks));
            assert(uuids_of(out) =~= uuids_of(y.tasks));
        }
        assert forall|i: int| 0 <= i < x.tasks.len() implies #[trigger] upsert_tasks_spec(x, s, f).tasks[i] == fold_row(x, s, i) by {
            assert(upsert_tasks_spec(x, s, f).tasks == out);
        }
    }
}


/// Two states that agree on everything the first pass reads at `i`, and on its row
/// unless some task hits it, give the same row at `i` after the first pass.
pub proof fn lemma_fold_row_agrees(a: CacheView, b: CacheView, s: Seq<BackendTask>, i: int)
    requires
        a.backend_uuid == b.backend_uuid,
        a.projects == b.projects,
        a.sections == b.sections,
        0 <= i < a.tasks.len(),
        0 <= i < b.tasks.len(),
        a.tasks[i].uuid == b.tasks[i].uuid,
        a.tasks[i].deleted_at == b.tasks[i].deleted_at,
        forall|k: int| 0 <= k < s.len() ==> (task_hit(a, #[trigger] s[k]) == Some(i)) == (task_hit(b, s[k]) == Some(i)),
        hits_any(a, s, i) || a.tasks[i] == b.tasks[i],
    ensures
        fold_row(a, s, i) == fold_row(b, s, i),
    decreases s.len(),
{
    if s.len() > 0 {
        let d = s.drop_last();
        assert(s[s.len() - 1] == s.last());
        if task_hit(a, s.last()) != Some(i) {
            assert forall|k: int| 0 <= k < d.len() implies (task_hit(a, #[trigger] d[k]) == Some(i)) == (task_hit(b, d[k]) == Some(i)) by {
                assert(d[k] == s[k]);
            }
            if hits_any(a, s, i) {
                let k = choose|k: int| 0 <= k < s.len() && task_hit(a, #[trigger] s[k]) == Some(i);
                assert(k < s.len() - 1);
                assert(d[k] == s[k]);
            }
            lemma_fold_row_agrees(a, b, d, i);
        }
    }
}

/// Without a hit at `i`, the first pass leaves its row.
pub proof fn lemma_fold_row_unhit(a: CacheView, s: Seq<BackendTask>, i: int)
    requires
        !hits_any(a, s, i),
    ensures
        fold_row(a, s, i) == a.tasks[i],
    decreases s.len(),
{
    if s.len() > 0 {
        let d = s.drop_last();
        assert(task_hit(a, s[s.len() - 1]) != Some(i));
        assert forall|k: int| 0 <= k < d.len() implies task_hit(a, #[trigger] d[k]) != Some(i) by {
            assert(d[k] == s[k]);
        }
        lemma_fold_row_unhit(a, d, i);
    }
}

/// After the first pass over a batch, every task of a cached project has its row, and
/// each row that a task hits holds what the last such task wrote.
pub proof fn lemma_fold_settles(v: CacheView, s: Seq<BackendTask>, f: Seq<u128>)
    ensures
        forall|k: int| 0 <= k < s.len() && resolve_project(v, (#[trigger] s[k]).project_remote_id@) is Some
            ==> key_index(task_keys(upsert_tasks_spec(v, s, f).tasks), (v.backend_uuid, s[k].remote_id@)) is Some,
        forall|i: int| 0 <= i < upsert_tasks_spec(v, s, f).tasks.len() && hits_any(upsert_tasks_spec(v, s, f), s, i)
            ==> #[trigger] upsert_tasks_spec(v, s, f).tasks[i] == fold_row(upsert_tasks_spec(v, s, f), s, i),
    decreases s.len(),
{
    lemma_passes_keep_links(v, s, f);
    if s.len() > 0 {
        let d = s.drop_last();
        lemma_fold_settles(v, d, f);
        lemma_passes_keep_links(v, d, f);
        let up = upsert_tasks_spec(v, d, f);
        let u = upsert_tasks_spec(v, s, f);
        let x = s.last();
        assert(s[s.len() - 1] == x);
        let key = (v.backend_uuid, x.remote_id@);
        assert(up.tasks.len() == task_keys(up.tasks).len());
        assert(resolve_project(up, x.project_remote_id@) == resolve_project(v, x.project_remote_id@));
        if resolve_project(v, x.project_remote_id@) is None {
            assert(u == up);
            assert forall|k: int| 0 <= k < s.len() && resolve_project(v, (#[trigger] s[k]).project_remote_id@) is Some
                implies key_index(task_keys(u.tasks), (v.backend_uuid, s[k].remote_id@)) is Some by {
                assert(k < d.len());
                assert(d[k] == s[k]);
            }
            assert forall|i: int| 0 <= i < u.tasks.len() && hits_any(u, s, i) implies #[trigger] u.tasks[i] == fold_row(u, s, i) by {
                let k = choose|k: int| 0 <= k < s.len() && task_hit(u, #[trigger] s[k]) == Some(i);
                assert(k < d.len());
                assert(d[k] == s[k]);
                assert(hits_any(up, d, i));
            }
        } else {
            match key_index(task_keys(up.tasks), key) {
                Some(i0) => {
                    assert(0 <= i0 < up.tasks.len() && task_keys(up.tasks)[i0] == key) by {
                        let c = choose|c: int| first_key_at(task_keys(up.tasks), key, c);
                    }
                    assert(u.tasks == up.tasks.update(i0, written_row(up, x, i0)));
                    assert(task_keys(u.tasks) =~= task_keys(up.tasks));
                    assert forall|y: BackendTask| task_hit(u, y) == task_hit(up, y) by {}
                    assert forall|k: int| 0 <= k < s.len() && resolve_project(v, (#[trigger] s[k]).project_remote_id@) is Some
                        implies key_index(task_keys(u.tasks), (v.backend_uuid, s[k].remote_id@)) is Some by {
                        if k < d.len() {
                            assert(d[k] == s[k]);
                        }
                    }
                    assert forall|i: int| 0 <= i < u.tasks.len() && hits_any(u, s, i) implies #[trigger] u.tasks[i] == fold_row(u, s, i) by {
                        if i == i0 {
                            assert(task_hit(u, x) == Some(i0));
                        } else {
                            let k = choose|k: int| 0 <= k < s.len() && task_hit(u, #[trigger] s[k]) == Some(i);
                            assert(k < d.len());
                            assert(d[k] == s[k]);
                            assert(hits_any(up, d, i));
                            assert forall|m: int| 0 <= m < d.len() implies (task_hit(u, #[trigger] d[m]) == Some(i)) == (task_hit(up, d[m]) == Some(i)) by {}
                            lemma_fold_row_agrees(u, up, d, i);
                        }
                    }
                },
                None => {
                    let w = up.tasks.len() as int;
                    let row = cached_task_spec(f[s.len() - 1], v.backend_uuid, x, resolve_project(v, x.project_remote_id@)->0,
                        resolve_section(v, x.section_remote_id), None);
                    assert(u.tasks == up.tasks.push(row));
                    assert(task_keys(u.tasks) =~= task_keys(up.tasks).push(key));
                    assert forall|key2: RecordKey| key_index(task_keys(u.tasks), key2) == match key_index(task_keys(up.tasks), key2) {
                        Some(j) => Some(j),
                        None => if key2 == key { Some(w) } else { None },
                    } by {
                        lemma_key_index_push(task_keys(up.tasks), key, key2);
                    }
                    assert forall|k: int| 0 <= k < s.len() && resolve_project(v, (#[trigger] s[k]).project_remote_id@) is Some
                        implies key_index(task_keys(u.tasks), (v.backend_uuid, s[k].remote_id@)) is Some by {
                        if k < d.len() {
                            assert(d[k] == s[k]);
                        }
                    }
                    assert forall|i: int| 0 <= i < u.tasks.len() && hits_any(u, s, i) implies #[trigger] u.tasks[i] == fold_row(u, s, i) by {
                        if i == w {
                            assert(task_hit(u, x) == Some(w));
                            assert(u.tasks[w] == row);
                        } else {
                            let k = choose|k: int| 0 <= k < s.len() && task_hit(u, #[trigger] s[k]) == Some(i);
                            assert(k < d.len());
                            assert(d[k] == s[k]);
                            assert(task_hit(up, d[k]) == Some(i));
                            assert(hits_any(up, d, i));
                            assert(u.tasks[i] == up.tasks[i]);
                            assert forall|m: int| 0 <= m < d.len() implies (task_hit(u, #[trigger] d[m]) == Some(i)) == (task_hit(up, d[m]) == Some(i)) by {}
                            lemma_fold_row_agrees(u, up, d, i);
                        }
                    }
                },
            }
        }
    }
}


/// Every relation made for a task belongs to that task.
pub proof fn lemma_links_of(u: u128, names: Seq<String>, labels: Seq<crate::entities::label::Model>)
    ensures
        forall|j: int| 0 <= j < links_spec(u, names, labels).len() ==> (#[trigger] links_spec(u, names, labels)[j]).0 == u,
    decreases names.len(),
{
    if names.len() > 0 {
        lemma_links_of(u, names.drop_last(), labels);
        let before = links_spec(u, names.drop_last(), labels);
        assert forall|j: int| 0 <= j < links_spec(u, names, labels).len() implies (#[trigger] links_spec(u, names, labels)[j]).0 == u by {
            if j < before.len() {
                assert(links_spec(u, names, labels)[j] == before[j]);
            }
        }
    }
}

/// Every relation that storing a batch makes belongs to one of the batch's rows.
pub proof fn lemma_batch_links_in_batch(w: CacheView, s: Seq<BackendTask>)
    ensures
        forall|j: int| 0 <= j < batch_links(w, s).len() ==> in_batch(w, s, (#[trigger] batch_links(w, s)[j]).0),
    decreases s.len(),
{
    if s.len() > 0 {
        let d = s.drop_last();
        lemma_batch_links_in_batch(w, d);
        let x = s.last();
        assert(s[s.len() - 1] == x);
        let before = batch_links(w, d);
        assert forall|j: int| 0 <= j < batch_links(w, s).len() implies in_batch(w, s, (#[trigger] batch_links(w, s)[j]).0) by {
            if j < before.len() {
                match (crate::sync::cache::resolve_project(w, x.project_remote_id@), key_index(task_keys(w.tasks), (w.backend_uuid, x.remote_id@))) {
                    (Some(_), Some(i)) => {
                        assert(batch_links(w, s)[j] == before[j]);
                    },
                    _ => {},
                }
                let k = choose|k: int| 0 <= k < d.len() && match key_index(task_keys(w.tasks), (w.backend_uuid, (#[trigger] d[k]).remote_id@)) {
                    Some(i) => w.tasks[i].uuid == before[j].0,
                    None => false,
                };
                assert(s[k] == d[k]);
            } else {
                let i = key_index(task_keys(w.tasks), (w.backend_uuid, x.remote_id@))->0;
                lemma_links_of(w.tasks[i].uuid, x.labels@, w.labels);
                assert(batch_links(w, s)[j] == links_spec(w.tasks[i].uuid, x.labels@, w.labels)[j - before.len()]);
            }
        }
    }
}

/// A filter keeps a sequence whose every element passes it.
pub proof fn lemma_filter_keeps_all<A>(s: Seq<A>, f: spec_fn(A) -> bool)
    requires
        forall|j: int| 0 <= j < s.len() ==> f(#[trigger] s[j]),
    ensures
        s.filter(f) == s,
    decreases s.len(),
{
    reveal(Seq::filter);
    if s.len() > 0 {
        lemma_filter_keeps_all(s.drop_last(), f);
        assert(s.drop_last().push(s.last()) =~= s);
    }
}

/// The relations that storing a batch makes depend only on the records, not on the
/// relations held before.
pub proof fn lemma_batch_links_frame(x: CacheView, y: CacheView, s: Seq<BackendTask>)
    requires
        x == (CacheView { task_labels: x.task_labels, ..y }),
    ensures
        batch_links(x, s) == batch_links(y, s),
        forall|u: u128| in_batch(x, s, u) == in_batch(y, s, u),
    decreases s.len(),
{
    if s.len() > 0 {
        lemma_batch_links_frame(x, y, s.drop_last());
    }
}

/// Storing the same batch of tasks twice leaves the cache as storing it once did.
pub proof fn lemma_store_tasks_idempotent(v: CacheView, items: Seq<BackendTask>, f1: Seq<u128>, f2: Seq<u128>)
    ensures
        store_tasks_spec(store_tasks_spec(v, items, f1), items, f2) == store_tasks_spec(v, items, f1),
{
    let b = v.backend_uuid;
    let u1 = upsert_tasks_spec(v, items, f1);
    lemma_passes_keep_links(v, items, f1);
    lemma_fold_settles(v, items, f1);
    let l1 = link_task_parents_spec(u1.tasks, b, items);
    lemma_link_rows(u1.tasks, b, items);
    let w1 = CacheView { tasks: l1, ..u1 };
    let g1 = |p: (u128, u128)| !in_batch(w1, items, p.0);
    let r1 = store_tasks_spec(v, items, f1);
    assert(r1 == CacheView { task_labels: v.task_labels.filter(g1) + batch_links(w1, items), ..w1 });

    // The second run's first pass adds no row, and rewrites each hit row as the first left it.
    assert forall|k: int| 0 <= k < items.len() && resolve_project(r1, (#[trigger] items[k]).project_remote_id@) is Some
        implies key_index(task_keys(r1.tasks), (r1.backend_uuid, items[k].remote_id@)) is Some by {
        assert(resolve_project(r1, items[k].project_remote_id@) == resolve_project(v, items[k].project_remote_id@));
    }
    lemma_fold_without_push(r1, items, f2);
    let u2 = upsert_tasks_spec(r1, items, f2);
    lemma_passes_keep_links(r1, items, f2);
    assert(u1.tasks.len() == task_keys(u1.tasks).len());
    assert forall|y: BackendTask| task_hit(r1, y) == task_hit(u1, y) by {}
    assert forall|i: int| 0 <= i < u1.tasks.len() implies
        same_but_parent(#[trigger] u2.tasks[i], u1.tasks[i])
        && (u2.tasks[i].parent_uuid != u1.tasks[i].parent_uuid ==> link_hits_any(u2.tasks, b, items, i)) by {
        assert(l1[i] == task::Model { parent_uuid: linked_parent(u1.tasks, b, items, i), ..u1.tasks[i] });
        assert(u2.tasks[i] == fold_row(r1, items, i));
        if hits_any(r1, items, i) {
            assert forall|k: int| 0 <= k < items.len() implies (task_hit(r1, #[trigger] items[k]) == Some(i)) == (task_hit(u1, items[k]) == Some(i)) by {}
            lemma_fold_row_agrees(r1, u1, items, i);
            let k = choose|k: int| 0 <= k < items.len() && task_hit(r1, #[trigger] items[k]) == Some(i);
            assert(task_hit(u1, items[k]) == Some(i));
            assert(hits_any(u1, items, i));
        } else {
            lemma_fold_row_unhit(r1, items, i);
            if u2.tasks[i].parent_uuid != u1.tasks[i].parent_uuid {
                if !link_hits_any(u1.tasks, b, items, i) {
                    lemma_unlinked_parent(u1.tasks, b, items, i);
                }
                let k = choose|k: int| 0 <= k < items.len() && link_hit_at(u1.tasks, b, #[trigger] items[k], i);
                assert(link_hit_at(u2.tasks, b, items[k], i));
            }
        }
    }
    lemma_link_agrees(u2.tasks, u1.tasks, b, items);
    let l2 = link_task_parents_spec(u2.tasks, r1.backend_uuid, items);
    assert(l2 == l1);
    let w2 = CacheView { tasks: l2, ..u2 };
    assert(w2 == CacheView { task_labels: w2.task_labels, ..w1 });
    lemma_batch_links_frame(w2, w1, items);
    let g2 = |p: (u128, u128)| !in_batch(w2, items, p.0);
    assert(g2 =~= g1);
    let r2 = store_tasks_spec(r1, items, f2);
    assert(r2 == CacheView { task_labels: r1.task_labels.filter(g2) + batch_links(w2, items), ..w2 });

    // The relations: those kept the first time pass again, and those made are remade.
    let kept = v.task_labels.filter(g1);
    let made = batch_links(w1, items);
    Seq::filter_distributes_over_add(kept, made, g1);
    assert forall|j: int| 0 <= j < kept.len() implies g1(#[trigger] kept[j]) by {
        v.task_labels.lemma_filter_pred(g1, j);
    }
    lemma_filter_keeps_all(kept, g1);
    lemma_batch_links_in_batch(w1, items);
    assert(made.all(|p: (u128, u128)| !g1(p)));
    made.lemma_all_neg_filter_empty(g1);
    assert(made.filter(g1) =~= Seq::<(u128, u128)>::empty());
    assert(r2.task_labels =~= r1.task_labels);
    assert(r2 =~= r1);
}


/// Whether the rows' UUIDs are pairwise different.
pub open spec fn distinct_uuids(ts: Seq<task::Model>) -> bool {
    forall|i: int, j: int| 0 <= i < j < ts.len() ==> (#[trigger] ts[i]).uuid != (#[trigger] ts[j]).uuid
}

/// With fresh UUIDs that are new, the first pass keeps the rows' UUIDs pairwise
/// different; each is one the rows had or one of the fresh ones.
pub proof fn lemma_fold_keeps_uuids_distinct(x: CacheView, s: Seq<BackendTask>, f: Seq<u128>)
    requires
        s.len() <= f.len(),
        distinct_uuids(x.tasks),
        forall|a: int, c: int| 0 <= a < c < f.len() ==> f[a] != f[c],
        forall|a: int, i: int| 0 <= a < f.len() && 0 <= i < x.tasks.len() ==> #[trigger] f[a] != (#[trigger] x.tasks[i]).uuid,
    ensures
        distinct_uuids(upsert_tasks_spec(x, s, f).tasks),
        forall|i: int| 0 <= i < upsert_tasks_spec(x, s, f).tasks.len() ==>
            (exists|m: int| 0 <= m < x.tasks.len() && x.tasks[m].uuid == (#[trigger] upsert_tasks_spec(x, s, f).tasks[i]).uuid)
            || (exists|a: int| 0 <= a < s.len() && f[a] == upsert_tasks_spec(x, s, f).tasks[i].uuid),
    decreases s.len(),
{
    lemma_passes_keep_links(x, s, f);
    if s.len() > 0 {
        let d = s.drop_last();
        lemma_fold_keeps_uuids_distinct(x, d, f);
        lemma_passes_keep_links(x, d, f);
        let y = upsert_tasks_spec(x, d, f);
        let b = s.last();
        let u = upsert_tasks_spec(x, s, f);
        let fa = f[s.len() - 1];
        assert(u.tasks == upsert_task(y, b, fa));
        if resolve_project(y, b.project_remote_id@) is Some {
            match key_index(task_keys(y.tasks), (y.backend_uuid, b.remote_id@)) {
                Some(i0) => {
                    assert(0 <= i0 < y.tasks.len()) by {
                        let c = choose|c: int| first_key_at(task_keys(y.tasks), (y.backend_uuid, b.remote_id@), c);
                        assert(y.tasks.len() == task_keys(y.tasks).len());
                    }
                    assert forall|i: int| 0 <= i < u.tasks.len() implies #[trigger] u.tasks[i].uuid == y.tasks[i].uuid by {}
                    assert forall|i: int, j: int| 0 <= i < j < u.tasks.len() implies (#[trigger] u.tasks[i]).uuid != (#[trigger] u.tasks[j]).uuid by {
                        assert(u.tasks[i].uuid == y.tasks[i].uuid);
                        assert(u.tasks[j].uuid == y.tasks[j].uuid);
                    }
                    assert forall|i: int| 0 <= i < u.tasks.len() implies
                        (exists|m: int| 0 <= m < x.tasks.len() && x.tasks[m].uuid == (#[trigger] u.tasks[i]).uuid)
                        || (exists|a: int| 0 <= a < s.len() && f[a] == u.tasks[i].uuid) by {
                        assert(u.tasks[i].uuid == y.tasks[i].uuid);
                        if exists|a: int| 0 <= a < d.len() && f[a] == y.tasks[i].uuid {
                            let a = choose|a: int| 0 <= a < d.len() && f[a] == y.tasks[i].uuid;
                        }
                    }
                },
                None => {
                    let w = y.tasks.len() as int;
                    assert(u.tasks[w].uuid == fa);
                    assert forall|i: int| 0 <= i < w implies (#[trigger] y.tasks[i]).uuid != fa by {
                        if exists|m: int| 0 <= m < x.tasks.len() && x.tasks[m].uuid == y.tasks[i].uuid {
                            let m = choose|m: int| 0 <= m < x.tasks.len() && x.tasks[m].uuid == y.tasks[i].uuid;
                            assert(f[s.len() - 1] != x.tasks[m].uuid);
                        } else {
                            let a = choose|a: int| 0 <= a < d.len() && f[a] == y.tasks[i].uuid;
                            assert(a < s.len() - 1);
                        }
                    }
                    assert forall|i: int, j: int| 0 <= i < j < u.tasks.len() implies (#[trigger] u.tasks[i]).uuid != (#[trigger] u.tasks[j]).uuid by {
                        assert(u.tasks[i] == y.tasks[i]);
                        if j < w {
                            assert(u.tasks[j] == y.tasks[j]);
                        }
                    }
                    assert forall|i: int| 0 <= i < u.tasks.len() implies
                        (exists|m: int| 0 <= m < x.tasks.len() && x.tasks[m].uuid == (#[trigger] u.tasks[i]).uuid)
                        || (exists|a: int| 0 <= a < s.len() && f[a] == u.tasks[i].uuid) by {
                        if i < w {
                            assert(u.tasks[i] == y.tasks[i]);
                            if exists|a: int| 0 <= a < d.len() && f[a] == y.tasks[i].uuid {
                                let a = choose|a: int| 0 <= a < d.len() && f[a] == y.tasks[i].uuid;
                            }
                        } else {
                            assert(f[s.len() - 1] == u.tasks[i].uuid);
                        }
                    }
                },
            }
        } else {
            assert forall|i: int| 0 <= i < u.tasks.len() implies
                (exists|m: int| 0 <= m < x.tasks.len() && x.tasks[m].uuid == (#[trigger] u.tasks[i]).uuid)
                || (exists|a: int| 0 <= a < s.len() && f[a] == u.tasks[i].uuid) by {
                if exists|a: int| 0 <= a < d.len() && f[a] == y.tasks[i].uuid {
                    let a = choose|a: int| 0 <= a < d.len() && f[a] == y.tasks[i].uuid;
                }
            }
        }
    }
}

/// A row that some task hits after the first pass is open and carries that task's key.
pub proof fn lemma_fold_row_open(x: CacheView, s: Seq<BackendTask>, i: int)
    requires
        hits_any(x, s, i),
    ensures
        !fold_row(x, s, i).is_deleted,
        exists|k: int| 0 <= k < s.len() && task_hit(x, #[trigger] s[k]) == Some(i) && fold_row(x, s, i).remote_id == s[k].remote_id
            && fold_row(x, s, i).backend_uuid == x.backend_uuid,
    decreases s.len(),
{
    let d = s.drop_last();
    assert(s[s.len() - 1] == s.last());
    if task_hit(x, s.last()) != Some(i) {
        let k = choose|k: int| 0 <= k < s.len() && task_hit(x, #[trigger] s[k]) == Some(i);
        assert(k < d.len());
        assert(d[k] == s[k]);
        lemma_fold_row_open(x, d, i);
        let m = choose|m: int| 0 <= m < d.len() && task_hit(x, #[trigger] d[m]) == Some(i) && fold_row(x, d, i).remote_id == d[m].remote_id
            && fold_row(x, d, i).backend_uuid == x.backend_uuid;
        assert(s[m] == d[m]);
    }
}

/// After a full snapshot is written with fresh UUIDs that are new, every task of the
/// snapshot whose project is cached has an open row of the backend; with the law that
/// every open row of the backend is one the snapshot lists, the open tasks are exactly
/// the snapshot's.
pub proof fn lemma_full_snapshot_keeps_listed_tasks(v: CacheView, data: BackendSyncData, cutoff: Seq<char>, fresh: Seq<u128>)
    requires
        data.full_sync,
        apply_spec(v, data, cutoff, fresh) is Ok,
        distinct_uuids(v.tasks),
        forall|a: int, c: int| 0 <= a < c < fresh.len() ==> fresh[a] != fresh[c],
        forall|a: int, i: int| 0 <= a < fresh.len() && 0 <= i < v.tasks.len() ==> #[trigger] fresh[a] != (#[trigger] v.tasks[i]).uuid,
        (data.projects@.len() + data.labels@.len() + data.sections@.len() + data.tasks@.len()) as int <= fresh.len(),
    ensures
        forall|k: int| 0 <= k < data.tasks@.len()
            && resolve_project(apply_spec(v, data, cutoff, fresh)->Ok_0, (#[trigger] data.tasks@[k]).project_remote_id@) is Some
            ==> exists|i: int| 0 <= i < apply_spec(v, data, cutoff, fresh)->Ok_0.tasks.len()
                && (#[trigger] apply_spec(v, data, cutoff, fresh)->Ok_0.tasks[i]).backend_uuid == v.backend_uuid
                && !apply_spec(v, data, cutoff, fresh)->Ok_0.tasks[i].is_deleted
                && apply_spec(v, data, cutoff, fresh)->Ok_0.tasks[i].remote_id@ == data.tasks@[k].remote_id@,
{
    let w = apply_spec(v, data, cutoff, fresh)->Ok_0;
    let b = v.backend_uuid;
    let np = data.projects@.len() as int;
    let nl = data.labels@.len() as int;
    let ns = data.sections@.len() as int;
    let nt = data.tasks@.len() as int;
    let items = data.tasks@;
    let v2 = CacheView {
        projects: link_parents_spec(store_projects_spec(v.projects, b, data.projects@, fresh_from(fresh, 0, np)), b, data.projects@),
        ..v
    };
    let v3 = CacheView { labels: store_labels_spec(v2.labels, b, data.labels@, fresh_from(fresh, np, nl)), ..v2 };
    let v4 = CacheView {
        sections: store_sections_spec(v3.sections, v3.projects, b, data.sections@, fresh_from(fresh, np + nl, ns)),
        ..v3
    };
    let ft = fresh_from(fresh, np + nl + ns, nt);
    let u1 = upsert_tasks_spec(v4, items, ft);
    lemma_passes_keep_links(v4, items, ft);
    lemma_fold_settles(v4, items, ft);
    let l1 = link_task_parents_spec(u1.tasks, b, items);
    lemma_link_rows(u1.tasks, b, items);
    let v5 = store_tasks_spec(v4, items, ft);
    lemma_store_tasks_keeps_backend(v4, items, ft);
    assert(v5.tasks == l1);
    let v6 = remove_absent_spec(v5, items);
    let keep = |t: task::Model| !stale_uuid(v5.tasks, v5.backend_uuid, items, t.uuid);
    let pf = |t: task::Model| !expired(t, b, cutoff);
    assert(v6.tasks == v5.tasks.filter(keep));
    assert(w.tasks == v6.tasks.filter(pf));
    assert(w.projects == v4.projects);
    assert forall|a: int, c: int| 0 <= a < c < ft.len() implies ft[a] != ft[c] by {
        assert(ft[a] == fresh[np + nl + ns + a]);
        assert(ft[c] == fresh[np + nl + ns + c]);
    }
    assert forall|a: int, i: int| 0 <= a < ft.len() && 0 <= i < v4.tasks.len() implies #[trigger] ft[a] != (#[trigger] v4.tasks[i]).uuid by {
        assert(ft[a] == fresh[np + nl + ns + a]);
    }
    lemma_fold_keeps_uuids_distinct(v4, items, ft);
    assert forall|k: int| 0 <= k < nt && resolve_project(w, (#[trigger] items[k]).project_remote_id@) is Some
        implies exists|i: int| 0 <= i < w.tasks.len() && (#[trigger] w.tasks[i]).backend_uuid == b
            && !w.tasks[i].is_deleted && w.tasks[i].remote_id@ == items[k].remote_id@ by {
        assert(resolve_project(w, items[k].project_remote_id@) == resolve_project(v4, items[k].project_remote_id@));
        let i = key_index(task_keys(u1.tasks), (b, items[k].remote_id@))->0;
        assert(0 <= i < u1.tasks.len() && task_keys(u1.tasks)[i] == (b, items[k].remote_id@)) by {
            let c = choose|c: int| first_key_at(task_keys(u1.tasks), (b, items[k].remote_id@), c);
            assert(u1.tasks.len() == task_keys(u1.tasks).len());
        }
        assert(task_hit(u1, items[k]) == Some(i));
        assert(hits_any(u1, items, i));
        lemma_fold_row_open(u1, items, i);
        let row = l1[i];
        assert(row == task::Model { parent_uuid: linked_parent(u1.tasks, b, items, i), ..u1.tasks[i] });
        assert(!row.is_deleted && row.backend_uuid == b);
        assert(row.remote_id@ == items[k].remote_id@);
        let kk = choose|kk: int| 0 <= kk < items.len() && task_hit(u1, #[trigger] items[kk]) == Some(i)
            && fold_row(u1, items, i).remote_id == items[kk].remote_id && fold_row(u1, items, i).backend_uuid == u1.backend_uuid;
        assert(row.remote_id == items[kk].remote_id);
        assert(task_keys(u1.tasks)[i] == (b, items[kk].remote_id@)) by {
            let c = choose|c: int| first_key_at(task_keys(u1.tasks), (b, items[kk].remote_id@), c);
        }
        assert(listed(items, row.remote_id@)) by {
            assert(items[kk].remote_id@ == row.remote_id@);
        }
        assert(!stale_uuid(l1, b, items, row.uuid)) by {
            if stale_uuid(l1, b, items, row.uuid) {
                let j = choose|j: int| 0 <= j < l1.len() && (#[trigger] l1[j]).uuid == row.uuid && stale(l1[j], b, items);
                assert(uuids_of(l1)[j] == uuids_of(u1.tasks)[j]);
                assert(uuids_of(l1)[i] == uuids_of(u1.tasks)[i]);
                if j != i {
                    if i < j {
                        assert(u1.tasks[i].uuid != u1.tasks[j].uuid);
                    } else {
                        assert(u1.tasks[j].uuid != u1.tasks[i].uuid);
                    }
                }
            }
        }
        assert(keep(row));
        v5.tasks.lemma_filter_contains(keep, i);
        let j = choose|j: int| 0 <= j < v6.tasks.len() && v6.tasks[j] == row;
        assert(pf(row));
        v6.tasks.lemma_filter_contains(pf, j);
        let m = choose|m: int| 0 <= m < w.tasks.len() && w.tasks[m] == row;
        assert(w.tasks[m].backend_uuid == b && !w.tasks[m].is_deleted && w.tasks[m].remote_id@ == items[k].remote_id@);
    }
}

} // verus!
