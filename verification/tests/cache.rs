use terminalist::backend::{BackendProject, BackendSection, BackendSyncData, BackendTask};
use terminalist::entities::{label, task};
use terminalist::sync::cache::LocalCache;
use terminalist::ui::app_core::actions::SidebarSelection;

const BACKEND: u128 = 7;

fn backend_project(remote_id: &str) -> BackendProject {
    BackendProject {
        remote_id: remote_id.to_string(),
        name: remote_id.to_string(),
        is_favorite: false,
        is_inbox: remote_id == "inbox",
        order_index: 0,
        parent_remote_id: None,
    }
}

fn backend_task(remote_id: &str, project: &str, labels: &[&str]) -> BackendTask {
    BackendTask {
        remote_id: remote_id.to_string(),
        content: format!("Task {remote_id}"),
        description: None,
        project_remote_id: project.to_string(),
        section_remote_id: None,
        parent_remote_id: None,
        priority: 1,
        order_index: 0,
        due_date: None,
        due_datetime: None,
        is_recurring: false,
        deadline: None,
        duration: None,
        is_completed: false,
        completed_at: None,
        labels: labels.iter().map(|l| l.to_string()).collect(),
    }
}

fn data(full_sync: bool, token: Option<&str>) -> BackendSyncData {
    BackendSyncData {
        full_sync,
        sync_token: token.map(str::to_string),
        ..BackendSyncData::default()
    }
}

fn cache_with_inbox() -> LocalCache {
    let mut cache = LocalCache::new(BACKEND);
    cache.store_project(&backend_project("inbox"), 100);
    cache
}

#[test]
fn task_of_unknown_project_is_left_out() {
    let mut cache = cache_with_inbox();
    assert_eq!(cache.store_task(&backend_task("t1", "elsewhere", &[]), 200), None);
    assert!(cache.tasks.is_empty());
}

#[test]
fn stored_task_keeps_its_local_uuid_and_relinks_labels() {
    let mut cache = cache_with_inbox();
    cache.labels.push(label::Model {
        uuid: 300,
        backend_uuid: BACKEND,
        remote_id: "l1".to_string(),
        name: "home".to_string(),
        order_index: 0,
        is_favorite: false,
    });
    assert_eq!(cache.store_task(&backend_task("t1", "inbox", &["home"]), 200), Some(200));
    assert_eq!(cache.tasks[0].project_uuid, 100);
    assert_eq!(cache.task_labels, vec![(200, 300)]);

    let mut changed = backend_task("t1", "inbox", &[]);
    changed.content = "Renamed".to_string();
    assert_eq!(cache.store_task(&changed, 201), Some(200));
    assert_eq!(cache.tasks.len(), 1);
    assert_eq!(cache.tasks[0].content, "Renamed");
    assert!(cache.task_labels.is_empty());
}

#[test]
fn sync_token_is_stored_with_the_changes() {
    let mut cache = cache_with_inbox();
    let mut changes = data(false, Some("token-2"));
    changes.tasks.push(backend_task("t1", "inbox", &[]));
    assert_eq!(cache.apply(&changes, "2025-01-01T00:00:00Z", &vec![500]), Ok(()));
    assert_eq!(cache.sync_token, Some("token-2".to_string()));
    assert_eq!(cache.tasks.len(), 1);
    assert_eq!(cache.tasks[0].uuid, 500);

    assert_eq!(cache.apply(&data(false, None), "2025-01-01T00:00:00Z", &Vec::new()), Ok(()));
    assert_eq!(cache.sync_token, Some("token-2".to_string()));
}

#[test]
fn failed_write_keeps_the_previous_cache_and_token() {
    let mut cache = cache_with_inbox();
    cache.sync_token = Some("token-1".to_string());
    let mut changes = data(false, Some("token-2"));
    changes.tasks.push(backend_task("t1", "inbox", &[]));
    changes.sections.push(BackendSection {
        remote_id: "s1".to_string(),
        name: "Later".to_string(),
        project_remote_id: "missing".to_string(),
        order_index: 0,
    });
    let result = cache.apply(&changes, "2025-01-01T00:00:00Z", &vec![500, 501]);
    assert_eq!(
        result,
        Err("Project with remote_id missing not found locally during section sync. Please sync projects first.".to_string())
    );
    assert_eq!(cache.sync_token, Some("token-1".to_string()));
    assert!(cache.tasks.is_empty());
    assert!(cache.sections.is_empty());
}

fn trashed(uuid: u128, deleted_at: &str) -> task::Model {
    task::Model {
        uuid,
        backend_uuid: BACKEND,
        remote_id: format!("r{uuid}"),
        content: "Old".to_string(),
        description: None,
        project_uuid: 100,
        section_uuid: None,
        parent_uuid: None,
        priority: 1,
        order_index: 0,
        due_date: None,
        due_datetime: None,
        is_recurring: false,
        deadline: None,
        duration: None,
        is_completed: false,
        completed_at: None,
        is_deleted: true,
        deleted_at: Some(deleted_at.to_string()),
    }
}

#[test]
fn trash_older_than_the_cutoff_is_purged_and_nothing_else() {
    let mut cache = cache_with_inbox();
    cache.tasks.push(trashed(1, "2024-11-01T00:00:00Z"));
    cache.tasks.push(trashed(2, "2024-12-20T00:00:00Z"));
    assert_eq!(cache.apply(&data(false, None), "2024-12-01T00:00:00Z", &Vec::new()), Ok(()));
    let left: Vec<u128> = cache.tasks.iter().map(|t| t.uuid).collect();
    assert_eq!(left, vec![2]);
}

#[test]
fn full_sync_removes_tasks_the_backend_no_longer_lists() {
    let mut cache = cache_with_inbox();
    cache.store_task(&backend_task("t1", "inbox", &[]), 200);
    cache.store_task(&backend_task("t2", "inbox", &[]), 201);
    let mut changes = data(true, None);
    changes.projects.push(backend_project("inbox"));
    changes.tasks.push(backend_task("t2", "inbox", &[]));
    assert_eq!(cache.apply(&changes, "2024-12-01T00:00:00Z", &vec![600, 601]), Ok(()));
    let left: Vec<u128> = cache.tasks.iter().map(|t| t.uuid).collect();
    assert_eq!(left, vec![201]);
    assert_eq!(cache.projects.len(), 1);
    assert_eq!(cache.projects[0].uuid, 100);
}

#[test]
fn label_view_snapshot_lists_the_labelled_open_tasks() {
    let mut cache = cache_with_inbox();
    cache.labels.push(label::Model {
        uuid: 300,
        backend_uuid: BACKEND,
        remote_id: "l1".to_string(),
        name: "home".to_string(),
        order_index: 0,
        is_favorite: false,
    });
    cache.store_task(&backend_task("t1", "inbox", &["home"]), 200);
    cache.store_task(&backend_task("t2", "inbox", &[]), 201);
    let snap = cache.snapshot(SidebarSelection::Label(300), 3, false, 739_000);
    let listed: Vec<u128> = snap.tasks.iter().map(|t| t.uuid).collect();
    assert_eq!(listed, vec![200]);
    assert_eq!(snap.all_tasks.len(), 2);
    assert_eq!(snap.navigation_counts.labels, vec![(300, 1)]);
}

fn child_of(remote_id: &str, parent: &str) -> BackendTask {
    let mut t = backend_task(remote_id, "inbox", &[]);
    t.parent_remote_id = Some(parent.to_string());
    t
}

#[test]
fn child_listed_before_its_parent_gets_the_parent() {
    let mut cache = cache_with_inbox();
    let batch = vec![child_of("child", "parent"), backend_task("parent", "inbox", &[])];
    cache.store_tasks(&batch, &vec![200, 201], 0);
    let child = cache.tasks.iter().find(|t| t.remote_id == "child").unwrap();
    let parent = cache.tasks.iter().find(|t| t.remote_id == "parent").unwrap();
    assert_eq!(child.parent_uuid, Some(parent.uuid));
    assert_eq!(parent.uuid, 201);
}

#[test]
fn storing_the_same_batch_twice_changes_nothing() {
    let mut cache = cache_with_inbox();
    cache.labels.push(label::Model {
        uuid: 300,
        backend_uuid: BACKEND,
        remote_id: "l1".to_string(),
        name: "home".to_string(),
        order_index: 0,
        is_favorite: false,
    });
    let batch = vec![
        child_of("child", "parent"),
        backend_task("parent", "inbox", &["home"]),
        backend_task("elsewhere", "missing", &[]),
    ];
    cache.store_tasks(&batch, &vec![200, 201, 202], 0);
    let tasks_once = cache.tasks.clone();
    let links_once = cache.task_labels.clone();
    cache.store_tasks(&batch, &vec![300, 301, 302], 0);
    assert_eq!(cache.tasks, tasks_once);
    assert_eq!(cache.task_labels, links_once);
}

#[test]
fn emptying_the_trash_removes_only_trashed_tasks_and_their_labels() {
    let mut cache = cache_with_inbox();
    cache.store_task(&backend_task("open", "inbox", &[]), 200);
    cache.tasks.push(trashed(1, "2024-11-01T00:00:00Z"));
    cache.task_labels = vec![(1, 300), (200, 300)];
    assert_eq!(cache.empty_trash(), 1);
    let left: Vec<u128> = cache.tasks.iter().map(|t| t.uuid).collect();
    assert_eq!(left, vec![200]);
    assert_eq!(cache.task_labels, vec![(200, 300)]);
}

#[test]
fn search_ignores_ascii_case_and_orders_open_tasks_first() {
    let mut cache = cache_with_inbox();
    let mut done = backend_task("a", "inbox", &[]);
    done.content = "Buy MILK".to_string();
    done.is_completed = true;
    done.order_index = 0;
    let mut later = backend_task("b", "inbox", &[]);
    later.content = "milk the cow".to_string();
    later.order_index = 5;
    let mut first = backend_task("c", "inbox", &[]);
    first.content = "Nothing".to_string();
    first.description = Some("oat Milk".to_string());
    first.order_index = 1;
    let mut other = backend_task("d", "inbox", &[]);
    other.content = "Bread".to_string();
    for (k, t) in [done, later, first, other].iter().enumerate() {
        cache.store_task(t, 200 + k as u128);
    }
    let found: Vec<String> = cache.search_tasks("milk").iter().map(|t| t.remote_id.clone()).collect();
    assert_eq!(found, vec!["c".to_string(), "b".to_string(), "a".to_string()]);
    let wildcard: Vec<String> = cache.search_tasks("m_lk").iter().map(|t| t.remote_id.clone()).collect();
    assert_eq!(wildcard.len(), 3);
    assert!(cache.search_tasks("tea").is_empty());
}

#[test]
fn restore_lookup_names_what_is_missing() {
    let mut cache = cache_with_inbox();
    assert_eq!(
        cache.restore_lookup(0x0123_4567_89ab_cdef_0123_4567_89ab_cdef).err(),
        Some("Task not found in local storage: 01234567-89ab-cdef-0123-456789abcdef".to_string())
    );
    cache.store_task(&child_of("child", "parent"), 200);
    let found = cache.restore_lookup(200).ok().unwrap();
    assert_eq!(found.project_remote_id, "inbox");
    assert_eq!(found.parent_remote_id, None);
}

#[test]
fn create_lookup_finds_project_and_label() {
    let mut cache = cache_with_inbox();
    cache.labels.push(label::Model {
        uuid: 300,
        backend_uuid: BACKEND,
        remote_id: "l1".to_string(),
        name: "home".to_string(),
        order_index: 0,
        is_favorite: false,
    });
    assert_eq!(cache.create_lookup(Some(100), Some(300)), Ok((Some("inbox".to_string()), Some("home".to_string()))));
    assert_eq!(cache.create_lookup(None, Some(5)), Err("Label not found: 00000000-0000-0000-0000-000000000005".to_string()));
}
