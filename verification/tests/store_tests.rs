use tdo::area::Area;
use tdo::project::Project;
use tdo::store::{Store, CURRENT_VERSION};
use tdo::task::Task;

#[test]
fn test_task_number_auto_increments() {
    let mut store = Store::default();
    assert_eq!(store.next_task_number, 1);

    store.add_task(Task { title: "First".into(), id: "a".into(), ..Task::default() });
    assert_eq!(store.next_task_number, 2);
    assert_eq!(store.get_task_by_number(1).unwrap().title, "First");

    store.add_task(Task { title: "Second".into(), id: "b".into(), ..Task::default() });
    assert_eq!(store.next_task_number, 3);
    assert_eq!(store.get_task_by_number(2).unwrap().title, "Second");
}

#[test]
fn test_get_task_by_number_not_found() {
    let store = Store::default();
    assert!(store.get_task_by_number(1).is_none());
    assert!(store.get_task_by_number(999).is_none());
}

#[test]
fn task_numbers_stay_increasing_across_deletes() {
    // Numbers are assigned 1, 2, 3, ... with no gaps or reuse, even when
    // tasks are deleted in between.
    let mut store = Store::default();
    store.add_task(Task { title: "one".into(), id: "a".into(), ..Task::default() });
    store.add_task(Task { title: "two".into(), id: "b".into(), ..Task::default() });

    // Soft-delete the first task; the counter must not move.
    let mut doomed = store.get_task("a").unwrap().clone();
    doomed.deleted_at = Some("2025-06-01T00:00:00Z".to_string());
    store.put_task(doomed);
    assert_eq!(store.next_task_number, 3);

    store.add_task(Task { title: "three".into(), id: "c".into(), ..Task::default() });
    assert_eq!(store.get_task("a").unwrap().task_number, 1);
    assert_eq!(store.get_task("b").unwrap().task_number, 2);
    assert_eq!(store.get_task("c").unwrap().task_number, 3);
    assert_eq!(store.next_task_number, 4);
}

#[test]
fn store_queries_filter_by_state() {
    let mut store = Store::default();
    store.add_area(Area { id: "ar".into(), name: "Home".into(), ..Area::default() });
    store.add_project(Project {
        id: "pr".into(),
        name: "Garden".into(),
        area_id: Some("ar".into()),
        ..Project::default()
    });
    store.add_task(Task {
        id: "t1".into(),
        title: "water plants".into(),
        project_id: Some("pr".into()),
        ..Task::default()
    });
    store.add_task(Task {
        id: "t2".into(),
        title: "buy soil".into(),
        area_id: Some("ar".into()),
        deleted_at: Some("2025-06-01T00:00:00Z".to_string()),
        ..Task::default()
    });

    assert_eq!(store.get_active_tasks().len(), 1);
    assert_eq!(store.get_deleted_tasks().len(), 1);
    assert_eq!(store.get_active_projects().len(), 1);
    assert_eq!(store.get_active_areas().len(), 1);
    assert_eq!(store.get_tasks_for_project("pr").len(), 1);
    assert_eq!(store.get_projects_for_area("ar").len(), 1);
    // Direct area tasks exclude tasks that belong to a project.
    assert_eq!(store.get_tasks_for_area("ar").len(), 1);
    assert_eq!(store.get_tasks_for_area("ar")[0].id, "t2");
    assert_eq!(store.version, CURRENT_VERSION);
}
