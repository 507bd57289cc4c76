use tdo::areas::{create_area, delete_area, restore_area, CreateAreaParameters,
    DeleteAreaError, DeleteAreaParameters, RestoreAreaParameters};
use tdo::context::get_task_context;
use tdo::dates::Date;
use tdo::project::Project;
use tdo::projects::{create_project, delete_project, restore_project, CreateProjectParameters,
    DeleteProjectError, DeleteProjectParameters, RestoreProjectParameters};
use tdo::store::Store;
use tdo::storage::{Storage, StorageError};
use tdo::task::{Task, When, WhenInstantiationError};
use tdo::tasks::{add_task, complete_task, delete_task, restore_task, AddTaskError,
    AddTaskParameters, CompleteTaskError, CompleteTaskParameters, DeleteTaskError,
    DeleteTaskParameters, RestoreTaskError, RestoreTaskParameters};

struct NullStorage;

impl Storage for NullStorage {
    fn load(&self) -> Result<Store, StorageError> {
        Ok(Store::default())
    }

    fn save(&self, _store: &Store) -> Result<(), StorageError> {
        Ok(())
    }
}

fn plain_add(title: &str) -> AddTaskParameters {
    AddTaskParameters {
        title: title.to_string(),
        notes: None,
        when: When::Inbox,
        deadline: None,
        project: None,
        area: None,
        tags: vec![],
    }
}

#[test]
fn add_task_assigns_numbers_and_persists_fields() {
    let mut store = Store::default();
    let t = add_task(&mut store, &NullStorage, AddTaskParameters {
        notes: Some("soon".into()),
        deadline: Some("2026-03-01".into()),
        tags: vec!["a".into()],
        ..plain_add("Ship it")
    })
    .unwrap();
    assert_eq!(t.task_number, 1);
    assert_eq!(t.title, "Ship it");
    assert_eq!(t.notes.as_deref(), Some("soon"));
    assert_eq!(t.deadline, Some(Date { year: 2026, month: 3, day: 1 }));
    assert!(!t.id.is_empty());
    assert!(!t.created_at.is_empty());
    assert_eq!(store.next_task_number, 2);

    let t2 = add_task(&mut store, &NullStorage, plain_add("Next")).unwrap();
    assert_eq!(t2.task_number, 2);
    assert_ne!(t.id, t2.id);
}

#[test]
fn add_task_rejects_a_bad_deadline() {
    let mut store = Store::default();
    match add_task(&mut store, &NullStorage, AddTaskParameters {
        deadline: Some("not-a-date".into()),
        ..plain_add("x")
    }) {
        Err(AddTaskError::InvalidDeadline(s, reason)) => {
            assert_eq!(s, "not-a-date");
            assert!(!reason.is_empty());
        },
        _ => panic!("expected an invalid-deadline error"),
    }
    assert!(store.tasks.is_empty());
}

#[test]
fn add_task_resolves_projects_case_insensitively() {
    let mut store = Store::default();
    create_project(&mut store, &NullStorage, CreateProjectParameters {
        name: "Launch Pad".into(),
    })
    .unwrap();
    let t = add_task(&mut store, &NullStorage, AddTaskParameters {
        project: Some("lAuNcH".into()),
        ..plain_add("Ship it")
    })
    .unwrap();
    let pid = t.project_id.expect("the task joined the project");
    assert_eq!(store.get_project(&pid).unwrap().name, "Launch Pad");

    match add_task(&mut store, &NullStorage, AddTaskParameters {
        project: Some("nowhere".into()),
        ..plain_add("lost")
    }) {
        Err(AddTaskError::ProjectNotFound(name)) => assert_eq!(name, "nowhere"),
        _ => panic!("expected a project-not-found error"),
    }
}

#[test]
fn ambiguous_project_name_reports_both_names_and_mutates_nothing() {
    let mut store = Store::default();
    create_project(&mut store, &NullStorage, CreateProjectParameters { name: "Alpha One".into() })
        .unwrap();
    create_project(&mut store, &NullStorage, CreateProjectParameters { name: "Alpha Two".into() })
        .unwrap();
    let before = store.tasks.len();
    match add_task(&mut store, &NullStorage, AddTaskParameters {
        project: Some("alpha".into()),
        ..plain_add("which one")
    }) {
        Err(AddTaskError::AmbiguousProjectName(names)) => {
            assert_eq!(names, vec!["Alpha One".to_string(), "Alpha Two".to_string()]);
        },
        _ => panic!("expected an ambiguity error"),
    }
    assert_eq!(store.tasks.len(), before);

    match delete_project(&mut store, &NullStorage, DeleteProjectParameters {
        name: "alpha".into(),
    }) {
        Err(DeleteProjectError::AmbiguousProjectName(names)) => {
            assert_eq!(names, vec!["Alpha One".to_string(), "Alpha Two".to_string()]);
        },
        _ => panic!("expected an ambiguity error"),
    }
    assert!(store.get_active_projects().len() == 2);
}

#[test]
fn numeric_identifiers_take_the_exact_number_path() {
    let mut store = Store::default();
    add_task(&mut store, &NullStorage, plain_add("first")).unwrap();
    // A task whose title contains the digits "42" must not shadow the
    // task that carries number 42.
    for _ in 0..40 {
        add_task(&mut store, &NullStorage, plain_add("filler")).unwrap();
    }
    add_task(&mut store, &NullStorage, plain_add("route 42 cleanup")).unwrap();
    assert_eq!(store.get_task_by_number(42).unwrap().title, "route 42 cleanup");

    let done = complete_task(&mut store, &NullStorage, CompleteTaskParameters {
        task_number_or_fuzzy_name: "42".into(),
    })
    .unwrap();
    assert_eq!(done.task_number, 42);
    assert!(done.completed_at.is_some());
}

#[test]
fn completing_a_completed_task_by_name_is_not_found() {
    let mut store = Store::default();
    add_task(&mut store, &NullStorage, plain_add("write summary")).unwrap();
    complete_task(&mut store, &NullStorage, CompleteTaskParameters {
        task_number_or_fuzzy_name: "summary".into(),
    })
    .unwrap();
    match complete_task(&mut store, &NullStorage, CompleteTaskParameters {
        task_number_or_fuzzy_name: "summary".into(),
    }) {
        Err(CompleteTaskError::TaskNotFound(s)) => assert_eq!(s, "summary"),
        _ => panic!("a completed task leaves the fuzzy pool"),
    }
}

#[test]
fn delete_and_restore_task_round_trip() {
    let mut store = Store::default();
    add_task(&mut store, &NullStorage, plain_add("disposable")).unwrap();

    let gone = delete_task(&mut store, &NullStorage, DeleteTaskParameters {
        task_number_or_fuzzy_name: "disposable".into(),
    })
    .unwrap();
    assert!(gone.deleted_at.is_some());

    match delete_task(&mut store, &NullStorage, DeleteTaskParameters {
        task_number_or_fuzzy_name: "1".into(),
    }) {
        Err(DeleteTaskError::TaskAlreadyDeleted(title)) => assert_eq!(title, "disposable"),
        _ => panic!("expected an already-deleted error"),
    }

    let back = restore_task(&mut store, &NullStorage, RestoreTaskParameters { task_number: 1 })
        .unwrap();
    assert!(back.deleted_at.is_none());

    match restore_task(&mut store, &NullStorage, RestoreTaskParameters { task_number: 1 }) {
        Err(RestoreTaskError::TaskNotDeleted(title)) => assert_eq!(title, "disposable"),
        _ => panic!("expected a not-deleted error"),
    }
    match restore_task(&mut store, &NullStorage, RestoreTaskParameters { task_number: 9 }) {
        Err(RestoreTaskError::TaskNotFound(s)) => assert_eq!(s, "9"),
        _ => panic!("expected a not-found error"),
    }
}

#[test]
fn create_area_derives_the_slug() {
    let mut store = Store::default();
    let area = create_area(&mut store, &NullStorage, CreateAreaParameters {
        name: "My Test Area!!!1".into(),
    })
    .unwrap();
    assert_eq!(area.slug, "my-test-area-1");
    assert!(!area.id.is_empty());
    assert!(area.deleted_at.is_none());
}

#[test]
fn deleting_an_area_cascades_under_one_instant() {
    // One area, two active projects with one active task each: deleting
    // the area sends one area, two projects and two tasks to the trash
    // under one shared instant.
    let mut store = Store::default();
    let area = create_area(&mut store, &NullStorage, CreateAreaParameters { name: "Work".into() })
        .unwrap();
    store.add_project(Project {
        id: "p1".into(),
        name: "One".into(),
        area_id: Some(area.id.clone()),
        ..Project::default()
    });
    store.add_project(Project {
        id: "p2".into(),
        name: "Two".into(),
        area_id: Some(area.id.clone()),
        ..Project::default()
    });
    store.add_task(Task { id: "t1".into(), title: "a".into(), project_id: Some("p1".into()), ..Task::default() });
    store.add_task(Task { id: "t2".into(), title: "b".into(), project_id: Some("p2".into()), ..Task::default() });

    let result = delete_area(&mut store, &NullStorage, DeleteAreaParameters { name: "work".into() })
        .unwrap();
    assert_eq!(result.cascaded_projects_count, 2);
    assert_eq!(result.cascaded_tasks_count, 2);

    let stamp = result.area.deleted_at.clone().expect("the area is deleted");
    assert_eq!(store.get_project("p1").unwrap().deleted_at.as_ref(), Some(&stamp));
    assert_eq!(store.get_project("p2").unwrap().deleted_at.as_ref(), Some(&stamp));
    assert_eq!(store.get_task("t1").unwrap().deleted_at.as_ref(), Some(&stamp));
    assert_eq!(store.get_task("t2").unwrap().deleted_at.as_ref(), Some(&stamp));

    // Restoring the area brings back only the area itself.
    let back = restore_area(&mut store, &NullStorage, RestoreAreaParameters { name: "work".into() })
        .unwrap();
    assert!(back.deleted_at.is_none());
    assert!(store.get_project("p1").unwrap().deleted_at.is_some());
    assert!(store.get_project("p2").unwrap().deleted_at.is_some());
    assert!(store.get_task("t1").unwrap().deleted_at.is_some());
    assert!(store.get_task("t2").unwrap().deleted_at.is_some());
}

#[test]
fn ambiguous_area_delete_reads_as_not_found() {
    let mut store = Store::default();
    create_area(&mut store, &NullStorage, CreateAreaParameters { name: "Home Base".into() })
        .unwrap();
    create_area(&mut store, &NullStorage, CreateAreaParameters { name: "Home Office".into() })
        .unwrap();
    match delete_area(&mut store, &NullStorage, DeleteAreaParameters { name: "home".into() }) {
        Err(DeleteAreaError::AreaNotFound(name)) => assert_eq!(name, "home"),
        _ => panic!("an ambiguous area delete folds into not-found"),
    }
    assert_eq!(store.get_active_areas().len(), 2);
}

#[test]
fn work_launch_scenario_reports_context_and_counts() {
    // Create area "Work"; put project "Launch" in it; add task "Ship it"
    // to the project. The task's display context reads "Work / Launch",
    // and deleting "Work" cascades one project and one task.
    let mut store = Store::default();
    let area = create_area(&mut store, &NullStorage, CreateAreaParameters { name: "Work".into() })
        .unwrap();
    store.add_project(Project {
        id: "launch-1".into(),
        name: "Launch".into(),
        slug: "launch".into(),
        area_id: Some(area.id.clone()),
        ..Project::default()
    });
    let task = add_task(&mut store, &NullStorage, AddTaskParameters {
        project: Some("Launch".into()),
        ..plain_add("Ship it")
    })
    .unwrap();
    assert_eq!(task.area_id, None);

    let stored = store.get_task(&task.id).unwrap();
    assert_eq!(get_task_context(stored, &store).as_deref(), Some("Work / Launch"));

    let result = delete_area(&mut store, &NullStorage, DeleteAreaParameters { name: "Work".into() })
        .unwrap();
    assert_eq!(result.cascaded_projects_count, 1);
    assert_eq!(result.cascaded_tasks_count, 1);
}

#[test]
fn project_delete_and_restore_touch_only_their_own_tombstones() {
    let mut store = Store::default();
    let project = create_project(&mut store, &NullStorage, CreateProjectParameters {
        name: "Spring Cleaning".into(),
    })
    .unwrap();
    assert_eq!(project.slug, "spring-cleaning");
    store.add_task(Task {
        id: "t1".into(),
        title: "dust".into(),
        project_id: Some(project.id.clone()),
        ..Task::default()
    });

    let result = delete_project(&mut store, &NullStorage, DeleteProjectParameters {
        name: "spring".into(),
    })
    .unwrap();
    assert_eq!(result.cascaded_tasks_count, 1);
    assert!(result.project.deleted_at.is_some());
    assert!(store.get_task("t1").unwrap().deleted_at.is_some());

    let back = restore_project(&mut store, &NullStorage, RestoreProjectParameters {
        name: "spring".into(),
    })
    .unwrap();
    assert!(back.deleted_at.is_none());
    assert!(store.get_task("t1").unwrap().deleted_at.is_some());
}

#[test]
fn when_flags_build_each_schedule() {
    assert_eq!(When::from_command_flags(false, false, false, false, None).unwrap(), When::Inbox);
    assert_eq!(
        When::from_command_flags(true, true, false, false, None).unwrap(),
        When::Today { evening: true },
    );
    assert_eq!(When::from_command_flags(false, false, true, false, None).unwrap(), When::Someday);
    assert_eq!(When::from_command_flags(false, false, false, true, None).unwrap(), When::Anytime);
    assert_eq!(
        When::from_command_flags(false, false, false, false, Some("2026-03-01".into())).unwrap(),
        When::Scheduled { date: Date { year: 2026, month: 3, day: 1 } },
    );
    match When::from_command_flags(true, false, true, false, None) {
        Err(WhenInstantiationError::ConflictingFlags(flags)) => {
            assert_eq!(flags, vec!["--today".to_string(), "--someday".to_string()]);
        },
        _ => panic!("expected conflicting flags"),
    }
    assert!(matches!(
        When::from_command_flags(false, true, false, false, None),
        Err(WhenInstantiationError::EveningWithoutToday)
    ));
    assert!(matches!(
        When::from_command_flags(false, false, false, false, Some("soonish".into())),
        Err(WhenInstantiationError::ScheduleAtIncorrect(_))
    ));
}
