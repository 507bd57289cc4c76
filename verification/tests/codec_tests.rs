use tdo::area::Area;
use tdo::codec::{decode_store, encode_store};
use tdo::dates::Date;
use tdo::project::Project;
use tdo::store::Store;
use tdo::task::{ChecklistItem, Task, When};

#[test]
fn test_save_and_load() {
    let area = Area { name: String::from("Some Area"), id: "area-1".into(), ..Area::default() };
    let area_id = area.id.clone();

    let project = Project {
        area_id: Some(area_id.clone()),
        name: String::from("Some Project"),
        id: "project-1".into(),
        ..Project::default()
    };
    let project_id = project.id.clone();

    let task = Task {
        title: String::from("Some Task"),
        project_id: Some(project_id.clone()),
        id: "task-1".into(),
        ..Task::default()
    };
    let task_id = task.id.clone();

    let mut store = Store::default();
    store.add_area(area);
    store.add_project(project);
    store.add_task(task);

    let written = encode_store(&store);
    let loaded_store = decode_store(&written).expect("Should correctly load the saved store");

    assert_eq!(loaded_store.get_area(&area_id).unwrap().id, area_id);
    assert_eq!(loaded_store.get_project(&project_id).unwrap().id, project_id);
    assert_eq!(loaded_store.get_task(&task_id).unwrap().id, task_id);
    assert_eq!(loaded_store.get_task(&task_id).unwrap().task_number, 1);
    assert_eq!(loaded_store.next_task_number, 2);
}

#[test]
fn round_trip_keeps_every_field() {
    let task = Task {
        id: "deadbeef".into(),
        task_number: 7,
        title: "Write the report".into(),
        notes: Some("with charts".into()),
        project_id: Some("p-9".into()),
        area_id: None,
        tags: vec!["work".into(), "urgent".into()],
        when: When::Scheduled { date: Date { year: 2026, month: 2, day: 28 } },
        deadline: Some(Date { year: 2026, month: 3, day: 1 }),
        defer_until: None,
        checklist: vec![ChecklistItem {
            id: "c-1".into(),
            title: "outline".into(),
            completed: true,
        }],
        completed_at: None,
        deleted_at: Some("2026-01-05T10:00:00Z".into()),
        created_at: "2026-01-01T09:30:00Z".into(),
    };
    let mut store = Store::default();
    store.next_task_number = 8;
    store.tasks.push(task);
    store.projects.push(Project {
        id: "p-9".into(),
        name: "Reports".into(),
        slug: "reports".into(),
        deadline: Some(Date { year: 2026, month: 6, day: 30 }),
        created_at: "2025-12-31T00:00:00Z".into(),
        ..Project::default()
    });
    store.areas.push(Area {
        id: "a-1".into(),
        name: "Work".into(),
        slug: "work".into(),
        deleted_at: Some("2026-01-02T00:00:00Z".into()),
    });

    let loaded = decode_store(&encode_store(&store)).unwrap();
    assert_eq!(loaded.version, store.version);
    assert_eq!(loaded.next_task_number, 8);

    let t = loaded.get_task("deadbeef").unwrap();
    assert_eq!(t.task_number, 7);
    assert_eq!(t.title, "Write the report");
    assert_eq!(t.notes.as_deref(), Some("with charts"));
    assert_eq!(t.project_id.as_deref(), Some("p-9"));
    assert_eq!(t.area_id, None);
    assert_eq!(t.tags, vec!["work".to_string(), "urgent".to_string()]);
    assert_eq!(t.when, When::Scheduled { date: Date { year: 2026, month: 2, day: 28 } });
    assert_eq!(t.deadline, Some(Date { year: 2026, month: 3, day: 1 }));
    assert_eq!(t.defer_until, None);
    assert_eq!(t.checklist.len(), 1);
    assert_eq!(t.checklist[0].title, "outline");
    assert!(t.checklist[0].completed);
    assert_eq!(t.completed_at, None);
    assert_eq!(t.deleted_at.as_deref(), Some("2026-01-05T10:00:00Z"));
    assert_eq!(t.created_at, "2026-01-01T09:30:00Z");

    let p = loaded.get_project("p-9").unwrap();
    assert_eq!(p.name, "Reports");
    assert_eq!(p.slug, "reports");
    assert_eq!(p.deadline, Some(Date { year: 2026, month: 6, day: 30 }));

    let a = loaded.get_area("a-1").unwrap();
    assert_eq!(a.name, "Work");
    assert_eq!(a.deleted_at.as_deref(), Some("2026-01-02T00:00:00Z"));
}

#[test]
fn decode_rejects_a_bad_calendar_date() {
    let mut store = Store::default();
    store.tasks.push(Task { id: "x".into(), ..Task::default() });
    let mut doc = encode_store(&store);
    // Corrupt the task's deadline into an impossible date.
    if let tdo::json::JsonValue::Obj(fields) = &mut doc {
        for (k, v) in fields.iter_mut() {
            if k == "tasks" {
                if let tdo::json::JsonValue::Arr(items) = v {
                    if let tdo::json::JsonValue::Obj(tf) = &mut items[0] {
                        for (tk, tv) in tf.iter_mut() {
                            if tk == "deadline" {
                                *tv = tdo::json::JsonValue::Str("2025-02-30".into());
                            }
                        }
                    }
                }
            }
        }
    }
    assert!(decode_store(&doc).is_none());
}
