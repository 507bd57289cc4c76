use tdo::json::JsonValue;
use tdo::migrations::{apply_migrations, detect_version};
use tdo::storage::{load_store, StorageError};
use tdo::store::CURRENT_VERSION;

fn obj(fields: Vec<(&str, JsonValue)>) -> JsonValue {
    let mut out: Vec<(String, JsonValue)> = Vec::new();
    for (k, v) in fields {
        out.push((k.to_string(), v));
    }
    JsonValue::Obj(out)
}

fn s(x: &str) -> JsonValue {
    JsonValue::Str(x.to_string())
}

fn empty_arrays() -> Vec<(&'static str, JsonValue)> {
    vec![
        ("tasks", JsonValue::Arr(vec![])),
        ("projects", JsonValue::Arr(vec![])),
        ("areas", JsonValue::Arr(vec![])),
    ]
}

fn v1_task(id: &str, title: &str, created_at: &str) -> JsonValue {
    obj(vec![
        ("id", s(id)),
        ("title", s(title)),
        ("notes", JsonValue::Null),
        ("project_id", JsonValue::Null),
        ("area_id", JsonValue::Null),
        ("tags", JsonValue::Arr(vec![])),
        ("when", obj(vec![("type", s("Inbox"))])),
        ("deadline", JsonValue::Null),
        ("defer_until", JsonValue::Null),
        ("checklist", JsonValue::Arr(vec![])),
        ("completed_at", JsonValue::Null),
        ("deleted_at", JsonValue::Null),
        ("created_at", s(created_at)),
    ])
}

#[test]
fn test_detect_version_with_version_field() {
    let mut fields = vec![("version", JsonValue::Int(2))];
    fields.extend(empty_arrays());
    let doc = obj(fields);
    assert_eq!(detect_version(&doc).unwrap(), 2);
}

#[test]
fn test_detect_version_without_version_field() {
    let doc = obj(empty_arrays());
    assert_eq!(detect_version(&doc).unwrap(), 1);
}

#[test]
fn test_apply_migrations_same_version() {
    let data = obj(vec![("version", JsonValue::Int(1))]);
    let reference = obj(vec![("version", JsonValue::Int(1))]);
    let result = apply_migrations(data, 1, 1).unwrap();
    // The document comes back untouched.
    match (result, reference) {
        (JsonValue::Obj(got), JsonValue::Obj(want)) => {
            assert_eq!(got.len(), want.len());
            assert_eq!(got[0].0, want[0].0);
            assert!(matches!(got[0].1, JsonValue::Int(1)));
        },
        _ => panic!("expected objects"),
    }
}

#[test]
fn test_apply_migrations_future_version() {
    let data = obj(vec![("version", JsonValue::Int(5))]);
    let result = apply_migrations(data, 5, 1);
    assert!(matches!(result, Err(StorageError::FutureVersion(5))));
}

#[test]
fn test_load_v1_without_version_field() {
    let doc = obj(empty_arrays());
    let store = load_store(Some(&doc), "store.json").expect("a version-less file loads as v1");
    assert_eq!(store.version, CURRENT_VERSION);
    assert_eq!(store.next_task_number, 1);
}

#[test]
fn test_load_future_version() {
    let mut fields = vec![("version", JsonValue::Int(999))];
    fields.extend(empty_arrays());
    let doc = obj(fields);
    match load_store(Some(&doc), "store.json") {
        Err(StorageError::FutureVersion(999)) => {},
        _ => panic!("Expected FutureVersion(999) error"),
    }
}

#[test]
fn test_v1_to_v2_migration_backfills_task_numbers() {
    let doc = obj(vec![
        (
            "tasks",
            JsonValue::Arr(vec![
                v1_task(
                    "00000000-0000-0000-0000-000000000001",
                    "Second task",
                    "2025-06-02T00:00:00Z",
                ),
                v1_task(
                    "00000000-0000-0000-0000-000000000002",
                    "First task",
                    "2025-06-01T00:00:00Z",
                ),
            ]),
        ),
        ("projects", JsonValue::Arr(vec![])),
        ("areas", JsonValue::Arr(vec![])),
    ]);

    let store = load_store(Some(&doc), "store.json").expect("Migration should succeed");

    assert_eq!(store.version, 2);
    assert_eq!(store.next_task_number, 3);

    // "First task" (earlier created_at) gets task_number 1
    let first = store.get_task_by_number(1).expect("Task #1 should exist");
    assert_eq!(first.title, "First task");

    // "Second task" (later created_at) gets task_number 2
    let second = store.get_task_by_number(2).expect("Task #2 should exist");
    assert_eq!(second.title, "Second task");
}

#[test]
fn migration_breaks_created_at_ties_by_position() {
    let doc = obj(vec![
        (
            "tasks",
            JsonValue::Arr(vec![
                v1_task("a", "earlier in the file", "2025-06-01T00:00:00Z"),
                v1_task("b", "later in the file", "2025-06-01T00:00:00Z"),
            ]),
        ),
        ("projects", JsonValue::Arr(vec![])),
        ("areas", JsonValue::Arr(vec![])),
    ]);
    let store = load_store(Some(&doc), "store.json").unwrap();
    assert_eq!(store.get_task_by_number(1).unwrap().title, "earlier in the file");
    assert_eq!(store.get_task_by_number(2).unwrap().title, "later in the file");
}

#[test]
fn loading_nothing_yields_a_fresh_store() {
    let store = load_store(None, "store.json").unwrap();
    assert_eq!(store.version, CURRENT_VERSION);
    assert_eq!(store.next_task_number, 1);
    assert!(store.tasks.is_empty());
    assert!(store.projects.is_empty());
    assert!(store.areas.is_empty());
}

#[test]
fn loading_version_zero_is_unsupported() {
    let mut fields = vec![("version", JsonValue::Int(0))];
    fields.extend(empty_arrays());
    let doc = obj(fields);
    assert!(matches!(
        load_store(Some(&doc), "store.json"),
        Err(StorageError::UnsupportedVersion(0))
    ));
}

#[test]
fn loading_garbage_is_a_parse_failure() {
    let doc = JsonValue::Str("not a store".to_string());
    assert!(matches!(
        load_store(Some(&doc), "store.json"),
        Err(StorageError::ParseFailed { .. })
    ));
}
