use tdo::storage::{backups_to_delete, JsonFileStorage};

#[test]
fn retention_keeps_the_five_most_recent_backups() {
    // Seven timestamp-suffixed names, in shuffled order: the plan prunes
    // the two oldest and keeps the five most recent.
    let names: Vec<String> = vec![
        "store.json-2025-06-04T00:00:00Z".into(),
        "store.json-2025-06-01T00:00:00Z".into(),
        "store.json-2025-06-07T00:00:00Z".into(),
        "store.json-2025-06-03T00:00:00Z".into(),
        "store.json-2025-06-02T00:00:00Z".into(),
        "store.json-2025-06-06T00:00:00Z".into(),
        "store.json-2025-06-05T00:00:00Z".into(),
    ];
    let doomed = backups_to_delete(&names);
    assert_eq!(
        doomed,
        vec![
            "store.json-2025-06-01T00:00:00Z".to_string(),
            "store.json-2025-06-02T00:00:00Z".to_string(),
        ],
    );
    assert_eq!(names.len() - doomed.len(), 5);
}

#[test]
fn retention_leaves_five_or_fewer_backups_alone() {
    let names: Vec<String> = vec![
        "store.json-2025-06-01T00:00:00Z".into(),
        "store.json-2025-06-02T00:00:00Z".into(),
        "store.json-2025-06-03T00:00:00Z".into(),
        "store.json-2025-06-04T00:00:00Z".into(),
        "store.json-2025-06-05T00:00:00Z".into(),
    ];
    assert!(backups_to_delete(&names).is_empty());
    assert!(backups_to_delete(&Vec::new()).is_empty());
}

#[test]
fn storage_layout_paths() {
    let storage = JsonFileStorage::new("/data/tdo/store.json".to_string());
    assert_eq!(storage.get_backup_dir(), "/data/tdo/backups");
    assert_eq!(
        storage.backup_path_at("2025-06-01T00:00:00Z"),
        "/data/tdo/backups/store.json-2025-06-01T00:00:00Z",
    );
    assert_eq!(storage.lock_file_path(), "/data/tdo/store.lock");

    let bare = JsonFileStorage::new("store.json".to_string());
    assert_eq!(bare.get_backup_dir(), "backups");
    assert_eq!(bare.lock_file_path(), "store.lock");

    let temp = storage.temp_file_path();
    assert!(temp.starts_with("/data/tdo/store.json.tmp."));
    assert_ne!(temp, storage.temp_file_path());
}
