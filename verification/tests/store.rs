use record_native::store::{
    backup_file_name, load_or_create_store, next_backup_step, normalize_store, save_tasks_at_path,
    store_from_disk, validate_tasks, BackupStep, LoadFollowUp, RenameOutcome, StoreFile,
    BACKUP_ATTEMPTS,
};
use record_native::task::{
    create_task, current_store_version, empty_store, update_task, StoreOnDisk, Task, TaskDraft,
    TaskStore, STORE_VERSION,
};

fn sample_task(id: &str, done: bool, due_date: Option<&str>, created_at: &str) -> Task {
    Task {
        id: id.to_string(),
        title: format!("Task {id}"),
        note: "A small note".to_string(),
        due_date: due_date.map(str::to_string),
        done,
        created_at: created_at.to_string(),
        updated_at: created_at.to_string(),
    }
}

#[test]
fn creates_empty_store_when_file_is_missing() {
    let (store, follow_up) = load_or_create_store(StoreFile::Missing);

    assert_eq!(store, empty_store());
    assert_eq!(follow_up, LoadFollowUp::WriteStore);
}

#[test]
fn saves_and_loads_tasks_from_json() {
    let tasks = vec![
        sample_task("done", true, Some("2026-06-02"), "2026-05-31T00:00:00.000Z"),
        sample_task(
            "open",
            false,
            Some("2026-06-01"),
            "2026-05-31T00:00:00.000Z",
        ),
    ];

    let saved = save_tasks_at_path(tasks).unwrap();
    let (store, follow_up) = load_or_create_store(StoreFile::Parsed(StoreOnDisk::Store(saved.clone())));

    assert_eq!(store.version, STORE_VERSION);
    assert_eq!(store.tasks[0].id, "open");
    assert_eq!(store.tasks[1].id, "done");
    assert_eq!(store, saved);
    assert_eq!(follow_up, LoadFollowUp::Nothing);
}

#[test]
fn migrates_legacy_array_store() {
    let legacy_tasks = vec![sample_task(
        "legacy",
        false,
        None,
        "2026-05-31T00:00:00.000Z",
    )];

    let (store, follow_up) =
        load_or_create_store(StoreFile::Parsed(StoreOnDisk::Tasks(legacy_tasks.clone())));

    assert_eq!(store.version, STORE_VERSION);
    assert_eq!(store.tasks, legacy_tasks);
    assert_eq!(follow_up, LoadFollowUp::Nothing);
}

#[test]
fn backs_up_corrupt_json_and_recreates_empty_store() {
    let (store, follow_up) = load_or_create_store(StoreFile::Corrupt);
    let backup = backup_file_name("tasks", 1_780_000_000, 0);

    assert_eq!(store, empty_store());
    assert_eq!(follow_up, LoadFollowUp::BackUpAndWriteStore);
    assert!(backup.contains(".invalid."));
    assert_eq!(store.version, 1);
}

#[test]
fn rejects_invalid_due_date_on_save() {
    let error = save_tasks_at_path(vec![sample_task(
        "bad-date",
        false,
        Some("2026-02-29"),
        "2026-05-31T00:00:00.000Z",
    )])
    .unwrap_err();

    assert!(error.contains("Invalid dueDate"));
}

#[test]
fn save_reports_exact_due_date_message() {
    let error = save_tasks_at_path(vec![sample_task(
        "bad-date",
        false,
        Some("2026-02-29"),
        "2026-05-31T00:00:00.000Z",
    )])
    .unwrap_err();
    assert_eq!(error, "Invalid dueDate for task 'bad-date'");
}

#[test]
fn save_refuses_blank_id_and_title() {
    let mut no_id = sample_task("x", false, None, "2026-05-31T00:00:00.000Z");
    no_id.id = "   ".to_string();
    assert_eq!(validate_tasks(&[no_id]).unwrap_err(), "Task id cannot be empty");

    let mut no_title = sample_task("x", false, None, "2026-05-31T00:00:00.000Z");
    no_title.title = "\t \n".to_string();
    assert_eq!(validate_tasks(&[no_title]).unwrap_err(), "Task title cannot be empty");
}

#[test]
fn save_reports_first_bad_task() {
    let good = sample_task("good", false, Some("2024-02-29"), "a");
    let mut bad_title = sample_task("second", false, None, "b");
    bad_title.title = String::new();
    let bad_date = sample_task("third", false, Some("2023-02-29"), "c");
    assert_eq!(
        validate_tasks(&[good.clone(), bad_date.clone(), bad_title.clone()]).unwrap_err(),
        "Invalid dueDate for task 'third'"
    );
    assert_eq!(
        validate_tasks(&[good.clone(), bad_title, bad_date]).unwrap_err(),
        "Task title cannot be empty"
    );
    assert!(validate_tasks(&[good]).is_ok());
    assert!(validate_tasks(&[]).is_ok());
}

#[test]
fn save_orders_tasks_and_sets_version() {
    let tasks = vec![
        sample_task("c", true, None, "3"),
        sample_task("b", false, None, "2"),
        sample_task("a", false, Some("2026-01-01"), "1"),
    ];
    let store = save_tasks_at_path(tasks).unwrap();
    let ids: Vec<&str> = store.tasks.iter().map(|t| t.id.as_str()).collect();
    assert_eq!(ids, vec!["a", "b", "c"]);
    assert_eq!(store.version, STORE_VERSION);
}

#[test]
fn normalizing_twice_changes_nothing() {
    let store = TaskStore {
        version: 7,
        tasks: vec![
            sample_task("x", true, Some("2026-01-02"), "1"),
            sample_task("y", false, Some("2026-01-02"), "2"),
            sample_task("z", false, Some("2026-01-01"), "3"),
        ],
    };
    let once = normalize_store(store);
    let twice = normalize_store(once.clone());
    assert_eq!(once, twice);
    assert_eq!(once.version, 1);
}

#[test]
fn stored_store_keeps_its_version_until_normalized() {
    let store = TaskStore { version: 3, tasks: Vec::new() };
    assert_eq!(store_from_disk(StoreOnDisk::Store(store.clone())), store);
    let (loaded, _) = load_or_create_store(StoreFile::Parsed(StoreOnDisk::Store(store)));
    assert_eq!(loaded.version, 1);
    assert_eq!(store_from_disk(StoreOnDisk::Tasks(Vec::new())).version, current_store_version());
}

#[test]
fn backup_names_count_attempts() {
    assert_eq!(backup_file_name("tasks", 1_780_000_000, 0), "tasks.invalid.1780000000.json");
    assert_eq!(backup_file_name("tasks", 1_780_000_000, 1), "tasks.invalid.1780000000-1.json");
    assert_eq!(backup_file_name("store", 0, 99), "store.invalid.0-99.json");
    assert_eq!(
        backup_file_name("t", u64::MAX, u32::MAX),
        format!("t.invalid.{}-{}.json", u64::MAX, u32::MAX)
    );
    assert_eq!(BACKUP_ATTEMPTS, 100);
}

#[test]
fn created_and_edited_tasks_pass_the_save_check() {
    let draft = TaskDraft {
        title: "  plan ".to_string(),
        note: " n ".to_string(),
        due_date: " 2024-02-29 ".to_string(),
    };
    let created = create_task(&draft).unwrap();
    let edited = update_task(&created, &TaskDraft {
        title: "\u{3000}x\u{3000}".to_string(),
        note: String::new(),
        due_date: String::new(),
    })
    .unwrap();
    assert!(validate_tasks(&[created.clone(), edited]).is_ok());
    assert!(save_tasks_at_path(vec![created]).is_ok());
}

#[test]
fn backup_attempts_follow_outcomes() {
    assert_eq!(next_backup_step(0, RenameOutcome::Moved), BackupStep::Done);
    assert_eq!(next_backup_step(3, RenameOutcome::Failed), BackupStep::Abort);
    assert_eq!(next_backup_step(0, RenameOutcome::NameTaken), BackupStep::Retry(1));
    assert_eq!(next_backup_step(98, RenameOutcome::NameTaken), BackupStep::Retry(99));
    assert_eq!(next_backup_step(99, RenameOutcome::NameTaken), BackupStep::NoNameLeft);
    assert_eq!(next_backup_step(u32::MAX, RenameOutcome::NameTaken), BackupStep::NoNameLeft);
}
