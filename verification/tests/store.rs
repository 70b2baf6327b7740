use to_not_do::date::Date;
use to_not_do::error::DatabaseError;
use to_not_do::error::ToNotDoError;
use to_not_do::store::DatabaseManager;
use to_not_do::task::Task;
use to_not_do::task::TaskState;

fn date_of(year: u16, month: u8, day: u8) -> Date {
    Date::from_ymd(year, month, day).expect("valid date")
}

fn task_with(id: u128, description: &str, state: TaskState, date: Date) -> Task {
    Task {
        id,
        description: description.to_string(),
        state,
        created_at: date,
        updated_at: date,
    }
}

#[test]
fn test_create_database() {
    let db_manager = DatabaseManager::open(None).expect("Failed to open database");

    let tasks = db_manager.get_tasks();

    assert!(tasks.is_empty());
}

#[test]
fn test_open_existing_database() {
    let db_manager = DatabaseManager::open(None).expect("Failed to open database");

    let db_manager = DatabaseManager::open(Some(db_manager.db)).expect("Failed to open database");

    let tasks = db_manager.get_tasks();

    assert!(tasks.is_empty());
}

#[test]
fn test_add_task() {
    let mut db_manager = DatabaseManager::open(None).expect("Failed to open database");

    let today = date_of(2026, 10, 12);
    let task = Task {
        id: uuid::Uuid::new_v4().as_u128(),
        description: "New task".to_string(),
        state: TaskState::Todo,
        created_at: today,
        updated_at: today,
    };

    db_manager.add_task(&task).expect("Failed to add task");

    assert_eq!(db_manager.db.tasks.len(), 1);

    let tasks = db_manager.get_tasks();
    let new_task = tasks.get(0).expect("Failed to get task");

    assert_eq!(tasks.len(), 1);
    assert_eq!(*new_task, task);
}

#[test]
fn test_add_multiple_tasks() {
    let mut db_manager = DatabaseManager::open(None).expect("Failed to open database");

    let today = date_of(2026, 10, 12);
    for i in 0..100 {
        let task = Task {
            id: uuid::Uuid::new_v4().as_u128(),
            description: format!("Task {}", i),
            state: TaskState::Todo,
            created_at: today,
            updated_at: today,
        };

        db_manager.add_task(&task).expect("Failed to add task");
    }

    let tasks = db_manager.get_tasks();

    assert_eq!(tasks.len(), 100);
}

#[test]
fn test_update_task_state() {
    let mut db_manager = DatabaseManager::open(None).expect("Failed to open database");

    let today = date_of(2026, 10, 12);
    let task = task_with(
        uuid::Uuid::new_v4().as_u128(),
        "Task to update",
        TaskState::Todo,
        today,
    );

    db_manager.add_task(&task).expect("Failed to add task");

    let task_id = db_manager
        .get_tasks()
        .get(0)
        .expect("Failed to get task")
        .id;
    db_manager
        .set_task_state(task_id, TaskState::Done, today)
        .expect("Failed to update task state");

    let new_tasks = db_manager.get_tasks();
    let updated_task = new_tasks.iter().find(|t| t.id == task_id).unwrap();

    assert_eq!(updated_task.state, TaskState::Done);
}

#[test]
fn test_remove_task() {
    let mut db_manager = DatabaseManager::open(None).expect("Failed to open database");

    let today = date_of(2026, 10, 12);
    let task = task_with(
        uuid::Uuid::new_v4().as_u128(),
        "Task to remove",
        TaskState::Todo,
        today,
    );

    db_manager.add_task(&task).expect("Failed to add task");
    assert_eq!(db_manager.db.tasks.len(), 1);

    let task_id = db_manager
        .get_tasks()
        .get(0)
        .expect("Failed to get task")
        .id;

    db_manager.delete_task(task_id).expect("Failed to remove task");

    assert_eq!(db_manager.db.tasks.len(), 0);
}

#[test]
fn test_save_and_load_database() {
    let mut db_manager = DatabaseManager::open(None).expect("Failed to open database");

    let today = date_of(2026, 10, 12);
    let task = task_with(
        uuid::Uuid::new_v4().as_u128(),
        "Persistent task",
        TaskState::Todo,
        today,
    );

    db_manager.add_task(&task).expect("Failed to add task");

    let db_manager = DatabaseManager::open(Some(db_manager.db)).expect("Failed to open database");
    let tasks = db_manager.get_tasks();
    println!("{:?}", tasks.len());
    assert_eq!(tasks.len(), 1);
    assert_eq!(tasks[0], task);
}

#[test]
fn test_add_round_trip_preserves_fields() {
    let mut db_manager = DatabaseManager::open(None).expect("Failed to open database");

    let created = date_of(2026, 2, 28);
    let task = task_with(7, "buy milk", TaskState::InProgress, created);

    db_manager.add_task(&task).expect("Failed to add task");

    let reopened = DatabaseManager::open(Some(db_manager.db)).expect("Failed to reopen database");
    let tasks = reopened.get_tasks();

    assert_eq!(tasks.len(), 1);
    assert_eq!(tasks[0].id, 7);
    assert_eq!(tasks[0].description, "buy milk");
    assert_eq!(tasks[0].state, TaskState::InProgress);
    assert_eq!(tasks[0].created_at, created);
    assert_eq!(tasks[0].updated_at, created);
}

#[test]
fn test_duplicate_id_is_conflict() {
    let mut db_manager = DatabaseManager::open(None).expect("Failed to open database");

    let today = date_of(2026, 10, 12);
    let first = task_with(42, "first", TaskState::Todo, today);
    let second = task_with(42, "second", TaskState::Done, today);

    db_manager.add_task(&first).expect("Failed to add task");
    let result = db_manager.add_task(&second);

    assert_eq!(
        result,
        Err(ToNotDoError::DatabaseError(DatabaseError::UuidAlreadyExists(42)))
    );
    assert_eq!(db_manager.get_tasks().len(), 1);
    assert_eq!(db_manager.get_tasks()[0].description, "first");
}

#[test]
fn test_delete_missing_leaves_store_unchanged() {
    let mut db_manager = DatabaseManager::open(None).expect("Failed to open database");

    let today = date_of(2026, 10, 12);
    let task = task_with(1, "keep me", TaskState::Todo, today);
    db_manager.add_task(&task).expect("Failed to add task");

    let result = db_manager.delete_task(2);

    assert_eq!(
        result,
        Err(ToNotDoError::DatabaseError(DatabaseError::TaskNotFound(2)))
    );
    let tasks = db_manager.get_tasks();
    assert_eq!(tasks.len(), 1);
    assert_eq!(*tasks.get(0).unwrap(), task_with(1, "keep me", TaskState::Todo, today));
}

#[test]
fn test_update_missing_is_not_found() {
    let mut db_manager = DatabaseManager::open(None).expect("Failed to open database");

    let today = date_of(2026, 10, 12);
    let result = db_manager.update_description(9, "anything", today);

    assert_eq!(
        result,
        Err(ToNotDoError::DatabaseError(DatabaseError::TaskNotFound(9)))
    );
}

#[test]
fn test_set_state_refreshes_update_date_only() {
    let mut db_manager = DatabaseManager::open(None).expect("Failed to open database");

    let created = date_of(2026, 1, 10);
    let later = date_of(2026, 1, 12);
    let task = task_with(5, "stable fields", TaskState::Todo, created);
    db_manager.add_task(&task).expect("Failed to add task");

    db_manager
        .set_task_state(5, TaskState::Done, later)
        .expect("Failed to update task state");

    let tasks = db_manager.get_tasks();
    assert_eq!(tasks[0].id, 5);
    assert_eq!(tasks[0].description, "stable fields");
    assert_eq!(tasks[0].state, TaskState::Done);
    assert_eq!(tasks[0].created_at, created);
    assert_eq!(tasks[0].updated_at, later);
}

#[test]
fn test_update_description_refreshes_update_date_only() {
    let mut db_manager = DatabaseManager::open(None).expect("Failed to open database");

    let created = date_of(2025, 12, 31);
    let later = date_of(2026, 1, 1);
    let task = task_with(6, "old text", TaskState::InProgress, created);
    db_manager.add_task(&task).expect("Failed to add task");

    db_manager
        .update_description(6, "new text", later)
        .expect("Failed to update task");

    let tasks = db_manager.get_tasks();
    assert_eq!(tasks[0].id, 6);
    assert_eq!(tasks[0].description, "new text");
    assert_eq!(tasks[0].state, TaskState::InProgress);
    assert_eq!(tasks[0].created_at, created);
    assert_eq!(tasks[0].updated_at, later);
}

#[test]
fn test_filter_by_state_is_exact_and_partitions() {
    let mut db_manager = DatabaseManager::open(None).expect("Failed to open database");

    let today = date_of(2026, 10, 12);
    db_manager.add_task(&task_with(1, "a", TaskState::Todo, today)).unwrap();
    db_manager.add_task(&task_with(2, "b", TaskState::Done, today)).unwrap();
    db_manager.add_task(&task_with(3, "c", TaskState::Todo, today)).unwrap();
    db_manager.add_task(&task_with(4, "d", TaskState::InProgress, today)).unwrap();
    db_manager.add_task(&task_with(5, "e", TaskState::Todo, today)).unwrap();

    let todo = db_manager.filter_tasks(TaskState::Todo);
    let in_progress = db_manager.filter_tasks(TaskState::InProgress);
    let done = db_manager.filter_tasks(TaskState::Done);

    assert_eq!(todo.len(), 3);
    assert_eq!(in_progress.len(), 1);
    assert_eq!(done.len(), 1);
    assert_eq!(todo.len() + in_progress.len() + done.len(), db_manager.get_tasks().len());

    let todo_ids: Vec<u128> = todo.iter().map(|t| t.id).collect();
    assert_eq!(todo_ids, vec![1, 3, 5]);
    assert!(todo.iter().all(|t| t.state == TaskState::Todo));
    assert_eq!(in_progress[0].id, 4);
    assert_eq!(done[0].id, 2);
}

#[test]
fn test_open_rejects_duplicate_ids() {
    let mut db_manager = DatabaseManager::open(None).expect("Failed to open database");
    let today = date_of(2026, 10, 12);
    db_manager.add_task(&task_with(8, "a", TaskState::Todo, today)).unwrap();

    let mut db = db_manager.db;
    db.tasks.push(task_with(8, "b", TaskState::Done, today));

    assert!(DatabaseManager::open(Some(db)).is_none());
}

#[test]
fn test_open_rejects_invalid_dates() {
    let mut db_manager = DatabaseManager::open(None).expect("Failed to open database");
    let today = date_of(2026, 10, 12);
    db_manager.add_task(&task_with(8, "a", TaskState::Todo, today)).unwrap();

    let mut db = db_manager.db;
    db.tasks[0].updated_at = Date { year: 2026, month: 2, day: 30 };

    assert!(DatabaseManager::open(Some(db)).is_none());
}

#[test]
fn test_scenario_add_mark_done_delete() {
    let db_manager = DatabaseManager::open(None).expect("Failed to open database");
    assert!(db_manager.get_tasks().is_empty());
    let mut db_manager = db_manager;

    let created = date_of(2026, 10, 11);
    let task = Task::new("buy milk", created);
    db_manager.add_task(&task).expect("Failed to add task");

    let tasks = db_manager.get_tasks();
    assert_eq!(tasks.len(), 1);
    assert_eq!(tasks[0].description, "buy milk");
    assert_eq!(tasks[0].state, TaskState::Todo);
    let id = tasks[0].id;

    let today = date_of(2026, 10, 12);
    db_manager
        .set_task_state(id, TaskState::Done, today)
        .expect("Failed to update task state");

    let tasks = db_manager.get_tasks();
    assert_eq!(tasks.len(), 1);
    assert_eq!(tasks[0].state, TaskState::Done);
    assert_eq!(tasks[0].updated_at, today);
    assert_eq!(tasks[0].created_at, created);

    db_manager.delete_task(id).expect("Failed to remove task");
    assert!(db_manager.get_tasks().is_empty());
}
