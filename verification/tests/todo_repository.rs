use aitodo::db::todo_service::TodoService;
use aitodo::db::{Database, ServiceError, StorageError, ValidationError};
use aitodo::models::todo::{
    CreateTodoRequest, TodoFilter, TodoPriority, TodoStatus, UpdateTodoRequest,
};
use aitodo::todo::StatusCounts;

const T: i64 = 1_700_000_000_000;

fn request(title: &str) -> CreateTodoRequest {
    CreateTodoRequest {
        title: title.to_string(),
        description: None,
        url: None,
        priority: None,
        preferred_service: None,
    }
}

fn no_change() -> UpdateTodoRequest {
    UpdateTodoRequest {
        title: None,
        description: None,
        url: None,
        status: None,
        priority: None,
        preferred_service: None,
    }
}

fn everything() -> TodoFilter {
    TodoFilter { status: None, search: None, priority: None, limit: None, offset: None }
}

fn service() -> TodoService {
    TodoService::new(Database::new())
}

#[test]
fn create_sets_pending_and_equal_timestamps() {
    let mut todos = service();
    let todo = todos.create_todo_at("id-1".to_string(), T, request("Buy milk")).unwrap();
    assert_eq!(todo.id, "id-1");
    assert_eq!(todo.title, "Buy milk");
    assert_eq!(todo.status, TodoStatus::Pending);
    assert_eq!(todo.priority, TodoPriority::Medium);
    assert_eq!(todo.created_at, T);
    assert_eq!(todo.updated_at, T);
    assert_eq!(todo.created_at, todo.updated_at);
    assert_eq!(todo.completed_at, None);
    assert_eq!(todo.description, None);
    assert_eq!(todo.url, None);
    assert_eq!(todo.preferred_service, None);
}

#[test]
fn create_keeps_every_field_of_the_request() {
    let mut todos = service();
    let todo = todos
        .create_todo_at(
            "id-1".to_string(),
            T,
            CreateTodoRequest {
                title: "Read paper".to_string(),
                description: Some("the long one".to_string()),
                url: Some("https://example.org/paper".to_string()),
                priority: Some(TodoPriority::High),
                preferred_service: Some("web".to_string()),
            },
        )
        .unwrap();
    assert_eq!(todo.description, Some("the long one".to_string()));
    assert_eq!(todo.url, Some("https://example.org/paper".to_string()));
    assert_eq!(todo.priority, TodoPriority::High);
    assert_eq!(todo.preferred_service, Some("web".to_string()));
    assert_eq!(todos.get_todo("id-1"), Some(todo));
}

#[test]
fn create_with_system_clock_and_random_id() {
    let mut todos = service();
    let first = todos.create_todo(request("one")).unwrap();
    let second = todos.create_todo(request("two")).unwrap();
    assert_eq!(first.id.chars().count(), 36);
    assert_eq!(second.id.chars().count(), 36);
    assert_ne!(first.id, second.id);
    assert_eq!(first.status, TodoStatus::Pending);
    assert_eq!(first.created_at, first.updated_at);
    assert!(first.created_at > 1_600_000_000_000);
    assert!(second.created_at >= first.created_at);
    assert_eq!(todos.database().todos().len(), 2);
}

#[test]
fn create_refuses_empty_title() {
    let mut todos = service();
    let outcome = todos.create_todo_at("id-1".to_string(), T, request(""));
    assert_eq!(outcome, Err(ServiceError::Validation(ValidationError::EmptyTitle)));
    assert_eq!(todos.get_todo("id-1"), None);
    assert_eq!(todos.database().todos().len(), 0);
    let again = todos.create_todo(request(""));
    assert_eq!(again, Err(ServiceError::Validation(ValidationError::EmptyTitle)));
}

#[test]
fn create_refuses_taken_id() {
    let mut todos = service();
    let first = todos.create_todo_at("id-1".to_string(), T, request("one")).unwrap();
    let outcome = todos.create_todo_at("id-1".to_string(), T + 1, request("two"));
    assert_eq!(outcome, Err(ServiceError::Storage(StorageError::DuplicateKey)));
    assert_eq!(todos.get_todo("id-1"), Some(first));
    assert_eq!(todos.database().todos().len(), 1);
    assert_eq!(todos.database().clock(), T);
}

#[test]
fn empty_title_is_reported_before_taken_id() {
    let mut todos = service();
    todos.create_todo_at("id-1".to_string(), T, request("one")).unwrap();
    let outcome = todos.create_todo_at("id-1".to_string(), T, request(""));
    assert_eq!(outcome, Err(ServiceError::Validation(ValidationError::EmptyTitle)));
}

#[test]
fn get_twice_gives_the_same() {
    let mut todos = service();
    todos.create_todo_at("id-1".to_string(), T, request("one")).unwrap();
    let first = todos.get_todo("id-1");
    let second = todos.get_todo("id-1");
    assert!(first.is_some());
    assert_eq!(first, second);
}

#[test]
fn get_of_unknown_id_is_none() {
    let mut todos = service();
    assert_eq!(todos.get_todo("nobody"), None);
    todos.create_todo_at("id-1".to_string(), T, request("one")).unwrap();
    assert_eq!(todos.get_todo("id-"), None);
    assert_eq!(todos.get_todo("id-11"), None);
    assert_eq!(todos.get_todo(""), None);
}

#[test]
fn partial_update_preserves_omitted_fields() {
    let mut todos = service();
    let mut create = request("t1");
    create.description = Some("d1".to_string());
    create.url = Some("u1".to_string());
    create.preferred_service = Some("web".to_string());
    create.priority = Some(TodoPriority::Low);
    todos.create_todo_at("id-1".to_string(), T, create).unwrap();
    let mut change = no_change();
    change.title = Some("t2".to_string());
    let updated = todos.update_todo_at("id-1", T + 5, change).unwrap().unwrap();
    assert_eq!(updated.title, "t2");
    assert_eq!(updated.description, Some("d1".to_string()));
    assert_eq!(updated.url, Some("u1".to_string()));
    assert_eq!(updated.preferred_service, Some("web".to_string()));
    assert_eq!(updated.priority, TodoPriority::Low);
    assert_eq!(updated.status, TodoStatus::Pending);
    assert_eq!(updated.created_at, T);
    assert_eq!(updated.updated_at, T + 5);
    assert_eq!(updated.completed_at, None);
    assert_eq!(todos.get_todo("id-1"), Some(updated));
}

#[test]
fn update_sets_each_named_field() {
    let mut todos = service();
    todos.create_todo_at("id-1".to_string(), T, request("t1")).unwrap();
    let updated = todos
        .update_todo_at(
            "id-1",
            T + 9,
            UpdateTodoRequest {
                title: Some("t2".to_string()),
                description: Some("d2".to_string()),
                url: Some("u2".to_string()),
                status: Some(TodoStatus::Done),
                priority: Some(TodoPriority::High),
                preferred_service: Some("s2".to_string()),
            },
        )
        .unwrap()
        .unwrap();
    assert_eq!(updated.title, "t2");
    assert_eq!(updated.description, Some("d2".to_string()));
    assert_eq!(updated.url, Some("u2".to_string()));
    assert_eq!(updated.status, TodoStatus::Done);
    assert_eq!(updated.priority, TodoPriority::High);
    assert_eq!(updated.preferred_service, Some("s2".to_string()));
    assert_eq!(updated.updated_at, T + 9);
    assert_eq!(updated.created_at, T);
}

#[test]
fn update_with_empty_text_is_not_omission() {
    let mut todos = service();
    let mut create = request("t1");
    create.description = Some("d1".to_string());
    todos.create_todo_at("id-1".to_string(), T, create).unwrap();
    let mut change = no_change();
    change.description = Some(String::new());
    let updated = todos.update_todo_at("id-1", T + 1, change).unwrap().unwrap();
    assert_eq!(updated.description, Some(String::new()));
    assert_eq!(updated.updated_at, T + 1);
}

#[test]
fn update_without_fields_changes_nothing() {
    let mut todos = service();
    let created = todos.create_todo_at("id-1".to_string(), T, request("t1")).unwrap();
    let updated = todos.update_todo_at("id-1", T + 50, no_change()).unwrap().unwrap();
    assert_eq!(updated, created);
    assert_eq!(updated.updated_at, T);
    assert_eq!(todos.database().clock(), T);
}

#[test]
fn update_of_unknown_id_is_none() {
    let mut todos = service();
    todos.create_todo_at("id-1".to_string(), T, request("t1")).unwrap();
    let mut change = no_change();
    change.title = Some("t2".to_string());
    assert_eq!(todos.update_todo_at("id-2", T + 1, change), Ok(None));
    assert_eq!(todos.get_todo("id-1").unwrap().title, "t1");
    assert_eq!(todos.database().clock(), T);
}

#[test]
fn update_refuses_empty_title() {
    let mut todos = service();
    let created = todos.create_todo_at("id-1".to_string(), T, request("t1")).unwrap();
    let mut change = no_change();
    change.title = Some(String::new());
    change.description = Some("d".to_string());
    assert_eq!(
        todos.update_todo_at("id-1", T + 1, change),
        Err(ServiceError::Validation(ValidationError::EmptyTitle))
    );
    assert_eq!(todos.get_todo("id-1"), Some(created));
    assert_eq!(todos.database().clock(), T);
    let mut change = no_change();
    change.title = Some(String::new());
    assert_eq!(
        todos.update_todo("id-1", change),
        Err(ServiceError::Validation(ValidationError::EmptyTitle))
    );
}

#[test]
fn update_of_unknown_id_is_none_whatever_is_asked() {
    let mut todos = service();
    let created = todos.create_todo_at("id-1".to_string(), T, request("t1")).unwrap();
    let mut change = no_change();
    change.title = Some(String::new());
    assert_eq!(todos.update_todo_at("nobody", T + 1, change), Ok(None));
    let everything = UpdateTodoRequest {
        title: Some(String::new()),
        description: Some("d".to_string()),
        url: Some("u".to_string()),
        status: Some(TodoStatus::Done),
        priority: Some(TodoPriority::High),
        preferred_service: Some("s".to_string()),
    };
    assert_eq!(todos.update_todo_at("id-2", T + 1, everything), Ok(None));
    let mut change = no_change();
    change.title = Some(String::new());
    assert_eq!(todos.update_todo("", change), Ok(None));
    assert_eq!(todos.update_todo_at("nobody", T + 1, no_change()), Ok(None));
    assert_eq!(todos.get_todo("id-1"), Some(created));
    assert_eq!(todos.database().todos().len(), 1);
    assert_eq!(todos.database().clock(), T);
}

#[test]
fn update_with_system_clock() {
    let mut todos = service();
    todos.create_todo_at("id-1".to_string(), T, request("t1")).unwrap();
    let mut change = no_change();
    change.status = Some(TodoStatus::Researching);
    let updated = todos.update_todo("id-1", change).unwrap().unwrap();
    assert_eq!(updated.status, TodoStatus::Researching);
    assert!(updated.updated_at >= updated.created_at);
    assert!(updated.updated_at > T);
}

#[test]
fn clock_never_runs_backwards() {
    let mut todos = service();
    let first = todos.create_todo_at("id-1".to_string(), T, request("one")).unwrap();
    let second = todos.create_todo_at("id-2".to_string(), T - 500, request("two")).unwrap();
    assert_eq!(first.created_at, T);
    assert_eq!(second.created_at, T);
    assert_eq!(second.updated_at, T);
    let mut change = no_change();
    change.title = Some("one again".to_string());
    let updated = todos.update_todo_at("id-1", T - 1_000, change).unwrap().unwrap();
    assert_eq!(updated.updated_at, T);
    assert!(updated.updated_at >= updated.created_at);
    assert_eq!(todos.database().clock(), T);
}

#[test]
fn store_stays_well_formed_through_todo_operations() {
    let mut todos = service();
    assert!(todos.database().is_well_formed());
    todos.create_todo_at("id-1".to_string(), T, request("one")).unwrap();
    todos.create_todo_at("id-2".to_string(), T - 7, request("two")).unwrap();
    assert!(todos.database().is_well_formed());
    let _ = todos.create_todo_at("id-2".to_string(), T + 7, request("again"));
    let _ = todos.create_todo_at("id-3".to_string(), T + 7, request(""));
    assert!(todos.database().is_well_formed());
    let mut change = no_change();
    change.priority = Some(TodoPriority::High);
    todos.update_todo_at("id-2", i64::MIN, change).unwrap();
    assert!(todos.database().is_well_formed());
    let mut change = no_change();
    change.status = Some(TodoStatus::Archived);
    todos.update_todo_at("id-1", i64::MAX, change).unwrap();
    assert!(todos.database().is_well_formed());
    assert_eq!(todos.database().clock(), i64::MAX);
    todos.create_todo_at("id-4".to_string(), 0, request("late")).unwrap();
    assert_eq!(todos.get_todo("id-4").unwrap().created_at, i64::MAX);
    assert!(todos.delete_todo("id-1"));
    assert!(todos.database().is_well_formed());
    for todo in todos.database().todos() {
        assert!(todo.updated_at >= todo.created_at);
    }
}

#[test]
fn delete_tells_whether_a_row_was_removed() {
    let mut todos = service();
    todos.create_todo_at("id-1".to_string(), T, request("one")).unwrap();
    todos.create_todo_at("id-2".to_string(), T + 1, request("two")).unwrap();
    assert!(!todos.delete_todo("id-3"));
    assert_eq!(todos.database().todos().len(), 2);
    assert!(todos.delete_todo("id-1"));
    assert_eq!(todos.get_todo("id-1"), None);
    assert_eq!(todos.get_todo("id-2").unwrap().title, "two");
    assert!(!todos.delete_todo("id-1"));
    assert_eq!(todos.database().todos().len(), 1);
}

#[test]
fn delete_is_possible_in_every_status() {
    let mut todos = service();
    todos.create_todo_at("id-1".to_string(), T, request("one")).unwrap();
    let mut change = no_change();
    change.status = Some(TodoStatus::Archived);
    todos.update_todo_at("id-1", T + 1, change).unwrap();
    assert!(todos.delete_todo("id-1"));
    assert_eq!(todos.list_todos(everything()).len(), 0);
}

#[test]
fn status_counts_report_zero_for_absent_statuses() {
    let mut todos = service();
    todos.create_todo_at("a".to_string(), T, request("one")).unwrap();
    todos.create_todo_at("b".to_string(), T + 1, request("two")).unwrap();
    todos.create_todo_at("c".to_string(), T + 2, request("three")).unwrap();
    let mut change = no_change();
    change.status = Some(TodoStatus::Done);
    todos.update_todo_at("c", T + 3, change).unwrap();
    assert_eq!(
        todos.status_counts(),
        StatusCounts { pending: 2, researching: 0, review: 0, done: 1, archived: 0, total: 3 }
    );
}

#[test]
fn status_counts_of_empty_store() {
    let todos = service();
    assert_eq!(
        todos.status_counts(),
        StatusCounts { pending: 0, researching: 0, review: 0, done: 0, archived: 0, total: 0 }
    );
}

#[test]
fn status_counts_cover_every_status() {
    let mut todos = service();
    let statuses = [
        TodoStatus::Pending,
        TodoStatus::Researching,
        TodoStatus::Researching,
        TodoStatus::Review,
        TodoStatus::Review,
        TodoStatus::Review,
        TodoStatus::Done,
        TodoStatus::Archived,
        TodoStatus::Archived,
    ];
    for (i, status) in statuses.iter().enumerate() {
        let id = format!("id-{}", i);
        todos.create_todo_at(id.clone(), T + i as i64, request("x")).unwrap();
        let mut change = no_change();
        change.status = Some(*status);
        todos.update_todo_at(&id, T + 100, change).unwrap();
    }
    let counts = todos.status_counts();
    assert_eq!(
        counts,
        StatusCounts { pending: 1, researching: 2, review: 3, done: 1, archived: 2, total: 9 }
    );
    assert_eq!(
        counts.pending + counts.researching + counts.review + counts.done + counts.archived,
        counts.total
    );
}

#[test]
fn service_hands_the_store_back() {
    let mut todos = service();
    todos.create_todo_at("id-1".to_string(), T, request("one")).unwrap();
    let db = todos.into_database();
    assert_eq!(db.todos().len(), 1);
    assert_eq!(db.results().len(), 0);
    assert_eq!(db.progress().len(), 0);
    assert_eq!(db.clock(), T);
    let todos = TodoService::new(db);
    assert_eq!(todos.get_todo("id-1").unwrap().title, "one");
}
