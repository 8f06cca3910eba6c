use aitodo::db::todo_service::{selects_row, sort_key_of, TodoService};
use aitodo::db::Database;
use aitodo::models::todo::{
    CreateTodoRequest, Todo, TodoFilter, TodoPriority, TodoStatus, UpdateTodoRequest,
};

const T: i64 = 1_700_000_000_000;

fn everything() -> TodoFilter {
    TodoFilter { status: None, search: None, priority: None, limit: None, offset: None }
}

fn add(todos: &mut TodoService, id: &str, at: i64, title: &str, priority: TodoPriority) {
    todos
        .create_todo_at(
            id.to_string(),
            at,
            CreateTodoRequest {
                title: title.to_string(),
                description: None,
                url: None,
                priority: Some(priority),
                preferred_service: None,
            },
        )
        .unwrap();
}

fn set_status(todos: &mut TodoService, id: &str, at: i64, status: TodoStatus) {
    todos
        .update_todo_at(
            id,
            at,
            UpdateTodoRequest {
                title: None,
                description: None,
                url: None,
                status: Some(status),
                priority: None,
                preferred_service: None,
            },
        )
        .unwrap();
}

fn ids(todos: &[Todo]) -> Vec<String> {
    todos.iter().map(|todo| todo.id.clone()).collect()
}

fn sample() -> TodoService {
    let mut todos = TodoService::new(Database::new());
    add(&mut todos, "m-old", T, "medium old", TodoPriority::Medium);
    add(&mut todos, "low", T + 1, "low", TodoPriority::Low);
    add(&mut todos, "high-old", T + 2, "high old", TodoPriority::High);
    add(&mut todos, "m-new", T + 3, "medium new", TodoPriority::Medium);
    add(&mut todos, "high-new", T + 4, "high new", TodoPriority::High);
    todos
}

#[test]
fn list_orders_by_priority_then_newest() {
    let todos = sample();
    assert_eq!(
        ids(&todos.list_todos(everything())),
        vec!["high-new", "high-old", "m-new", "m-old", "low"]
    );
}

#[test]
fn list_breaks_ties_by_id() {
    let mut todos = TodoService::new(Database::new());
    add(&mut todos, "b", T, "x", TodoPriority::Medium);
    add(&mut todos, "ab", T, "x", TodoPriority::Medium);
    add(&mut todos, "a", T, "x", TodoPriority::Medium);
    add(&mut todos, "c", T, "x", TodoPriority::Medium);
    add(&mut todos, "B", T, "x", TodoPriority::Medium);
    assert_eq!(ids(&todos.list_todos(everything())), vec!["B", "a", "ab", "b", "c"]);
}

#[test]
fn list_of_empty_store_is_empty() {
    let todos = TodoService::new(Database::new());
    assert_eq!(todos.list_todos(everything()).len(), 0);
}

#[test]
fn list_without_status_filter_excludes_archived() {
    let mut todos = sample();
    set_status(&mut todos, "m-new", T + 10, TodoStatus::Archived);
    set_status(&mut todos, "low", T + 11, TodoStatus::Done);
    let listed = todos.list_todos(everything());
    assert_eq!(ids(&listed), vec!["high-new", "high-old", "m-old", "low"]);
    assert!(listed.iter().all(|todo| todo.status != TodoStatus::Archived));
}

#[test]
fn list_with_archived_filter_returns_only_archived() {
    let mut todos = sample();
    set_status(&mut todos, "m-new", T + 10, TodoStatus::Archived);
    set_status(&mut todos, "high-old", T + 11, TodoStatus::Archived);
    let mut filter = everything();
    filter.status = Some(TodoStatus::Archived);
    let listed = todos.list_todos(filter);
    assert_eq!(ids(&listed), vec!["high-old", "m-new"]);
    assert!(listed.iter().all(|todo| todo.status == TodoStatus::Archived));
}

#[test]
fn list_filters_by_status() {
    let mut todos = sample();
    set_status(&mut todos, "low", T + 10, TodoStatus::Researching);
    let mut filter = everything();
    filter.status = Some(TodoStatus::Researching);
    assert_eq!(ids(&todos.list_todos(filter)), vec!["low"]);
    let mut filter = everything();
    filter.status = Some(TodoStatus::Review);
    assert_eq!(todos.list_todos(filter).len(), 0);
    let mut filter = everything();
    filter.status = Some(TodoStatus::Pending);
    assert_eq!(
        ids(&todos.list_todos(filter)),
        vec!["high-new", "high-old", "m-new", "m-old"]
    );
}

#[test]
fn list_filters_by_priority() {
    let todos = sample();
    let mut filter = everything();
    filter.priority = Some(TodoPriority::Medium);
    assert_eq!(ids(&todos.list_todos(filter)), vec!["m-new", "m-old"]);
    let mut filter = everything();
    filter.priority = Some(TodoPriority::Low);
    assert_eq!(ids(&todos.list_todos(filter)), vec!["low"]);
}

#[test]
fn list_searches_title_description_and_url() {
    let mut todos = TodoService::new(Database::new());
    todos
        .create_todo_at(
            "in-title".to_string(),
            T,
            CreateTodoRequest {
                title: "Buy milk today".to_string(),
                description: None,
                url: None,
                priority: None,
                preferred_service: None,
            },
        )
        .unwrap();
    todos
        .create_todo_at(
            "in-description".to_string(),
            T + 1,
            CreateTodoRequest {
                title: "Shopping".to_string(),
                description: Some("oat milk".to_string()),
                url: None,
                priority: None,
                preferred_service: None,
            },
        )
        .unwrap();
    todos
        .create_todo_at(
            "in-url".to_string(),
            T + 2,
            CreateTodoRequest {
                title: "Link".to_string(),
                description: Some("nothing".to_string()),
                url: Some("https://milk.example".to_string()),
                priority: None,
                preferred_service: None,
            },
        )
        .unwrap();
    todos
        .create_todo_at(
            "nowhere".to_string(),
            T + 3,
            CreateTodoRequest {
                title: "Bread".to_string(),
                description: None,
                url: None,
                priority: None,
                preferred_service: None,
            },
        )
        .unwrap();
    let mut filter = everything();
    filter.search = Some("milk".to_string());
    assert_eq!(ids(&todos.list_todos(filter)), vec!["in-url", "in-description", "in-title"]);
    let mut filter = everything();
    filter.search = Some("Milk".to_string());
    assert_eq!(todos.list_todos(filter).len(), 0);
    let mut filter = everything();
    filter.search = Some(String::new());
    assert_eq!(todos.list_todos(filter).len(), 4);
    let mut filter = everything();
    filter.search = Some("milk today!".to_string());
    assert_eq!(todos.list_todos(filter).len(), 0);
    let mut filter = everything();
    filter.search = Some("%".to_string());
    assert_eq!(todos.list_todos(filter).len(), 0);
}

#[test]
fn list_combines_filters() {
    let mut todos = sample();
    set_status(&mut todos, "high-old", T + 10, TodoStatus::Done);
    let filter = TodoFilter {
        status: Some(TodoStatus::Pending),
        search: Some("new".to_string()),
        priority: Some(TodoPriority::High),
        limit: None,
        offset: None,
    };
    assert_eq!(ids(&todos.list_todos(filter)), vec!["high-new"]);
}

#[test]
fn list_limit_caps_and_offset_skips() {
    let todos = sample();
    let mut filter = everything();
    filter.limit = Some(2);
    assert_eq!(ids(&todos.list_todos(filter)), vec!["high-new", "high-old"]);
    let mut filter = everything();
    filter.offset = Some(3);
    assert_eq!(ids(&todos.list_todos(filter)), vec!["m-old", "low"]);
    let mut filter = everything();
    filter.limit = Some(2);
    filter.offset = Some(1);
    assert_eq!(ids(&todos.list_todos(filter)), vec!["high-old", "m-new"]);
    let mut filter = everything();
    filter.limit = Some(10);
    filter.offset = Some(4);
    assert_eq!(ids(&todos.list_todos(filter)), vec!["low"]);
}

#[test]
fn list_page_at_the_edges() {
    let todos = sample();
    let mut filter = everything();
    filter.limit = Some(0);
    assert_eq!(todos.list_todos(filter).len(), 0);
    let mut filter = everything();
    filter.offset = Some(5);
    assert_eq!(todos.list_todos(filter).len(), 0);
    let mut filter = everything();
    filter.offset = Some(u32::MAX);
    filter.limit = Some(u32::MAX);
    assert_eq!(todos.list_todos(filter).len(), 0);
    let mut filter = everything();
    filter.offset = Some(0);
    filter.limit = Some(u32::MAX);
    assert_eq!(todos.list_todos(filter).len(), 5);
}

#[test]
fn list_does_not_change_the_store() {
    let todos = sample();
    let first = todos.list_todos(everything());
    let second = todos.list_todos(everything());
    assert_eq!(first, second);
    assert_eq!(ids(todos.database().todos()), vec!["m-old", "low", "high-old", "m-new", "high-new"]);
}

#[test]
fn selects_row_reads_the_filter() {
    let todos = sample();
    let row = todos.get_todo("low").unwrap();
    assert!(selects_row(&everything(), &row));
    let mut filter = everything();
    filter.priority = Some(TodoPriority::High);
    assert!(!selects_row(&filter, &row));
    let mut filter = everything();
    filter.search = Some("lo".to_string());
    assert!(selects_row(&filter, &row));
    let mut filter = everything();
    filter.status = Some(TodoStatus::Archived);
    assert!(!selects_row(&filter, &row));
}

#[test]
fn sort_key_holds_priority_time_and_id() {
    let todos = sample();
    let key = sort_key_of(&todos.get_todo("high-old").unwrap());
    assert_eq!(key.major, 2);
    assert_eq!(key.minor, T + 2);
    assert_eq!(key.name, "high-old".chars().collect::<Vec<char>>());
    let key = sort_key_of(&todos.get_todo("low").unwrap());
    assert_eq!(key.major, 0);
    let key = sort_key_of(&todos.get_todo("m-old").unwrap());
    assert_eq!(key.major, 1);
}
