use aitodo::db::research_service::ResearchService;
use aitodo::db::todo_service::TodoService;
use aitodo::db::{Database, StorageError};
use aitodo::models::research_result::{
    ResearchProgress, ResearchResult, ResearchStage, ResearchStatus,
};
use aitodo::models::todo::{CreateTodoRequest, Todo, TodoPriority, TodoStatus};

fn todo(id: &str, created_at: i64, updated_at: i64) -> Todo {
    Todo {
        id: id.to_string(),
        title: format!("todo {}", id),
        description: None,
        url: None,
        status: TodoStatus::Review,
        priority: TodoPriority::High,
        preferred_service: None,
        created_at,
        updated_at,
        completed_at: Some(updated_at),
    }
}

fn result(id: &str, todo_id: &str) -> ResearchResult {
    ResearchResult {
        id: id.to_string(),
        todo_id: todo_id.to_string(),
        service: "web".to_string(),
        prompt: None,
        content: "c".to_string(),
        raw_html: None,
        metadata: None,
        started_at: 1,
        completed_at: 2,
        duration_seconds: 0,
        status: ResearchStatus::Completed,
        created_at: 1,
    }
}

fn progress(todo_id: &str, service: &str) -> ResearchProgress {
    ResearchProgress {
        todo_id: todo_id.to_string(),
        service: service.to_string(),
        stage: ResearchStage::Analyzing,
        progress_percentage: 40,
        current_step: None,
        estimated_remaining: Some(10),
        updated_at: 3,
    }
}

fn error_of(outcome: Result<Database, StorageError>) -> StorageError {
    match outcome {
        Ok(_) => panic!("the rows were taken"),
        Err(error) => error,
    }
}

#[test]
fn new_store_is_empty() {
    let db = Database::new();
    assert_eq!(db.todos().len(), 0);
    assert_eq!(db.results().len(), 0);
    assert_eq!(db.progress().len(), 0);
    assert_eq!(db.clock(), i64::MIN);
}

#[test]
fn restore_of_nothing_is_the_empty_store() {
    let db = match Database::restore(Vec::new(), Vec::new(), Vec::new()) {
        Ok(db) => db,
        Err(_) => panic!("refused"),
    };
    assert_eq!(db.todos().len(), 0);
    assert_eq!(db.clock(), i64::MIN);
}

#[test]
fn restore_takes_valid_rows_as_they_are() {
    let todos = vec![todo("a", 10, 30), todo("b", 20, 20), todo("c", 5, 25)];
    let results = vec![result("r1", "a"), result("r2", "a"), result("r3", "c")];
    let rows = vec![progress("a", "web"), progress("a", "deep"), progress("b", "web")];
    let db = match Database::restore(
        vec![todo("a", 10, 30), todo("b", 20, 20), todo("c", 5, 25)],
        vec![result("r1", "a"), result("r2", "a"), result("r3", "c")],
        vec![progress("a", "web"), progress("a", "deep"), progress("b", "web")],
    ) {
        Ok(db) => db,
        Err(_) => panic!("refused"),
    };
    assert_eq!(db.todos(), &todos);
    assert_eq!(db.results(), &results);
    assert_eq!(db.progress(), &rows);
    assert_eq!(db.clock(), 30);
}

#[test]
fn restored_store_goes_on_from_its_latest_change() {
    let db = match Database::restore(vec![todo("a", 10, 30)], Vec::new(), Vec::new()) {
        Ok(db) => db,
        Err(_) => panic!("refused"),
    };
    let mut todos = TodoService::new(db);
    let made = todos
        .create_todo_at(
            "b".to_string(),
            7,
            CreateTodoRequest {
                title: "later".to_string(),
                description: None,
                url: None,
                priority: None,
                preferred_service: None,
            },
        )
        .unwrap();
    assert_eq!(made.created_at, 30);
    let research = ResearchService::new(todos.into_database());
    assert_eq!(research.get_research_results("a").len(), 0);
}

#[test]
fn restore_refuses_a_todo_without_title() {
    let mut bad = todo("a", 1, 2);
    bad.title = String::new();
    assert_eq!(
        error_of(Database::restore(vec![todo("b", 1, 1), bad], Vec::new(), Vec::new())),
        StorageError::CorruptRow
    );
}

#[test]
fn restore_refuses_a_todo_changed_before_it_was_created() {
    assert_eq!(
        error_of(Database::restore(vec![todo("a", 3, 2)], Vec::new(), Vec::new())),
        StorageError::CorruptRow
    );
}

#[test]
fn restore_refuses_a_key_that_occurs_twice() {
    assert_eq!(
        error_of(Database::restore(
            vec![todo("a", 1, 1), todo("b", 1, 1), todo("a", 2, 2)],
            Vec::new(),
            Vec::new()
        )),
        StorageError::DuplicateKey
    );
    assert_eq!(
        error_of(Database::restore(
            vec![todo("a", 1, 1), todo("b", 1, 1)],
            vec![result("r1", "a"), result("r1", "b")],
            Vec::new()
        )),
        StorageError::DuplicateKey
    );
    assert_eq!(
        error_of(Database::restore(
            vec![todo("a", 1, 1), todo("b", 1, 1)],
            Vec::new(),
            vec![progress("a", "web"), progress("b", "web"), progress("a", "web")]
        )),
        StorageError::DuplicateKey
    );
}

#[test]
fn restore_refuses_rows_without_their_todo() {
    assert_eq!(
        error_of(Database::restore(vec![todo("a", 1, 1)], vec![result("r1", "b")], Vec::new())),
        StorageError::MissingTodo
    );
    assert_eq!(
        error_of(Database::restore(
            vec![todo("a", 1, 1)],
            vec![result("r1", "a")],
            vec![progress("a", "web"), progress("", "web")]
        )),
        StorageError::MissingTodo
    );
    assert_eq!(
        error_of(Database::restore(Vec::new(), Vec::new(), vec![progress("a", "web")])),
        StorageError::MissingTodo
    );
}

#[test]
fn restore_reports_the_first_kind_of_fault() {
    let mut bad = todo("a", 1, 1);
    bad.title = String::new();
    assert_eq!(
        error_of(Database::restore(
            vec![todo("a", 1, 1), bad],
            vec![result("r1", "zz"), result("r1", "zz")],
            Vec::new()
        )),
        StorageError::CorruptRow
    );
    assert_eq!(
        error_of(Database::restore(
            vec![todo("a", 1, 1)],
            vec![result("r1", "zz"), result("r1", "zz")],
            Vec::new()
        )),
        StorageError::DuplicateKey
    );
}
