use aitodo::db::research_service::ResearchService;
use aitodo::db::todo_service::TodoService;
use aitodo::db::Database;
use aitodo::models::research_result::{ResearchResult, ResearchStatus};
use aitodo::models::todo::{CreateTodoRequest, Todo, TodoFilter, TodoPriority, TodoStatus};
use aitodo::ranking::{rank, SortKey};
use aitodo::text::{precedes, text_contains};
use aitodo::todo::StatusCounts;

struct Dice(u64);

impl Dice {
    fn roll(&mut self, sides: u64) -> u64 {
        self.0 = self.0.wrapping_mul(6364136223846793005).wrapping_add(1442695040888963407);
        (self.0 >> 33) % sides
    }

    fn word(&mut self, alphabet: &[char], longest: u64) -> String {
        let length = self.roll(longest + 1);
        (0..length).map(|_| alphabet[self.roll(alphabet.len() as u64) as usize]).collect()
    }
}

fn rank_of(priority: TodoPriority) -> i64 {
    match priority {
        TodoPriority::Low => 0,
        TodoPriority::Medium => 1,
        TodoPriority::High => 2,
    }
}

fn store_of(dice: &mut Dice, count: usize) -> TodoService {
    let priorities = [TodoPriority::Low, TodoPriority::Medium, TodoPriority::High];
    let mut todos = TodoService::new(Database::new());
    let mut at: i64 = 1_000;
    for i in 0..count {
        at += dice.roll(3) as i64;
        let id = format!("{}-{}", dice.word(&['a', 'b', 'B', 'é'], 3), i);
        todos
            .create_todo_at(
                id,
                at,
                CreateTodoRequest {
                    title: format!("t{}", dice.word(&['x', 'y', ' '], 6)),
                    description: if dice.roll(2) == 0 {
                        None
                    } else {
                        Some(dice.word(&['x', 'y', 'z'], 5))
                    },
                    url: None,
                    priority: Some(priorities[dice.roll(3) as usize]),
                    preferred_service: None,
                },
            )
            .unwrap();
    }
    todos
}

fn by_listing_order(a: &Todo, b: &Todo) -> std::cmp::Ordering {
    rank_of(b.priority)
        .cmp(&rank_of(a.priority))
        .then(b.created_at.cmp(&a.created_at))
        .then(a.id.chars().cmp(b.id.chars()))
}

#[test]
fn listing_agrees_with_a_plain_sort() {
    let mut dice = Dice(7);
    for round in 0..40 {
        let todos = store_of(&mut dice, 1 + round);
        let mut expected: Vec<Todo> = todos.database().todos().clone();
        expected.sort_by(by_listing_order);
        let listed = todos.list_todos(TodoFilter {
            status: None,
            search: None,
            priority: None,
            limit: None,
            offset: None,
        });
        assert_eq!(listed, expected);
    }
}

#[test]
fn filtered_pages_agree_with_a_plain_sort() {
    let mut dice = Dice(11);
    for round in 0..40 {
        let todos = store_of(&mut dice, 30);
        let needle = dice.word(&['x', 'y'], 2);
        let priority = [TodoPriority::Low, TodoPriority::Medium, TodoPriority::High]
            [dice.roll(3) as usize];
        let by_priority = round % 2 == 0;
        let offset = dice.roll(8) as u32;
        let limit = dice.roll(8) as u32;
        let mut expected: Vec<Todo> = todos
            .database()
            .todos()
            .iter()
            .filter(|todo| !by_priority || todo.priority == priority)
            .filter(|todo| {
                todo.title.contains(&needle)
                    || todo.description.as_ref().map_or(false, |text| text.contains(&needle))
            })
            .cloned()
            .collect();
        expected.sort_by(by_listing_order);
        let expected: Vec<Todo> =
            expected.into_iter().skip(offset as usize).take(limit as usize).collect();
        let listed = todos.list_todos(TodoFilter {
            status: Some(TodoStatus::Pending),
            search: Some(needle),
            priority: if by_priority { Some(priority) } else { None },
            limit: Some(limit),
            offset: Some(offset),
        });
        assert_eq!(listed, expected);
    }
}

#[test]
fn counts_agree_with_the_listing() {
    let mut dice = Dice(13);
    let todos = store_of(&mut dice, 50);
    let counts = todos.status_counts();
    assert_eq!(
        counts,
        StatusCounts { pending: 50, researching: 0, review: 0, done: 0, archived: 0, total: 50 }
    );
}

#[test]
fn results_agree_with_a_plain_sort() {
    let mut dice = Dice(17);
    let mut todos = TodoService::new(Database::new());
    for id in ["a", "b"] {
        todos
            .create_todo_at(
                id.to_string(),
                0,
                CreateTodoRequest {
                    title: "t".to_string(),
                    description: None,
                    url: None,
                    priority: None,
                    preferred_service: None,
                },
            )
            .unwrap();
    }
    let mut research = ResearchService::new(todos.into_database());
    let mut at: i64 = 0;
    for i in 0..60 {
        at += dice.roll(2) as i64;
        let todo_id = if dice.roll(3) == 0 { "b" } else { "a" };
        research
            .complete_research_at(
                at,
                todo_id,
                ResearchResult {
                    id: format!("{}{}", dice.word(&['r', 's'], 2), i),
                    todo_id: todo_id.to_string(),
                    service: "web".to_string(),
                    prompt: None,
                    content: "c".to_string(),
                    raw_html: None,
                    metadata: None,
                    started_at: 0,
                    completed_at: 0,
                    duration_seconds: 0,
                    status: ResearchStatus::Failed,
                    created_at: 0,
                },
            )
            .unwrap();
    }
    for todo_id in ["a", "b", "c"] {
        let mut expected: Vec<ResearchResult> = research
            .database()
            .results()
            .iter()
            .filter(|row| row.todo_id == todo_id)
            .cloned()
            .collect();
        expected.sort_by(|a, b| {
            b.completed_at.cmp(&a.completed_at).then(a.id.chars().cmp(b.id.chars()))
        });
        assert_eq!(research.get_research_results(todo_id), expected);
        assert_eq!(research.get_latest_result(todo_id), expected.first().cloned());
    }
    assert!(research.database().is_well_formed());
}

#[test]
fn rank_agrees_with_a_plain_sort() {
    let mut dice = Dice(19);
    for round in 0..50 {
        let keys: Vec<SortKey> = (0..round)
            .map(|i| SortKey {
                major: dice.roll(3) as i64 - 1,
                minor: dice.roll(4) as i64 - 2,
                name: format!("{}{}", dice.word(&['a', 'b'], 2), i).chars().collect(),
            })
            .collect();
        let mut expected: Vec<usize> = (0..keys.len()).collect();
        expected.sort_by(|&x, &y| {
            keys[y]
                .major
                .cmp(&keys[x].major)
                .then(keys[y].minor.cmp(&keys[x].minor))
                .then(keys[x].name.cmp(&keys[y].name))
        });
        assert_eq!(rank(&keys), expected);
    }
}

#[test]
fn text_functions_agree_with_the_standard_ones() {
    let mut dice = Dice(23);
    let alphabet = ['a', 'b', 'é', '€'];
    for _ in 0..2_000 {
        let hay = dice.word(&alphabet, 8);
        let needle = dice.word(&alphabet, 3);
        assert_eq!(text_contains(&hay, &needle), hay.contains(&needle));
        let left: Vec<char> = hay.chars().collect();
        let right: Vec<char> = needle.chars().collect();
        assert_eq!(precedes(&left, &right), left < right);
        assert_eq!(precedes(&left, &right), hay < needle);
        assert!(!precedes(&left, &left));
    }
}
