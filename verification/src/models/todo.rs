//! Todos: the entity, its status and priority, and the requests that create,
//! change and list todos.

use vstd::prelude::*;
use crate::text::{same_text, text_view};

verus! {

/// Where a todo stands in its life.
#[derive(Debug, Clone, Copy, PartialEq, Eq, Structural)]
pub enum TodoStatus {
    Pending,
    Researching,
    Review,
    Done,
    Archived,
}

/// The stored name of a status.
pub open spec fn status_text(status: TodoStatus) -> Seq<char> {
    match status {
        TodoStatus::Pending => "pending"@,
        TodoStatus::Researching => "researching"@,
        TodoStatus::Review => "review"@,
        TodoStatus::Done => "done"@,
        TodoStatus::Archived => "archived"@,
    }
}

/// The status that a name stands for, if it is the name of a status.
pub open spec fn status_parsed(name: Seq<char>) -> Option<TodoStatus> {
    if name == "pending"@ {
        Some(TodoStatus::Pending)
    } else if name == "researching"@ {
        Some(TodoStatus::Researching)
    } else if name == "review"@ {
        Some(TodoStatus::Review)
    } else if name == "done"@ {
        Some(TodoStatus::Done)
    } else if name == "archived"@ {
        Some(TodoStatus::Archived)
    } else {
        None
    }
}

/// The status that a stored name stands for. A name that is not known reads
/// as `Pending`, so that rows written by a later version can still be read.
pub open spec fn status_from_text(name: Seq<char>) -> TodoStatus {
    match status_parsed(name) {
        Some(status) => status,
        None => TodoStatus::Pending,
    }
}

/// The expected next steps of a todo: research starts on a pending todo; a
/// todo under research goes to review when a result is saved, or back to
/// pending when the research is cancelled; a reviewed todo is accepted as
/// done; done and reviewed todos can be archived.
pub open spec fn step_allowed(from: TodoStatus, to: TodoStatus) -> bool {
    match (from, to) {
        (TodoStatus::Pending, TodoStatus::Researching) => true,
        (TodoStatus::Researching, TodoStatus::Review) => true,
        (TodoStatus::Researching, TodoStatus::Pending) => true,
        (TodoStatus::Review, TodoStatus::Done) => true,
        (TodoStatus::Done, TodoStatus::Archived) => true,
        (TodoStatus::Review, TodoStatus::Archived) => true,
        _ => false,
    }
}

/// Each status of `path` leads to the next by an expected step.
pub open spec fn is_path(path: Seq<TodoStatus>) -> bool {
    forall|i: int| 0 <= i < path.len() - 1 ==> step_allowed(#[trigger] path[i], path[i + 1])
}

impl TodoStatus {
    /// The stored name of this status.
    pub fn as_str(&self) -> (name: &'static str)
        ensures
            name@ == status_text(*self),
    {
        match self {
            TodoStatus::Pending => "pending",
            TodoStatus::Researching => "researching",
            TodoStatus::Review => "review",
            TodoStatus::Done => "done",
            TodoStatus::Archived => "archived",
        }
    }

    /// Reads the name of a status as a caller gives it: a name that is not
    /// the name of a status is not read at all.
    pub fn parse(s: &str) -> (status: Option<Self>)
        ensures
            status == status_parsed(s@),
    {
        if same_text(s, "pending") {
            Some(TodoStatus::Pending)
        } else if same_text(s, "researching") {
            Some(TodoStatus::Researching)
        } else if same_text(s, "review") {
            Some(TodoStatus::Review)
        } else if same_text(s, "done") {
            Some(TodoStatus::Done)
        } else if same_text(s, "archived") {
            Some(TodoStatus::Archived)
        } else {
            None
        }
    }

    /// Reads a stored name; an unknown name reads as `Pending`.
    pub fn from_str(s: &str) -> (status: Self)
        ensures
            status == status_from_text(s@),
    {
        match TodoStatus::parse(s) {
            Some(status) => status,
            None => TodoStatus::Pending,
        }
    }

    /// Whether moving from this status to `next` is an expected step. The
    /// store takes any assignment; this is for callers that want to hold to
    /// the expected order.
    pub fn can_become(&self, next: TodoStatus) -> (ok: bool)
        ensures
            ok == step_allowed(*self, next),
    {
        match (*self, next) {
            (TodoStatus::Pending, TodoStatus::Researching) => true,
            (TodoStatus::Researching, TodoStatus::Review) => true,
            (TodoStatus::Researching, TodoStatus::Pending) => true,
            (TodoStatus::Review, TodoStatus::Done) => true,
            (TodoStatus::Done, TodoStatus::Archived) => true,
            (TodoStatus::Review, TodoStatus::Archived) => true,
            _ => false,
        }
    }
}

/// Writing a status and reading it back gives the same status.
pub proof fn lemma_status_round_trip(status: TodoStatus)
    ensures
        status_parsed(status_text(status)) == Some(status),
        status_from_text(status_text(status)) == status,
{
    reveal_strlit("pending");
    reveal_strlit("researching");
    reveal_strlit("review");
    reveal_strlit("done");
    reveal_strlit("archived");
    assert("pending"@.len() == 7);
    assert("researching"@.len() == 11);
    assert("review"@.len() == 6);
    assert("done"@.len() == 4);
    assert("archived"@.len() == 8);
}

/// Every status can be reached from `Pending` by expected steps.
pub proof fn lemma_reachable_from_pending(status: TodoStatus)
    ensures
        exists|path: Seq<TodoStatus>|
            path.len() > 0 && path[0] == TodoStatus::Pending && path.last() == status && is_path(
                path,
            ),
{
    let path = match status {
        TodoStatus::Pending => seq![TodoStatus::Pending],
        TodoStatus::Researching => seq![TodoStatus::Pending, TodoStatus::Researching],
        TodoStatus::Review => seq![
            TodoStatus::Pending,
            TodoStatus::Researching,
            TodoStatus::Review,
        ],
        TodoStatus::Done => seq![
            TodoStatus::Pending,
            TodoStatus::Researching,
            TodoStatus::Review,
            TodoStatus::Done,
        ],
        TodoStatus::Archived => seq![
            TodoStatus::Pending,
            TodoStatus::Researching,
            TodoStatus::Review,
            TodoStatus::Archived,
        ],
    };
    assert(path.len() > 0 && path[0] == TodoStatus::Pending && path.last() == status && is_path(
        path,
    ));
}

/// How urgent a todo is.
#[derive(Debug, Clone, Copy, PartialEq, Eq, Structural)]
pub enum TodoPriority {
    Low,
    Medium,
    High,
}

/// The stored number of a priority; a higher number is more urgent.
pub open spec fn priority_rank(priority: TodoPriority) -> int {
    match priority {
        TodoPriority::Low => 0,
        TodoPriority::Medium => 1,
        TodoPriority::High => 2,
    }
}

/// The priority that a stored number stands for; an unknown number reads as
/// `Medium`.
pub open spec fn priority_from_rank(rank: int) -> TodoPriority {
    if rank == 0 {
        TodoPriority::Low
    } else if rank == 2 {
        TodoPriority::High
    } else {
        TodoPriority::Medium
    }
}

/// Writing a priority and reading it back gives the same priority.
pub proof fn lemma_priority_round_trip(priority: TodoPriority)
    ensures
        priority_from_rank(priority_rank(priority)) == priority,
{
}

/// A todo.
#[derive(Debug, PartialEq, Eq)]
pub struct Todo {
    pub id: String,
    pub title: String,
    pub description: Option<String>,
    pub url: Option<String>,
    pub status: TodoStatus,
    pub priority: TodoPriority,
    pub preferred_service: Option<String>,
    /// Milliseconds since the Unix epoch, UTC.
    pub created_at: i64,
    /// Milliseconds since the Unix epoch, UTC.
    pub updated_at: i64,
    /// Milliseconds since the Unix epoch, UTC.
    pub completed_at: Option<i64>,
}

/// The mathematical value of a [`Todo`].
pub struct TodoView {
    pub id: Seq<char>,
    pub title: Seq<char>,
    pub description: Option<Seq<char>>,
    pub url: Option<Seq<char>>,
    pub status: TodoStatus,
    pub priority: TodoPriority,
    pub preferred_service: Option<Seq<char>>,
    pub created_at: i64,
    pub updated_at: i64,
    pub completed_at: Option<i64>,
}

impl View for Todo {
    type V = TodoView;

    open spec fn view(&self) -> TodoView {
        TodoView {
            id: self.id@,
            title: self.title@,
            description: text_view(self.description),
            url: text_view(self.url),
            status: self.status,
            priority: self.priority,
            preferred_service: text_view(self.preferred_service),
            created_at: self.created_at,
            updated_at: self.updated_at,
            completed_at: self.completed_at,
        }
    }
}

impl Clone for Todo {
    fn clone(&self) -> (copy: Self)
        ensures
            copy == *self,
    {
        Todo {
            id: self.id.clone(),
            title: self.title.clone(),
            description: self.description.clone(),
            url: self.url.clone(),
            status: self.status,
            priority: self.priority,
            preferred_service: self.preferred_service.clone(),
            created_at: self.created_at,
            updated_at: self.updated_at,
            completed_at: self.completed_at,
        }
    }
}

/// What a caller gives to create a todo.
#[derive(Debug)]
pub struct CreateTodoRequest {
    pub title: String,
    pub description: Option<String>,
    pub url: Option<String>,
    pub priority: Option<TodoPriority>,
    pub preferred_service: Option<String>,
}

/// A partial update: a field that is `None` leaves the stored value as it is.
#[derive(Debug)]
pub struct UpdateTodoRequest {
    pub title: Option<String>,
    pub description: Option<String>,
    pub url: Option<String>,
    pub status: Option<TodoStatus>,
    pub priority: Option<TodoPriority>,
    pub preferred_service: Option<String>,
}

/// Which todos a listing selects, and which part of the selection it returns.
#[derive(Debug)]
pub struct TodoFilter {
    /// The status to list; without one, every status but `Archived`.
    pub status: Option<TodoStatus>,
    /// A text that has to occur, character for character and in the same
    /// case, in the title, the description or the url.
    pub search: Option<String>,
    pub priority: Option<TodoPriority>,
    pub limit: Option<u32>,
    pub offset: Option<u32>,
}

} // verus!
