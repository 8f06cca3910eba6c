//! The store: every todo, research result and progress row, the rules that
//! hold of them together, and the errors that the services report.

use vstd::prelude::*;
use crate::models::research_result::{ResearchProgress, ResearchProgressView, ResearchResult,
    ResearchResultView};
use crate::models::todo::{Todo, TodoView};
use crate::rows::distinct_by;

pub mod research_service;
pub mod todo_service;

verus! {

/// A request that breaks a rule of an entity.
#[derive(Debug, Clone, Copy, PartialEq, Eq, Structural)]
pub enum ValidationError {
    /// The title of a todo is empty.
    EmptyTitle,
    /// A status is asked for by a name that no status has.
    UnknownStatus,
}

/// A write that the store cannot take.
#[derive(Debug, Clone, Copy, PartialEq, Eq, Structural)]
pub enum StorageError {
    /// A row with this key is already stored.
    DuplicateKey,
    /// The todo that the row belongs to is not stored.
    MissingTodo,
    /// A row that was handed in to be stored breaks a rule of its entity.
    CorruptRow,
}

/// What a service reports when it cannot do what was asked.
#[derive(Debug, Clone, Copy, PartialEq, Eq, Structural)]
pub enum ServiceError {
    Validation(ValidationError),
    Storage(StorageError),
}

/// The words that describe an error to a user.
pub open spec fn error_text(error: ServiceError) -> Seq<char> {
    match error {
        ServiceError::Validation(ValidationError::EmptyTitle) => "title must not be empty"@,
        ServiceError::Validation(ValidationError::UnknownStatus) => "no such status"@,
        ServiceError::Storage(StorageError::DuplicateKey) => "a row with this key already exists"@,
        ServiceError::Storage(StorageError::MissingTodo) => "the todo does not exist"@,
        ServiceError::Storage(StorageError::CorruptRow) => "a stored row is not valid"@,
    }
}

impl ServiceError {
    /// A message for the user.
    pub fn message(&self) -> (text: &'static str)
        ensures
            text@ == error_text(*self),
    {
        match self {
            ServiceError::Validation(ValidationError::EmptyTitle) => "title must not be empty",
            ServiceError::Validation(ValidationError::UnknownStatus) => "no such status",
            ServiceError::Storage(StorageError::DuplicateKey) => "a row with this key already exists",
            ServiceError::Storage(StorageError::MissingTodo) => "the todo does not exist",
            ServiceError::Storage(StorageError::CorruptRow) => "a stored row is not valid",
        }
    }
}

/// The values of stored todos, in the order in which they were stored.
pub open spec fn todo_views(rows: Seq<Todo>) -> Seq<TodoView> {
    Seq::new(rows.len(), |i: int| rows[i]@)
}

/// The values of stored results, in the order in which they were stored.
pub open spec fn result_views(rows: Seq<ResearchResult>) -> Seq<ResearchResultView> {
    Seq::new(rows.len(), |i: int| rows[i]@)
}

/// The values of stored progress rows, in the order in which they were stored.
pub open spec fn progress_views(rows: Seq<ResearchProgress>) -> Seq<ResearchProgressView> {
    Seq::new(rows.len(), |i: int| rows[i]@)
}

/// What tells todos apart: the id.
pub open spec fn todo_key() -> spec_fn(TodoView) -> Seq<char> {
    |row: TodoView| row.id
}

/// What tells results apart: the id.
pub open spec fn result_key() -> spec_fn(ResearchResultView) -> Seq<char> {
    |row: ResearchResultView| row.id
}

/// What tells progress rows apart: the todo and the service together.
pub open spec fn progress_key() -> spec_fn(ResearchProgressView) -> (Seq<char>, Seq<char>) {
    |row: ResearchProgressView| (row.todo_id, row.service)
}

/// Some todo of `rows` has the id `id`.
pub open spec fn has_todo_id(rows: Seq<TodoView>, id: Seq<char>) -> bool {
    exists|i: int| 0 <= i < rows.len() && (#[trigger] rows[i]).id == id
}

/// The todo of `rows` with the id `id`, where there is one.
pub open spec fn todo_with_id(rows: Seq<TodoView>, id: Seq<char>) -> TodoView {
    rows[choose|i: int| 0 <= i < rows.len() && (#[trigger] rows[i]).id == id]
}

/// Some result of `rows` has the id `id`.
pub open spec fn has_result_id(rows: Seq<ResearchResultView>, id: Seq<char>) -> bool {
    exists|i: int| 0 <= i < rows.len() && (#[trigger] rows[i]).id == id
}

/// Some progress row of `rows` tracks `service` on the todo `todo_id`.
pub open spec fn has_progress_key(
    rows: Seq<ResearchProgressView>,
    todo_id: Seq<char>,
    service: Seq<char>,
) -> bool {
    exists|i: int|
        0 <= i < rows.len() && (#[trigger] rows[i]).todo_id == todo_id && rows[i].service == service
}

/// The progress row of `rows` that tracks `service` on the todo `todo_id`,
/// where there is one.
pub open spec fn progress_with_key(
    rows: Seq<ResearchProgressView>,
    todo_id: Seq<char>,
    service: Seq<char>,
) -> ResearchProgressView {
    rows[choose|i: int|
        0 <= i < rows.len() && (#[trigger] rows[i]).todo_id == todo_id && rows[i].service
            == service]
}

/// The rules of a single todo in a store whose clock stands at `clock`: the
/// title is not empty, and the todo was created no later than it was last
/// changed, which was no later than the clock.
pub open spec fn todo_row_ok(row: TodoView, clock: i64) -> bool {
    &&& row.title.len() > 0
    &&& row.created_at <= row.updated_at <= clock
}

/// The whole state of a store.
#[verifier::ext_equal]
pub struct StoreView {
    pub todos: Seq<TodoView>,
    pub results: Seq<ResearchResultView>,
    pub progress: Seq<ResearchProgressView>,
    /// The latest instant that the store has stamped a row with. The store
    /// never stamps a row with an earlier instant than this.
    pub clock: i64,
}

impl StoreView {
    /// The store with no rows.
    pub open spec fn empty() -> StoreView {
        StoreView {
            todos: Seq::empty(),
            results: Seq::empty(),
            progress: Seq::empty(),
            clock: i64::MIN,
        }
    }

    /// A todo with this id is stored.
    pub open spec fn has_todo(self, id: Seq<char>) -> bool {
        has_todo_id(self.todos, id)
    }

    /// The stored todo with this id, where there is one.
    pub open spec fn todo(self, id: Seq<char>) -> TodoView {
        todo_with_id(self.todos, id)
    }

    /// What reading the todo `id` gives: the todo, or nothing where no todo
    /// has this id.
    pub open spec fn lookup(self, id: Seq<char>) -> Option<TodoView> {
        if self.has_todo(id) {
            Some(self.todo(id))
        } else {
            None
        }
    }

    /// What reading the progress of `service` on the todo `todo_id` gives:
    /// the row, or nothing where there is none.
    pub open spec fn lookup_progress(self, todo_id: Seq<char>, service: Seq<char>) -> Option<
        ResearchProgressView,
    > {
        if has_progress_key(self.progress, todo_id, service) {
            Some(progress_with_key(self.progress, todo_id, service))
        } else {
            None
        }
    }

    /// The rules of the store: ids are unique among todos and among results;
    /// there is at most one progress row for a todo and a service; every
    /// todo is valid; every result and every progress row belongs to a
    /// stored todo.
    pub open spec fn wf(self) -> bool {
        &&& distinct_by(self.todos, todo_key())
        &&& forall|i: int|
            0 <= i < self.todos.len() ==> todo_row_ok(#[trigger] self.todos[i], self.clock)
        &&& distinct_by(self.results, result_key())
        &&& forall|i: int|
            0 <= i < self.results.len() ==> has_todo_id(
                self.todos,
                (#[trigger] self.results[i]).todo_id,
            )
        &&& distinct_by(self.progress, progress_key())
        &&& forall|i: int|
            0 <= i < self.progress.len() ==> has_todo_id(
                self.todos,
                (#[trigger] self.progress[i]).todo_id,
            )
    }
}

/// In a valid store an id names one todo: whatever row has the id is the
/// todo that the id stands for.
pub proof fn lemma_todo_unique(store: StoreView, i: int)
    requires
        store.wf(),
        0 <= i < store.todos.len(),
    ensures
        store.has_todo(store.todos[i].id),
        store.todo(store.todos[i].id) == store.todos[i],
{
    let id = store.todos[i].id;
    let k = choose|k: int| 0 <= k < store.todos.len() && (#[trigger] store.todos[k]).id == id;
    if k < i {
        assert(todo_key()(store.todos[k]) != todo_key()(store.todos[i]));
    } else if i < k {
        assert(todo_key()(store.todos[i]) != todo_key()(store.todos[k]));
    }
}

/// In a valid store a todo and a service name one progress row.
pub proof fn lemma_progress_unique(store: StoreView, i: int)
    requires
        store.wf(),
        0 <= i < store.progress.len(),
    ensures
        has_progress_key(store.progress, store.progress[i].todo_id, store.progress[i].service),
        progress_with_key(store.progress, store.progress[i].todo_id, store.progress[i].service)
            == store.progress[i],
{
    let t = store.progress[i].todo_id;
    let s = store.progress[i].service;
    let k = choose|k: int|
        0 <= k < store.progress.len() && (#[trigger] store.progress[k]).todo_id == t
            && store.progress[k].service == s;
    if k < i {
        assert(progress_key()(store.progress[k]) != progress_key()(store.progress[i]));
    } else if i < k {
        assert(progress_key()(store.progress[i]) != progress_key()(store.progress[k]));
    }
}

/// The store, owned by the service that works on it.
pub struct Database {
    pub(crate) todos: Vec<Todo>,
    pub(crate) results: Vec<ResearchResult>,
    pub(crate) progress: Vec<ResearchProgress>,
    pub(crate) clock: i64,
}

impl View for Database {
    type V = StoreView;

    closed spec fn view(&self) -> StoreView {
        StoreView {
            todos: todo_views(self.todos@),
            results: result_views(self.results@),
            progress: progress_views(self.progress@),
            clock: self.clock,
        }
    }
}

impl Database {
    /// An empty store.
    pub fn new() -> (db: Self)
        ensures
            db@ == StoreView::empty(),
            db@.wf(),
    {
        let db = Database {
            todos: Vec::new(),
            results: Vec::new(),
            progress: Vec::new(),
            clock: i64::MIN,
        };
        assert(db@ =~= StoreView::empty());
        db
    }

    /// The place of the todo with this id among the stored todos.
    pub(crate) fn find_todo(&self, id: &String) -> (place: Option<usize>)
        ensures
            match place {
                Some(i) => i < self@.todos.len() && self@.todos[i as int].id == id@,
                None => !self@.has_todo(id@),
            },
    {
        let mut i: usize = 0;
        while i < self.todos.len()
            invariant
                i <= self.todos@.len(),
                forall|k: int| 0 <= k < i ==> (#[trigger] self@.todos[k]).id != id@,
            decreases self.todos@.len() - i,
        {
            if self.todos[i].id == *id {
                return Some(i);
            }
            i += 1;
        }
        None
    }

    /// The place of the result with this id among the stored results.
    pub(crate) fn find_result(&self, id: &String) -> (place: Option<usize>)
        ensures
            match place {
                Some(i) => i < self@.results.len() && self@.results[i as int].id == id@,
                None => !has_result_id(self@.results, id@),
            },
    {
        let mut i: usize = 0;
        while i < self.results.len()
            invariant
                i <= self.results@.len(),
                forall|k: int| 0 <= k < i ==> (#[trigger] self@.results[k]).id != id@,
            decreases self.results@.len() - i,
        {
            if self.results[i].id == *id {
                return Some(i);
            }
            i += 1;
        }
        None
    }

    /// The place of the progress row of this todo and service among the
    /// stored progress rows.
    pub(crate) fn find_progress(&self, todo_id: &String, service: &String) -> (place: Option<usize>)
        ensures
            match place {
                Some(i) => i < self@.progress.len() && self@.progress[i as int].todo_id == todo_id@
                    && self@.progress[i as int].service == service@,
                None => !has_progress_key(self@.progress, todo_id@, service@),
            },
    {
        let mut i: usize = 0;
        while i < self.progress.len()
            invariant
                i <= self.progress@.len(),
                forall|k: int|
                    0 <= k < i ==> !((#[trigger] self@.progress[k]).todo_id == todo_id@
                        && self@.progress[k].service == service@),
            decreases self.progress@.len() - i,
        {
            if self.progress[i].todo_id == *todo_id && self.progress[i].service == *service {
                return Some(i);
            }
            i += 1;
        }
        None
    }
}

/// Every todo has a title and was created no later than it was last changed.
pub open spec fn rows_valid(todos: Seq<TodoView>) -> bool {
    forall|i: int|
        0 <= i < todos.len() ==> (#[trigger] todos[i]).title.len() > 0 && todos[i].created_at
            <= todos[i].updated_at
}

/// No two rows of a table share a key.
pub open spec fn keys_distinct(
    todos: Seq<TodoView>,
    results: Seq<ResearchResultView>,
    progress: Seq<ResearchProgressView>,
) -> bool {
    &&& distinct_by(todos, todo_key())
    &&& distinct_by(results, result_key())
    &&& distinct_by(progress, progress_key())
}

/// Every result and every progress row belongs to one of the todos.
pub open spec fn parents_present(
    todos: Seq<TodoView>,
    results: Seq<ResearchResultView>,
    progress: Seq<ResearchProgressView>,
) -> bool {
    &&& forall|i: int|
        0 <= i < results.len() ==> has_todo_id(todos, (#[trigger] results[i]).todo_id)
    &&& forall|i: int|
        0 <= i < progress.len() ==> has_todo_id(todos, (#[trigger] progress[i]).todo_id)
}

/// Why given rows cannot make a store, if they cannot: a todo that is not
/// valid comes first, then a key that occurs twice, then a row whose todo
/// is missing.
pub open spec fn restore_error(
    todos: Seq<TodoView>,
    results: Seq<ResearchResultView>,
    progress: Seq<ResearchProgressView>,
) -> Option<StorageError> {
    if !rows_valid(todos) {
        Some(StorageError::CorruptRow)
    } else if !keys_distinct(todos, results, progress) {
        Some(StorageError::DuplicateKey)
    } else if !parents_present(todos, results, progress) {
        Some(StorageError::MissingTodo)
    } else {
        None
    }
}

/// `clock` is the instant of the latest change among the todos, or the
/// earliest instant there is where there are no todos.
pub open spec fn is_latest_change(todos: Seq<TodoView>, clock: i64) -> bool {
    &&& forall|i: int| 0 <= i < todos.len() ==> (#[trigger] todos[i]).updated_at <= clock
    &&& if todos.len() == 0 {
        clock == i64::MIN
    } else {
        exists|i: int| 0 <= i < todos.len() && (#[trigger] todos[i]).updated_at == clock
    }
}

fn todos_valid(todos: &Vec<Todo>) -> (clock: Option<i64>)
    ensures
        clock is Some <==> rows_valid(todo_views(todos@)),
        clock is Some ==> is_latest_change(todo_views(todos@), clock->Some_0),
{
    let ghost rows = todo_views(todos@);
    let mut clock: i64 = i64::MIN;
    let mut i: usize = 0;
    while i < todos.len()
        invariant
            i <= todos@.len(),
            rows == todo_views(todos@),
            forall|k: int|
                0 <= k < i ==> (#[trigger] rows[k]).title.len() > 0 && rows[k].created_at
                    <= rows[k].updated_at,
            forall|k: int| 0 <= k < i ==> (#[trigger] rows[k]).updated_at <= clock,
            if i == 0 {
                clock == i64::MIN
            } else {
                exists|k: int| 0 <= k < i && (#[trigger] rows[k]).updated_at == clock
            },
        decreases todos@.len() - i,
    {
        let row = &todos[i];
        if row.title.as_str().is_empty() || row.created_at > row.updated_at {
            assert(!(rows[i as int].title.len() > 0 && rows[i as int].created_at
                <= rows[i as int].updated_at));
            return None;
        }
        if row.updated_at > clock || i == 0 {
            clock = row.updated_at;
            assert(rows[i as int].updated_at == clock);
        } else {
            let ghost k = choose|k: int| 0 <= k < i && (#[trigger] rows[k]).updated_at == clock;
            assert(rows[k].updated_at == clock);
        }
        i += 1;
    }
    Some(clock)
}

fn todo_ids_distinct(todos: &Vec<Todo>) -> (distinct: bool)
    ensures
        distinct == distinct_by(todo_views(todos@), todo_key()),
{
    let ghost rows = todo_views(todos@);
    let mut j: usize = 0;
    while j < todos.len()
        invariant
            j <= todos@.len(),
            rows == todo_views(todos@),
            forall|a: int, b: int|
                0 <= a < b < j ==> todo_key()(#[trigger] rows[a]) != todo_key()(#[trigger] rows[b]),
        decreases todos@.len() - j,
    {
        let mut i: usize = 0;
        while i < j
            invariant
                i <= j < todos@.len(),
                rows == todo_views(todos@),
                forall|a: int|
                    0 <= a < i ==> todo_key()(#[trigger] rows[a]) != todo_key()(rows[j as int]),
            decreases j - i,
        {
            if todos[i].id == todos[j].id {
                assert(todo_key()(rows[i as int]) == todo_key()(rows[j as int]));
                return false;
            }
            i += 1;
        }
        j += 1;
    }
    true
}

fn result_ids_distinct(results: &Vec<ResearchResult>) -> (distinct: bool)
    ensures
        distinct == distinct_by(result_views(results@), result_key()),
{
    let ghost rows = result_views(results@);
    let mut j: usize = 0;
    while j < results.len()
        invariant
            j <= results@.len(),
            rows == result_views(results@),
            forall|a: int, b: int|
                0 <= a < b < j ==> result_key()(#[trigger] rows[a]) != result_key()(
                    #[trigger] rows[b],
                ),
        decreases results@.len() - j,
    {
        let mut i: usize = 0;
        while i < j
            invariant
                i <= j < results@.len(),
                rows == result_views(results@),
                forall|a: int|
                    0 <= a < i ==> result_key()(#[trigger] rows[a]) != result_key()(rows[j as int]),
            decreases j - i,
        {
            if results[i].id == results[j].id {
                assert(result_key()(rows[i as int]) == result_key()(rows[j as int]));
                return false;
            }
            i += 1;
        }
        j += 1;
    }
    true
}

fn progress_keys_distinct(progress: &Vec<ResearchProgress>) -> (distinct: bool)
    ensures
        distinct == distinct_by(progress_views(progress@), progress_key()),
{
    let ghost rows = progress_views(progress@);
    let mut j: usize = 0;
    while j < progress.len()
        invariant
            j <= progress@.len(),
            rows == progress_views(progress@),
            forall|a: int, b: int|
                0 <= a < b < j ==> progress_key()(#[trigger] rows[a]) != progress_key()(
                    #[trigger] rows[b],
                ),
        decreases progress@.len() - j,
    {
        let mut i: usize = 0;
        while i < j
            invariant
                i <= j < progress@.len(),
                rows == progress_views(progress@),
                forall|a: int|
                    0 <= a < i ==> progress_key()(#[trigger] rows[a]) != progress_key()(
                        rows[j as int],
                    ),
            decreases j - i,
        {
            if progress[i].todo_id == progress[j].todo_id && progress[i].service
                == progress[j].service {
                assert(progress_key()(rows[i as int]) == progress_key()(rows[j as int]));
                return false;
            }
            i += 1;
        }
        j += 1;
    }
    true
}

fn holds_todo(todos: &Vec<Todo>, id: &String) -> (held: bool)
    ensures
        held == has_todo_id(todo_views(todos@), id@),
{
    let ghost rows = todo_views(todos@);
    let mut i: usize = 0;
    while i < todos.len()
        invariant
            i <= todos@.len(),
            rows == todo_views(todos@),
            forall|k: int| 0 <= k < i ==> (#[trigger] rows[k]).id != id@,
        decreases todos@.len() - i,
    {
        if todos[i].id == *id {
            assert(rows[i as int].id == id@);
            return true;
        }
        i += 1;
    }
    false
}

fn parents_stored(
    todos: &Vec<Todo>,
    results: &Vec<ResearchResult>,
    progress: &Vec<ResearchProgress>,
) -> (present: bool)
    ensures
        present == parents_present(
            todo_views(todos@),
            result_views(results@),
            progress_views(progress@),
        ),
{
    let ghost rows = todo_views(todos@);
    let mut i: usize = 0;
    while i < results.len()
        invariant
            i <= results@.len(),
            rows == todo_views(todos@),
            forall|k: int|
                0 <= k < i ==> has_todo_id(rows, (#[trigger] result_views(results@)[k]).todo_id),
        decreases results@.len() - i,
    {
        if !holds_todo(todos, &results[i].todo_id) {
            assert(!has_todo_id(rows, result_views(results@)[i as int].todo_id));
            return false;
        }
        i += 1;
    }
    let mut j: usize = 0;
    while j < progress.len()
        invariant
            j <= progress@.len(),
            rows == todo_views(todos@),
            forall|k: int|
                0 <= k < results@.len() ==> has_todo_id(
                    rows,
                    (#[trigger] result_views(results@)[k]).todo_id,
                ),
            forall|k: int|
                0 <= k < j ==> has_todo_id(rows, (#[trigger] progress_views(progress@)[k]).todo_id),
        decreases progress@.len() - j,
    {
        if !holds_todo(todos, &progress[j].todo_id) {
            assert(!has_todo_id(rows, progress_views(progress@)[j as int].todo_id));
            return false;
        }
        j += 1;
    }
    true
}

impl Database {
    /// Makes a store of rows that were kept elsewhere, in the order given.
    /// The rows are taken as they are or not at all: a todo that is not
    /// valid, a key that occurs twice, or a row whose todo is missing is
    /// reported, in this order of precedence. The clock of the store stands
    /// at the latest change of a todo.
    pub fn restore(
        todos: Vec<Todo>,
        results: Vec<ResearchResult>,
        progress: Vec<ResearchProgress>,
    ) -> (outcome: Result<Database, StorageError>)
        ensures
            match outcome {
                Ok(db) => {
                    &&& restore_error(
                        todo_views(todos@),
                        result_views(results@),
                        progress_views(progress@),
                    ) is None
                    &&& db@.wf()
                    &&& db@.todos == todo_views(todos@)
                    &&& db@.results == result_views(results@)
                    &&& db@.progress == progress_views(progress@)
                    &&& is_latest_change(db@.todos, db@.clock)
                },
                Err(error) => restore_error(
                    todo_views(todos@),
                    result_views(results@),
                    progress_views(progress@),
                ) == Some(error),
            },
    {
        let clock = match todos_valid(&todos) {
            Some(clock) => clock,
            None => {
                return Err(StorageError::CorruptRow);
            },
        };
        if !todo_ids_distinct(&todos) || !result_ids_distinct(&results) || !progress_keys_distinct(
            &progress,
        ) {
            return Err(StorageError::DuplicateKey);
        }
        if !parents_stored(&todos, &results, &progress) {
            return Err(StorageError::MissingTodo);
        }
        let db = Database { todos, results, progress, clock };
        assert(db@.todos =~= todo_views(todos@));
        Ok(db)
    }

    /// Checks the rules of the store on the rows that it holds.
    pub fn is_well_formed(&self) -> (ok: bool)
        ensures
            ok == self@.wf(),
    {
        let latest = match todos_valid(&self.todos) {
            Some(latest) => latest,
            None => {
                proof {
                    if self@.wf() {
                        assert forall|i: int| 0 <= i < self@.todos.len() implies (
                        #[trigger] self@.todos[i]).title.len() > 0 && self@.todos[i].created_at
                            <= self@.todos[i].updated_at by {
                            assert(todo_row_ok(self@.todos[i], self@.clock));
                        }
                    }
                }
                return false;
            },
        };
        if latest > self.clock {
            proof {
                if self@.todos.len() > 0 {
                    let k = choose|k: int|
                        0 <= k < self@.todos.len() && (#[trigger] self@.todos[k]).updated_at
                            == latest;
                    assert(!todo_row_ok(self@.todos[k], self@.clock));
                }
            }
            return false;
        }
        let ok = todo_ids_distinct(&self.todos) && result_ids_distinct(&self.results)
            && progress_keys_distinct(&self.progress) && parents_stored(
            &self.todos,
            &self.results,
            &self.progress,
        );
        proof {
            assert forall|i: int| 0 <= i < self@.todos.len() implies todo_row_ok(
                #[trigger] self@.todos[i],
                self@.clock,
            ) by {}
        }
        ok
    }

    /// The stored todos, in the order in which they were stored.
    pub fn todos(&self) -> (rows: &Vec<Todo>)
        ensures
            todo_views(rows@) == self@.todos,
    {
        &self.todos
    }

    /// The stored results, in the order in which they were stored.
    pub fn results(&self) -> (rows: &Vec<ResearchResult>)
        ensures
            result_views(rows@) == self@.results,
    {
        &self.results
    }

    /// The stored progress rows, in the order in which they were stored.
    pub fn progress(&self) -> (rows: &Vec<ResearchProgress>)
        ensures
            progress_views(rows@) == self@.progress,
    {
        &self.progress
    }

    /// The latest instant that the store has stamped a row with.
    pub fn clock(&self) -> (clock: i64)
        ensures
            clock == self@.clock,
    {
        self.clock
    }
}

} // verus!
