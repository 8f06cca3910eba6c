//! The todo repository: create, read, change, delete and list todos.

use vstd::prelude::*;
use crate::clock::{later, later_of, now_millis};
use crate::db::research_service::{lemma_no_results, results_of};
use crate::db::{has_progress_key, has_todo_id, lemma_todo_unique, progress_key, progress_views,
    result_key, result_views, todo_key, todo_row_ok, todo_views, Database, ServiceError,
    StorageError, StoreView, ValidationError};
use crate::ident::fresh_id;
use crate::models::research_result::{ResearchProgress, ResearchProgressView, ResearchResult,
    ResearchResultView};
use crate::models::todo::{priority_from_rank, priority_rank, status_from_text, status_text,
    CreateTodoRequest, Todo, TodoFilter, TodoPriority, TodoStatus, TodoView, UpdateTodoRequest};
use crate::ranking::{key_at, key_before, key_views, lemma_key_before_asymmetric,
    lemma_key_before_total, lemma_key_before_transitive, rank, SortKey, SortKeyView};
use crate::rows::{asymmetric, distinct_by, lemma_filter_all, lemma_filter_keeps_distinct,
    lemma_filter_members, lemma_sorted_same_members, lemma_sorted_selection_exists,
    strictly_sorted};
use crate::text::{chars_of, contains_text, text_contains, text_view};
use crate::todo::StatusCounts;

verus! {

/// The repository of todos. It owns the store that it works on.
pub struct TodoService {
    pub(crate) db: Database,
}

impl View for TodoService {
    type V = StoreView;

    closed spec fn view(&self) -> StoreView {
        self.db@
    }
}

/// The value of what an operation hands back where it hands back a todo.
pub open spec fn todo_outcome(outcome: Result<Todo, ServiceError>) -> Result<
    TodoView,
    ServiceError,
> {
    match outcome {
        Ok(todo) => Ok(todo@),
        Err(error) => Err(error),
    }
}

/// The value of what an operation hands back where it may find no todo.
pub open spec fn found_outcome(outcome: Result<Option<Todo>, ServiceError>) -> Result<
    Option<TodoView>,
    ServiceError,
> {
    match outcome {
        Ok(Some(todo)) => Ok(Some(todo@)),
        Ok(None) => Ok(None),
        Err(error) => Err(error),
    }
}

/// The value of a todo that may be absent.
pub open spec fn found_todo(found: Option<Todo>) -> Option<TodoView> {
    match found {
        Some(todo) => Some(todo@),
        None => None,
    }
}

/// The todo that `request` asks for, under the id `id` and stamped `stamp`:
/// pending, of medium priority unless the request names another, created and
/// last changed at `stamp`, not completed.
pub open spec fn new_todo(id: Seq<char>, request: CreateTodoRequest, stamp: i64) -> TodoView {
    TodoView {
        id,
        title: request.title@,
        description: text_view(request.description),
        url: text_view(request.url),
        status: TodoStatus::Pending,
        priority: match request.priority {
            Some(priority) => priority,
            None => TodoPriority::Medium,
        },
        preferred_service: text_view(request.preferred_service),
        created_at: stamp,
        updated_at: stamp,
        completed_at: None,
    }
}

/// The store after `row` was added to its todos at the instant `stamp`.
pub open spec fn with_todo(before: StoreView, row: TodoView, stamp: i64) -> StoreView {
    StoreView { todos: before.todos.push(row), clock: stamp, ..before }
}

/// What creating a todo does, given the id drawn for it and the reading of
/// the clock. An empty title is refused; an id that is taken is refused; in
/// both cases the store stays as it was. Otherwise the new todo is stamped
/// with the later of the clock reading and the store's own clock, stored
/// behind the todos that are there, and handed back.
pub open spec fn created(
    before: StoreView,
    request: CreateTodoRequest,
    id: Seq<char>,
    now: i64,
    after: StoreView,
    outcome: Result<TodoView, ServiceError>,
) -> bool {
    if request.title@.len() == 0 {
        &&& outcome == Err::<TodoView, ServiceError>(
            ServiceError::Validation(ValidationError::EmptyTitle),
        )
        &&& after == before
    } else if before.has_todo(id) {
        &&& outcome == Err::<TodoView, ServiceError>(
            ServiceError::Storage(StorageError::DuplicateKey),
        )
        &&& after == before
    } else {
        let stamp = later(before.clock, now);
        &&& outcome == Ok::<TodoView, ServiceError>(new_todo(id, request, stamp))
        &&& after == with_todo(before, new_todo(id, request, stamp), stamp)
    }
}

/// Adding a valid todo under a free id, stamped no earlier than the clock,
/// keeps the store valid.
pub proof fn lemma_with_todo_wf(before: StoreView, row: TodoView, stamp: i64)
    requires
        before.wf(),
        !before.has_todo(row.id),
        todo_row_ok(row, stamp),
        before.clock <= stamp,
    ensures
        with_todo(before, row, stamp).wf(),
{
    let after = with_todo(before, row, stamp);
    assert forall|i: int, j: int| 0 <= i < j < after.todos.len() implies todo_key()(
        #[trigger] after.todos[i],
    ) != todo_key()(#[trigger] after.todos[j]) by {
        assert(after.todos[i] == before.todos[i]);
        if j < before.todos.len() {
            assert(after.todos[j] == before.todos[j]);
        }
    }
    assert forall|i: int| 0 <= i < after.todos.len() implies todo_row_ok(
        #[trigger] after.todos[i],
        after.clock,
    ) by {
        if i < before.todos.len() {
            assert(after.todos[i] == before.todos[i]);
        }
    }
    assert forall|id: Seq<char>| has_todo_id(before.todos, id) implies has_todo_id(
        after.todos,
        id,
    ) by {
        let k = choose|k: int| 0 <= k < before.todos.len() && (#[trigger] before.todos[k]).id == id;
        assert(after.todos[k] == before.todos[k]);
    }
}

/// A todo that was created is pending, was created and last changed at the
/// same instant, and is the todo that the store holds under its id.
pub proof fn lemma_created_is_pending(
    before: StoreView,
    request: CreateTodoRequest,
    id: Seq<char>,
    now: i64,
    after: StoreView,
    todo: TodoView,
)
    requires
        before.wf(),
        created(before, request, id, now, after, Ok(todo)),
    ensures
        todo.status == TodoStatus::Pending,
        todo.created_at == todo.updated_at,
        after.lookup(id) == Some(todo),
        after.wf(),
{
    let stamp = later(before.clock, now);
    lemma_with_todo_wf(before, todo, stamp);
    assert(after.todos[before.todos.len() as int] == todo);
    lemma_todo_unique(after, before.todos.len() as int);
}

/// Reading a todo depends on the store and the id alone: as long as the
/// store is not changed, reading again gives the same.
pub proof fn lemma_get_is_repeatable(
    store: StoreView,
    id: Seq<char>,
    first: Option<TodoView>,
    second: Option<TodoView>,
)
    requires
        first == store.lookup(id),
        second == store.lookup(id),
    ensures
        first == second,
{
}

/// Whether a partial update names any field.
pub open spec fn touches(request: UpdateTodoRequest) -> bool {
    ||| request.title is Some
    ||| request.description is Some
    ||| request.url is Some
    ||| request.status is Some
    ||| request.priority is Some
    ||| request.preferred_service is Some
}

/// Whether a partial update asks for an empty title.
pub open spec fn asks_empty_title(request: UpdateTodoRequest) -> bool {
    match request.title {
        Some(title) => title@.len() == 0,
        None => false,
    }
}

/// What a partial update makes of a todo at the instant `stamp`: each field
/// that the request names takes the value given, each other field stays;
/// the id, the creation time and the completion time always stay; the time
/// of the last change becomes `stamp` if the request names any field.
pub open spec fn patched(row: TodoView, request: UpdateTodoRequest, stamp: i64) -> TodoView {
    TodoView {
        id: row.id,
        title: match request.title {
            Some(title) => title@,
            None => row.title,
        },
        description: match request.description {
            Some(description) => Some(description@),
            None => row.description,
        },
        url: match request.url {
            Some(url) => Some(url@),
            None => row.url,
        },
        status: match request.status {
            Some(status) => status,
            None => row.status,
        },
        priority: match request.priority {
            Some(priority) => priority,
            None => row.priority,
        },
        preferred_service: match request.preferred_service {
            Some(service) => Some(service@),
            None => row.preferred_service,
        },
        created_at: row.created_at,
        updated_at: if touches(request) {
            stamp
        } else {
            row.updated_at
        },
        completed_at: row.completed_at,
    }
}

/// The todos with the partial update applied to the one that has the id
/// `id`; every other todo, and the order, stay.
pub open spec fn patched_rows(
    rows: Seq<TodoView>,
    id: Seq<char>,
    request: UpdateTodoRequest,
    stamp: i64,
) -> Seq<TodoView> {
    Seq::new(
        rows.len(),
        |i: int|
            if rows[i].id == id {
                patched(rows[i], request, stamp)
            } else {
                rows[i]
            },
    )
}

/// The store after the partial update of the todo `id` at the instant `stamp`.
pub open spec fn with_patch(
    before: StoreView,
    id: Seq<char>,
    request: UpdateTodoRequest,
    stamp: i64,
) -> StoreView {
    StoreView {
        todos: patched_rows(before.todos, id, request, stamp),
        clock: if touches(request) {
            stamp
        } else {
            before.clock
        },
        ..before
    }
}

/// What a partial update does, given the reading of the clock. An id that
/// names no todo gives `None`, whatever the request holds; a request for an
/// empty title on a todo that is stored is refused; in both cases the store
/// stays as it was. Otherwise the todo is patched, stamped with the later of
/// the clock reading and the store's own clock, and handed back as it now
/// stands.
pub open spec fn updated(
    before: StoreView,
    id: Seq<char>,
    request: UpdateTodoRequest,
    now: i64,
    after: StoreView,
    outcome: Result<Option<TodoView>, ServiceError>,
) -> bool {
    if !before.has_todo(id) {
        &&& outcome == Ok::<Option<TodoView>, ServiceError>(None)
        &&& after == before
    } else if asks_empty_title(request) {
        &&& outcome == Err::<Option<TodoView>, ServiceError>(
            ServiceError::Validation(ValidationError::EmptyTitle),
        )
        &&& after == before
    } else {
        let stamp = later(before.clock, now);
        &&& outcome == Ok::<Option<TodoView>, ServiceError>(
            Some(patched(before.todo(id), request, stamp)),
        )
        &&& after == with_patch(before, id, request, stamp)
    }
}

/// A partial update that asks for no empty title, stamped no earlier than
/// the clock, keeps the store valid.
pub proof fn lemma_with_patch_wf(
    before: StoreView,
    id: Seq<char>,
    request: UpdateTodoRequest,
    stamp: i64,
)
    requires
        before.wf(),
        !asks_empty_title(request),
        before.clock <= stamp,
    ensures
        with_patch(before, id, request, stamp).wf(),
{
    let after = with_patch(before, id, request, stamp);
    assert forall|i: int| 0 <= i < after.todos.len() implies (#[trigger] after.todos[i]).id
        == before.todos[i].id by {}
    assert forall|i: int, j: int| 0 <= i < j < after.todos.len() implies todo_key()(
        #[trigger] after.todos[i],
    ) != todo_key()(#[trigger] after.todos[j]) by {
        assert(todo_key()(before.todos[i]) != todo_key()(before.todos[j]));
    }
    assert forall|i: int| 0 <= i < after.todos.len() implies todo_row_ok(
        #[trigger] after.todos[i],
        after.clock,
    ) by {
        assert(todo_row_ok(before.todos[i], before.clock));
    }
    assert forall|other: Seq<char>| has_todo_id(before.todos, other) implies has_todo_id(
        after.todos,
        other,
    ) by {
        let k = choose|k: int|
            0 <= k < before.todos.len() && (#[trigger] before.todos[k]).id == other;
        assert(after.todos[k].id == other);
    }
}

/// A todo that was changed is stored as it was handed back, and every other
/// todo reads as before.
pub proof fn lemma_updated_is_stored(
    before: StoreView,
    id: Seq<char>,
    request: UpdateTodoRequest,
    now: i64,
    after: StoreView,
    todo: TodoView,
)
    requires
        before.wf(),
        updated(before, id, request, now, after, Ok(Some(todo))),
    ensures
        after.wf(),
        before.has_todo(id),
        todo == patched(before.todo(id), request, later(before.clock, now)),
        after.lookup(id) == Some(todo),
        forall|other: Seq<char>| other != id ==> after.lookup(other) == before.lookup(other),
{
    let stamp = later(before.clock, now);
    lemma_with_patch_wf(before, id, request, stamp);
    let k = choose|k: int| 0 <= k < before.todos.len() && (#[trigger] before.todos[k]).id == id;
    lemma_todo_unique(before, k);
    assert(after.todos[k] == todo);
    lemma_todo_unique(after, k);
    assert forall|other: Seq<char>| other != id implies after.lookup(other) == before.lookup(
        other,
    ) by {
        if before.has_todo(other) {
            let m = choose|m: int|
                0 <= m < before.todos.len() && (#[trigger] before.todos[m]).id == other;
            lemma_todo_unique(before, m);
            assert(after.todos[m] == before.todos[m]);
            lemma_todo_unique(after, m);
        } else if after.has_todo(other) {
            let m = choose|m: int|
                0 <= m < after.todos.len() && (#[trigger] after.todos[m]).id == other;
            assert(before.todos[m].id == other);
        }
    }
}

/// A partial update leaves every field that it does not name as it was.
pub proof fn lemma_patch_keeps_omitted(row: TodoView, request: UpdateTodoRequest, stamp: i64)
    ensures
        request.title is None ==> patched(row, request, stamp).title == row.title,
        request.description is None ==> patched(row, request, stamp).description
            == row.description,
        request.url is None ==> patched(row, request, stamp).url == row.url,
        request.status is None ==> patched(row, request, stamp).status == row.status,
        request.priority is None ==> patched(row, request, stamp).priority == row.priority,
        request.preferred_service is None ==> patched(row, request, stamp).preferred_service
            == row.preferred_service,
        patched(row, request, stamp).id == row.id,
        patched(row, request, stamp).created_at == row.created_at,
        patched(row, request, stamp).completed_at == row.completed_at,
        !touches(request) ==> patched(row, request, stamp) == row,
{
}

impl TodoService {
    /// A repository over `db`.
    pub fn new(db: Database) -> (service: Self)
        ensures
            service@ == db@,
    {
        TodoService { db }
    }

    /// Gives the store back.
    pub fn into_database(self) -> (db: Database)
        ensures
            db@ == self@,
    {
        self.db
    }

    /// The store that this repository works on.
    pub fn database(&self) -> (db: &Database)
        ensures
            db@ == self@,
    {
        &self.db
    }

    /// Creates a todo under an id drawn at random, stamped by the system
    /// clock. Which id and which instant these are is not known beforehand;
    /// for each of them the outcome is the one that [`created`] describes.
    /// An empty title is always refused, whatever was drawn. A title that is
    /// not empty is refused only where the id drawn is taken, which cannot
    /// be where no stored id has the length of a drawn one.
    pub fn create_todo(&mut self, request: CreateTodoRequest) -> (outcome: Result<
        Todo,
        ServiceError,
    >)
        requires
            old(self)@.wf(),
        ensures
            final(self)@.wf(),
            exists|id: Seq<char>, now: i64|
                id.len() == 36 && created(
                    old(self)@,
                    request,
                    id,
                    now,
                    final(self)@,
                    todo_outcome(outcome),
                ),
            request.title@.len() == 0 <==> outcome == Err::<Todo, ServiceError>(
                ServiceError::Validation(ValidationError::EmptyTitle),
            ),
            request.title@.len() > 0 && (forall|i: int|
                0 <= i < old(self)@.todos.len() ==> (#[trigger] old(self)@.todos[i]).id.len()
                    != 36) ==> outcome is Ok,
    {
        let id = fresh_id();
        let now = now_millis();
        let ghost drawn = id@;
        let outcome = self.create_todo_at(id, now, request);
        assert(created(old(self)@, request, drawn, now, self@, todo_outcome(outcome)));
        outcome
    }

    /// Creates a todo under the id `id`, with `now` as the reading of the
    /// clock.
    pub fn create_todo_at(&mut self, id: String, now: i64, request: CreateTodoRequest) -> (outcome:
        Result<Todo, ServiceError>)
        requires
            old(self)@.wf(),
        ensures
            final(self)@.wf(),
            created(old(self)@, request, id@, now, final(self)@, todo_outcome(outcome)),
    {
        if request.title.as_str().is_empty() {
            return Err(ServiceError::Validation(ValidationError::EmptyTitle));
        }
        if self.db.find_todo(&id).is_some() {
            return Err(ServiceError::Storage(StorageError::DuplicateKey));
        }
        let stamp = later_of(self.db.clock, now);
        let priority = match request.priority {
            Some(priority) => priority,
            None => TodoPriority::Medium,
        };
        let todo = Todo {
            id,
            title: request.title,
            description: request.description,
            url: request.url,
            status: TodoStatus::Pending,
            priority,
            preferred_service: request.preferred_service,
            created_at: stamp,
            updated_at: stamp,
            completed_at: None,
        };
        let copy = todo.clone();
        self.db.todos.push(todo);
        self.db.clock = stamp;
        proof {
            let row = new_todo(id@, request, stamp);
            assert(copy@ == row);
            assert(self@.todos =~= old(self)@.todos.push(row));
            assert(self@ =~= with_todo(old(self)@, row, stamp));
            lemma_with_todo_wf(old(self)@, row, stamp);
        }
        Ok(copy)
    }

    /// The todo with the id `id`, or `None` where no such todo is stored.
    pub fn get_todo(&self, id: &str) -> (found: Option<Todo>)
        requires
            self@.wf(),
        ensures
            found_todo(found) == self@.lookup(id@),
    {
        let key = id.to_owned();
        match self.db.find_todo(&key) {
            Some(i) => {
                proof {
                    lemma_todo_unique(self@, i as int);
                }
                Some(self.db.todos[i].clone())
            },
            None => None,
        }
    }

    /// Changes the fields that `request` names on the todo `id`, stamped by
    /// the system clock. Which instant that is is not known beforehand; for
    /// each the outcome is the one that [`updated`] describes. What does not
    /// depend on the clock is settled: `None` is returned exactly where the
    /// id names no todo, and the request is refused exactly where the id
    /// names a todo and the request asks for an empty title.
    pub fn update_todo(&mut self, id: &str, request: UpdateTodoRequest) -> (outcome: Result<
        Option<Todo>,
        ServiceError,
    >)
        requires
            old(self)@.wf(),
        ensures
            final(self)@.wf(),
            exists|now: i64|
                updated(old(self)@, id@, request, now, final(self)@, found_outcome(outcome)),
            outcome is Err <==> old(self)@.has_todo(id@) && asks_empty_title(request),
            outcome == Ok::<Option<Todo>, ServiceError>(None) <==> !old(self)@.has_todo(id@),
            !old(self)@.has_todo(id@) ==> final(self)@ == old(self)@,
    {
        let now = now_millis();
        let outcome = self.update_todo_at(id, now, request);
        assert(updated(old(self)@, id@, request, now, self@, found_outcome(outcome)));
        outcome
    }

    /// Changes the fields that `request` names on the todo `id`, with `now`
    /// as the reading of the clock.
    pub fn update_todo_at(&mut self, id: &str, now: i64, request: UpdateTodoRequest) -> (outcome:
        Result<Option<Todo>, ServiceError>)
        requires
            old(self)@.wf(),
        ensures
            final(self)@.wf(),
            updated(old(self)@, id@, request, now, final(self)@, found_outcome(outcome)),
    {
        let key = id.to_owned();
        let place = match self.db.find_todo(&key) {
            Some(place) => place,
            None => {
                return Ok(None);
            },
        };
        let empty_title = match &request.title {
            Some(title) => title.as_str().is_empty(),
            None => false,
        };
        if empty_title {
            return Err(ServiceError::Validation(ValidationError::EmptyTitle));
        }
        let touched = request.title.is_some() || request.description.is_some()
            || request.url.is_some() || request.status.is_some() || request.priority.is_some()
            || request.preferred_service.is_some();
        let ghost before = old(self)@;
        proof {
            lemma_todo_unique(before, place as int);
        }
        if !touched {
            let copy = self.db.todos[place].clone();
            proof {
                let stamp = later(before.clock, now);
                assert(before.todos =~= patched_rows(before.todos, id@, request, stamp));
                assert(self@ =~= with_patch(before, id@, request, stamp));
            }
            return Ok(Some(copy));
        }
        let stamp = later_of(self.db.clock, now);
        let row = &self.db.todos[place];
        let changed = Todo {
            id: row.id.clone(),
            title: match request.title {
                Some(title) => title,
                None => row.title.clone(),
            },
            description: match request.description {
                Some(description) => Some(description),
                None => row.description.clone(),
            },
            url: match request.url {
                Some(url) => Some(url),
                None => row.url.clone(),
            },
            status: match request.status {
                Some(status) => status,
                None => row.status,
            },
            priority: match request.priority {
                Some(priority) => priority,
                None => row.priority,
            },
            preferred_service: match request.preferred_service {
                Some(service) => Some(service),
                None => row.preferred_service.clone(),
            },
            created_at: row.created_at,
            updated_at: stamp,
            completed_at: row.completed_at,
        };
        let copy = changed.clone();
        self.db.todos.set(place, changed);
        self.db.clock = stamp;
        proof {
            assert(copy@ == patched(before.todos[place as int], request, stamp));
            assert forall|i: int| 0 <= i < before.todos.len() implies #[trigger] self@.todos[i]
                == patched_rows(before.todos, id@, request, stamp)[i] by {
                if i < place {
                    assert(todo_key()(before.todos[i]) != todo_key()(before.todos[place as int]));
                } else if i > place {
                    assert(todo_key()(before.todos[place as int]) != todo_key()(before.todos[i]));
                }
            }
            assert(self@.todos =~= patched_rows(before.todos, id@, request, stamp));
            assert(self@ =~= with_patch(before, id@, request, stamp));
            lemma_with_patch_wf(before, id@, request, stamp);
        }
        Ok(Some(copy))
    }
}

/// The todos but the one with the id `id`, in their order.
pub open spec fn without_todo(rows: Seq<TodoView>, id: Seq<char>) -> Seq<TodoView> {
    rows.filter(|row: TodoView| row.id != id)
}

/// The results but those of the todo `todo_id`, in their order.
pub open spec fn results_without_todo(
    rows: Seq<ResearchResultView>,
    todo_id: Seq<char>,
) -> Seq<ResearchResultView> {
    rows.filter(|row: ResearchResultView| row.todo_id != todo_id)
}

/// The progress rows but those of the todo `todo_id`, in their order.
pub open spec fn progress_without_todo(
    rows: Seq<ResearchProgressView>,
    todo_id: Seq<char>,
) -> Seq<ResearchProgressView> {
    rows.filter(|row: ResearchProgressView| row.todo_id != todo_id)
}

/// The store after the todo `id` was deleted: the todo is gone, and with it
/// every result and every progress row that belongs to it.
pub open spec fn after_delete(before: StoreView, id: Seq<char>) -> StoreView {
    StoreView {
        todos: without_todo(before.todos, id),
        results: results_without_todo(before.results, id),
        progress: progress_without_todo(before.progress, id),
        clock: before.clock,
    }
}

/// Deleting a todo keeps the store valid.
pub proof fn lemma_delete_wf(before: StoreView, id: Seq<char>)
    requires
        before.wf(),
    ensures
        after_delete(before, id).wf(),
{
    let after = after_delete(before, id);
    let keep_todo = |row: TodoView| row.id != id;
    let keep_result = |row: ResearchResultView| row.todo_id != id;
    let keep_progress = |row: ResearchProgressView| row.todo_id != id;
    lemma_filter_keeps_distinct(before.todos, todo_key(), keep_todo);
    lemma_filter_keeps_distinct(before.results, result_key(), keep_result);
    lemma_filter_keeps_distinct(before.progress, progress_key(), keep_progress);
    lemma_filter_members(before.todos, keep_todo);
    lemma_filter_members(before.results, keep_result);
    lemma_filter_members(before.progress, keep_progress);
    assert forall|i: int| 0 <= i < after.todos.len() implies todo_row_ok(
        #[trigger] after.todos[i],
        after.clock,
    ) by {
        assert(after.todos.contains(after.todos[i]));
        assert(before.todos.contains(after.todos[i]));
    }
    assert forall|other: Seq<char>| other != id && has_todo_id(before.todos, other)
        implies has_todo_id(after.todos, other) by {
        let k = choose|k: int|
            0 <= k < before.todos.len() && (#[trigger] before.todos[k]).id == other;
        assert(before.todos.contains(before.todos[k]));
        assert(after.todos.contains(before.todos[k]));
        let m = choose|m: int| 0 <= m < after.todos.len() && after.todos[m] == before.todos[k];
        assert(after.todos[m].id == other);
    }
    assert forall|i: int| 0 <= i < after.results.len() implies has_todo_id(
        after.todos,
        (#[trigger] after.results[i]).todo_id,
    ) by {
        let row = after.results[i];
        assert(after.results.contains(row));
        assert(before.results.contains(row) && keep_result(row));
        let k = choose|k: int| 0 <= k < before.results.len() && before.results[k] == row;
        assert(has_todo_id(before.todos, before.results[k].todo_id));
    }
    assert forall|i: int| 0 <= i < after.progress.len() implies has_todo_id(
        after.todos,
        (#[trigger] after.progress[i]).todo_id,
    ) by {
        let row = after.progress[i];
        assert(after.progress.contains(row));
        assert(before.progress.contains(row) && keep_progress(row));
        let k = choose|k: int| 0 <= k < before.progress.len() && before.progress[k] == row;
        assert(has_todo_id(before.todos, before.progress[k].todo_id));
    }
}

/// Deleting a todo that is not stored changes nothing.
pub proof fn lemma_delete_absent(before: StoreView, id: Seq<char>)
    requires
        before.wf(),
        !before.has_todo(id),
    ensures
        after_delete(before, id) == before,
{
    lemma_filter_all(before.todos, |row: TodoView| row.id != id);
    assert forall|i: int| 0 <= i < before.results.len() implies (
    #[trigger] before.results[i]).todo_id != id by {
        assert(has_todo_id(before.todos, before.results[i].todo_id));
    }
    lemma_filter_all(before.results, |row: ResearchResultView| row.todo_id != id);
    assert forall|i: int| 0 <= i < before.progress.len() implies (
    #[trigger] before.progress[i]).todo_id != id by {
        assert(has_todo_id(before.todos, before.progress[i].todo_id));
    }
    lemma_filter_all(before.progress, |row: ResearchProgressView| row.todo_id != id);
    assert(after_delete(before, id) =~= before);
}

/// After a todo was deleted, the store holds neither the todo nor any result
/// or progress row of it, and every other row is still there.
pub proof fn lemma_delete_cascades(before: StoreView, id: Seq<char>)
    ensures
        !after_delete(before, id).has_todo(id),
        forall|row: ResearchResultView| #[trigger]
            after_delete(before, id).results.contains(row) <==> before.results.contains(row)
                && row.todo_id != id,
        forall|row: ResearchProgressView| #[trigger]
            after_delete(before, id).progress.contains(row) <==> before.progress.contains(row)
                && row.todo_id != id,
        forall|row: TodoView| #[trigger]
            after_delete(before, id).todos.contains(row) <==> before.todos.contains(row) && row.id
                != id,
{
    let after = after_delete(before, id);
    lemma_filter_members(before.todos, |row: TodoView| row.id != id);
    lemma_filter_members(before.results, |row: ResearchResultView| row.todo_id != id);
    lemma_filter_members(before.progress, |row: ResearchProgressView| row.todo_id != id);
    if after.has_todo(id) {
        let k = choose|k: int| 0 <= k < after.todos.len() && (#[trigger] after.todos[k]).id == id;
        assert(after.todos.contains(after.todos[k]));
    }
}

/// After a todo was deleted, the listing of its results is empty and no
/// service has a progress row for it.
pub proof fn lemma_delete_leaves_nothing(before: StoreView, id: Seq<char>, service: Seq<char>)
    ensures
        after_delete(before, id).lookup(id) == None::<TodoView>,
        results_of(after_delete(before, id).results, id) == Seq::<ResearchResultView>::empty(),
        after_delete(before, id).lookup_progress(id, service) == None::<ResearchProgressView>,
{
    let after = after_delete(before, id);
    lemma_delete_cascades(before, id);
    lemma_no_results(after.results, id);
    if has_progress_key(after.progress, id, service) {
        let k = choose|k: int|
            0 <= k < after.progress.len() && (#[trigger] after.progress[k]).todo_id == id
                && after.progress[k].service == service;
        assert(after.progress.contains(after.progress[k]));
    }
}

fn keep_other_todos(rows: Vec<Todo>, id: &String) -> (kept: Vec<Todo>)
    ensures
        todo_views(kept@) == without_todo(todo_views(rows@), id@),
{
    let mut kept: Vec<Todo> = Vec::new();
    let ghost all = rows@;
    for row in it: rows
        invariant
            all == it.seq(),
            todo_views(kept@) == without_todo(todo_views(it.seq().take(it.index() as int)), id@),
    {
        proof {
            let done = it.seq().take(it.index() as int);
            assert(it.seq().take(it.index() + 1) =~= done.push(row));
            assert(todo_views(done.push(row)) =~= todo_views(done).push(row@));
            Seq::lemma_filter_push(todo_views(done), row@, |r: TodoView| r.id != id@);
            assert(todo_views(kept@.push(row)) =~= todo_views(kept@).push(row@));
        }
        if !(row.id == *id) {
            kept.push(row);
        }
    }
    assert(all.take(all.len() as int) =~= all);
    kept
}

fn keep_results_of_others(rows: Vec<ResearchResult>, todo_id: &String) -> (kept: Vec<
    ResearchResult,
>)
    ensures
        result_views(kept@) == results_without_todo(result_views(rows@), todo_id@),
{
    let mut kept: Vec<ResearchResult> = Vec::new();
    let ghost all = rows@;
    for row in it: rows
        invariant
            all == it.seq(),
            result_views(kept@) == results_without_todo(
                result_views(it.seq().take(it.index() as int)),
                todo_id@,
            ),
    {
        proof {
            let done = it.seq().take(it.index() as int);
            assert(it.seq().take(it.index() + 1) =~= done.push(row));
            assert(result_views(done.push(row)) =~= result_views(done).push(row@));
            Seq::lemma_filter_push(
                result_views(done),
                row@,
                |r: ResearchResultView| r.todo_id != todo_id@,
            );
            assert(result_views(kept@.push(row)) =~= result_views(kept@).push(row@));
        }
        if !(row.todo_id == *todo_id) {
            kept.push(row);
        }
    }
    assert(all.take(all.len() as int) =~= all);
    kept
}

fn keep_progress_of_others(rows: Vec<ResearchProgress>, todo_id: &String) -> (kept: Vec<
    ResearchProgress,
>)
    ensures
        progress_views(kept@) == progress_without_todo(progress_views(rows@), todo_id@),
{
    let mut kept: Vec<ResearchProgress> = Vec::new();
    let ghost all = rows@;
    for row in it: rows
        invariant
            all == it.seq(),
            progress_views(kept@) == progress_without_todo(
                progress_views(it.seq().take(it.index() as int)),
                todo_id@,
            ),
    {
        proof {
            let done = it.seq().take(it.index() as int);
            assert(it.seq().take(it.index() + 1) =~= done.push(row));
            assert(progress_views(done.push(row)) =~= progress_views(done).push(row@));
            Seq::lemma_filter_push(
                progress_views(done),
                row@,
                |r: ResearchProgressView| r.todo_id != todo_id@,
            );
            assert(progress_views(kept@.push(row)) =~= progress_views(kept@).push(row@));
        }
        if !(row.todo_id == *todo_id) {
            kept.push(row);
        }
    }
    assert(all.take(all.len() as int) =~= all);
    kept
}

impl TodoService {
    /// Deletes the todo `id` together with its results and progress rows.
    /// Tells whether there was such a todo; where there was none, nothing
    /// changes.
    pub fn delete_todo(&mut self, id: &str) -> (removed: bool)
        requires
            old(self)@.wf(),
        ensures
            final(self)@.wf(),
            removed == old(self)@.has_todo(id@),
            final(self)@ == after_delete(old(self)@, id@),
    {
        let key = id.to_owned();
        proof {
            lemma_delete_wf(self@, id@);
        }
        if self.db.find_todo(&key).is_none() {
            proof {
                lemma_delete_absent(self@, id@);
            }
            return false;
        }
        let mut todos: Vec<Todo> = Vec::new();
        std::mem::swap(&mut self.db.todos, &mut todos);
        self.db.todos = keep_other_todos(todos, &key);
        let mut results: Vec<ResearchResult> = Vec::new();
        std::mem::swap(&mut self.db.results, &mut results);
        self.db.results = keep_results_of_others(results, &key);
        let mut progress: Vec<ResearchProgress> = Vec::new();
        std::mem::swap(&mut self.db.progress, &mut progress);
        self.db.progress = keep_progress_of_others(progress, &key);
        assert(self@ =~= after_delete(old(self)@, id@));
        true
    }
}

/// The stored name of a status, as an owned string.
pub fn status_to_string(status: &TodoStatus) -> (name: String)
    ensures
        name@ == status_text(*status),
{
    status.as_str().to_owned()
}

/// Reads a stored status name; an unknown name reads as `Pending`.
pub fn string_to_status(s: String) -> (status: TodoStatus)
    ensures
        status == status_from_text(s@),
{
    TodoStatus::from_str(s.as_str())
}

/// The stored number of a priority.
pub fn priority_to_i32(priority: &TodoPriority) -> (rank: i32)
    ensures
        rank == priority_rank(*priority),
{
    match priority {
        TodoPriority::Low => 0,
        TodoPriority::Medium => 1,
        TodoPriority::High => 2,
    }
}

/// Reads a stored priority number; an unknown number reads as `Medium`.
pub fn i32_to_priority(i: i32) -> (priority: TodoPriority)
    ensures
        priority == priority_from_rank(i as int),
{
    if i == 0 {
        TodoPriority::Low
    } else if i == 2 {
        TodoPriority::High
    } else {
        TodoPriority::Medium
    }
}

/// The search text occurs in the title, in the description or in the url of
/// the todo. Characters are compared as they are: upper and lower case are
/// different characters, and no character of the search text stands for
/// anything but itself. A description or url that is absent holds no text
/// at all, not even the empty text.
pub open spec fn matches_search(row: TodoView, needle: Seq<char>) -> bool {
    ||| contains_text(row.title, needle)
    ||| match row.description {
        Some(description) => contains_text(description, needle),
        None => false,
    }
    ||| match row.url {
        Some(url) => contains_text(url, needle),
        None => false,
    }
}

/// Whether a listing under `filter` selects the todo: the status is the one
/// asked for or, where none is asked for, any but `Archived`; the priority
/// is the one asked for, if any; the search text, if any, occurs in the todo.
pub open spec fn selects(filter: TodoFilter, row: TodoView) -> bool {
    &&& match filter.status {
        Some(status) => row.status == status,
        None => row.status != TodoStatus::Archived,
    }
    &&& match filter.priority {
        Some(priority) => row.priority == priority,
        None => true,
    }
    &&& match filter.search {
        Some(needle) => matches_search(row, needle@),
        None => true,
    }
}

/// What a listing orders a todo by: priority, then creation time, then id.
pub open spec fn todo_sort_key(row: TodoView) -> SortKeyView {
    SortKeyView { major: priority_rank(row.priority) as i64, minor: row.created_at, name: row.id }
}

/// `a` is listed before `b`: the more urgent todo first; of equally urgent
/// todos the one created later first; of todos created at the same instant
/// the one whose id comes first in dictionary order.
pub open spec fn listed_before(a: TodoView, b: TodoView) -> bool {
    key_before(todo_sort_key(a), todo_sort_key(b))
}

/// The order of listings, as a relation.
pub open spec fn listing_order() -> spec_fn(TodoView, TodoView) -> bool {
    |a: TodoView, b: TodoView| listed_before(a, b)
}

/// `out` is the listing of `rows` under `filter`: it holds the todos that
/// the filter selects, and no others, each before every todo that it is
/// listed before.
pub open spec fn is_listing(rows: Seq<TodoView>, filter: TodoFilter, out: Seq<TodoView>) -> bool {
    &&& strictly_sorted(out, listing_order())
    &&& forall|row: TodoView| #[trigger]
        out.contains(row) <==> rows.contains(row) && selects(filter, row)
}

/// The listing of `rows` under `filter`, before `limit` and `offset` apply.
pub open spec fn listing(rows: Seq<TodoView>, filter: TodoFilter) -> Seq<TodoView> {
    choose|out: Seq<TodoView>| is_listing(rows, filter, out)
}

/// Where the page of a listing of `len` rows starts.
pub open spec fn page_start(len: nat, offset: Option<u32>) -> int {
    match offset {
        Some(skip) => if skip <= len {
            skip as int
        } else {
            len as int
        },
        None => 0,
    }
}

/// Where the page of a listing of `len` rows ends.
pub open spec fn page_end(len: nat, offset: Option<u32>, limit: Option<u32>) -> int {
    let start = page_start(len, offset);
    match limit {
        Some(count) => if start + count <= len {
            start + count
        } else {
            len as int
        },
        None => len as int,
    }
}

/// The page of `all` that `offset` and `limit` ask for: `offset` rows are
/// skipped, then at most `limit` rows follow; without an offset none is
/// skipped, without a limit all that is left follows.
pub open spec fn page<A>(all: Seq<A>, offset: Option<u32>, limit: Option<u32>) -> Seq<A> {
    all.subrange(page_start(all.len(), offset), page_end(all.len(), offset, limit))
}

/// No two todos are listed before each other.
pub proof fn lemma_listing_order_asymmetric()
    ensures
        asymmetric(listing_order()),
{
    assert forall|x: TodoView, y: TodoView| !(#[trigger] listing_order()(x, y) && listing_order()(
        y,
        x,
    )) by {
        lemma_key_before_asymmetric(todo_sort_key(x), todo_sort_key(y));
    }
}

/// There is one listing of given todos under a given filter: whatever
/// sequence is a listing is the listing.
pub proof fn lemma_listing_unique(rows: Seq<TodoView>, filter: TodoFilter, out: Seq<TodoView>)
    requires
        is_listing(rows, filter, out),
    ensures
        out == listing(rows, filter),
        is_listing(rows, filter, listing(rows, filter)),
{
    let chosen = listing(rows, filter);
    assert(is_listing(rows, filter, chosen));
    lemma_listing_order_asymmetric();
    assert forall|row: TodoView| out.contains(row) <==> chosen.contains(row) by {}
    lemma_sorted_same_members(out, chosen, listing_order());
}

/// Todos with distinct ids always have a listing.
pub proof fn lemma_listing_exists(rows: Seq<TodoView>, filter: TodoFilter)
    requires
        distinct_by(rows, todo_key()),
    ensures
        is_listing(rows, filter, listing(rows, filter)),
{
    lemma_listing_order_asymmetric();
    assert forall|x: TodoView, y: TodoView, z: TodoView| #[trigger]
        listing_order()(x, y) && #[trigger] listing_order()(y, z) implies listing_order()(
        x,
        z,
    ) by {
        lemma_key_before_transitive(todo_sort_key(x), todo_sort_key(y), todo_sort_key(z));
    }
    assert forall|i: int, j: int| 0 <= i < j < rows.len() implies listing_order()(
        #[trigger] rows[i],
        #[trigger] rows[j],
    ) || listing_order()(rows[j], rows[i]) by {
        assert(todo_key()(rows[i]) != todo_key()(rows[j]));
        lemma_key_before_total(todo_sort_key(rows[i]), todo_sort_key(rows[j]));
    }
    let out = lemma_sorted_selection_exists(
        rows,
        listing_order(),
        |row: TodoView| selects(filter, row),
    );
    assert(is_listing(rows, filter, out));
}

/// A listing without a status filter holds no archived todo, and a listing
/// that asks for a status holds todos of that status only. The same is true
/// of every page of the listing. Every todo listed is stored and selected.
pub proof fn lemma_listing_statuses(
    rows: Seq<TodoView>,
    filter: TodoFilter,
    offset: Option<u32>,
    limit: Option<u32>,
    i: int,
)
    requires
        distinct_by(rows, todo_key()),
        0 <= i < page(listing(rows, filter), offset, limit).len(),
    ensures
        filter.status is None ==> page(listing(rows, filter), offset, limit)[i].status
            != TodoStatus::Archived,
        filter.status is Some ==> page(listing(rows, filter), offset, limit)[i].status
            == filter.status->Some_0,
        rows.contains(page(listing(rows, filter), offset, limit)[i]),
        selects(filter, page(listing(rows, filter), offset, limit)[i]),
{
    lemma_listing_exists(rows, filter);
    let all = listing(rows, filter);
    let row = page(all, offset, limit)[i];
    let k = page_start(all.len(), offset) + i;
    assert(all[k] == row);
    assert(all.contains(row));
}

/// Whether the listing under `filter` selects `row`.
pub fn selects_row(filter: &TodoFilter, row: &Todo) -> (selected: bool)
    ensures
        selected == selects(*filter, row@),
{
    let status_ok = match filter.status {
        Some(status) => row.status == status,
        None => row.status != TodoStatus::Archived,
    };
    if !status_ok {
        return false;
    }
    let priority_ok = match filter.priority {
        Some(priority) => row.priority == priority,
        None => true,
    };
    if !priority_ok {
        return false;
    }
    match &filter.search {
        Some(needle) => {
            if text_contains(row.title.as_str(), needle.as_str()) {
                return true;
            }
            let in_description = match &row.description {
                Some(description) => text_contains(description.as_str(), needle.as_str()),
                None => false,
            };
            if in_description {
                return true;
            }
            match &row.url {
                Some(url) => text_contains(url.as_str(), needle.as_str()),
                None => false,
            }
        },
        None => true,
    }
}

/// The sort key of a todo.
pub fn sort_key_of(row: &Todo) -> (key: SortKey)
    ensures
        key@ == todo_sort_key(row@),
{
    let major: i64 = match row.priority {
        TodoPriority::Low => 0,
        TodoPriority::Medium => 1,
        TodoPriority::High => 2,
    };
    SortKey { major, minor: row.created_at, name: chars_of(row.id.as_str()) }
}

impl TodoService {
    /// Lists the todos that `filter` selects, the most urgent first, among
    /// equally urgent ones the newest first, then by id; of that listing the
    /// page that `offset` and `limit` ask for. The search is sensitive to
    /// case and knows no wildcards.
    pub fn list_todos(&self, filter: TodoFilter) -> (todos: Vec<Todo>)
        requires
            self@.wf(),
        ensures
            is_listing(self@.todos, filter, listing(self@.todos, filter)),
            todo_views(todos@) == page(
                listing(self@.todos, filter),
                filter.offset,
                filter.limit,
            ),
    {
        let ghost rows = self@.todos;
        let mut picked: Vec<usize> = Vec::new();
        let mut keys: Vec<SortKey> = Vec::new();
        let mut i: usize = 0;
        while i < self.db.todos.len()
            invariant
                i <= self.db.todos@.len(),
                rows == self@.todos,
                picked@.len() == keys@.len(),
                forall|x: int|
                    0 <= x < picked@.len() ==> (#[trigger] picked@[x]) < i && selects(
                        filter,
                        rows[picked@[x] as int],
                    ) && keys@[x]@ == todo_sort_key(rows[picked@[x] as int]),
                forall|x: int, y: int|
                    0 <= x < y < picked@.len() ==> (#[trigger] picked@[x]) < (
                    #[trigger] picked@[y]),
                forall|k: usize| k < i && selects(filter, rows[k as int]) ==> #[trigger]
                    picked@.contains(k),
            decreases self.db.todos@.len() - i,
        {
            if selects_row(&filter, &self.db.todos[i]) {
                let ghost before = picked@;
                picked.push(i);
                keys.push(sort_key_of(&self.db.todos[i]));
                proof {
                    assert(picked@[before.len() as int] == i);
                    assert forall|k: usize| k < i + 1 && selects(filter, rows[k as int])
                        implies #[trigger] picked@.contains(k) by {
                        if k < i {
                            assert(before.contains(k));
                            let w = choose|w: int| 0 <= w < before.len() && before[w] == k;
                            assert(picked@[w] == k);
                        }
                    }
                }
            }
            i += 1;
        }
        let ghost kv = key_views(keys@);
        proof {
            assert forall|x: int, y: int| 0 <= x < y < kv.len() implies kv[x].name
                != kv[y].name by {
                assert(picked@[x] < picked@[y]);
                assert(todo_key()(rows[picked@[x] as int]) != todo_key()(rows[picked@[y] as int]));
            }
        }
        let order = rank(&keys);
        let n: usize = order.len();
        let ghost all = Seq::new(n as nat, |p: int| rows[picked@[order@[p] as int] as int]);
        proof {
            assert forall|p: int, q: int| 0 <= p < q < all.len() implies listing_order()(
                #[trigger] all[p],
                #[trigger] all[q],
            ) by {
                assert(key_before(key_at(kv, order@, p), key_at(kv, order@, q)));
            }
            assert forall|row: TodoView| #[trigger]
                all.contains(row) <==> rows.contains(row) && selects(filter, row) by {
                if all.contains(row) {
                    let p = choose|p: int| 0 <= p < all.len() && all[p] == row;
                    assert(order@[p] < keys@.len());
                    assert(picked@[order@[p] as int] < i);
                    assert(rows[picked@[order@[p] as int] as int] == row);
                }
                if rows.contains(row) && selects(filter, row) {
                    let k = choose|k: int| 0 <= k < rows.len() && rows[k] == row;
                    assert(picked@.contains(k as usize));
                    let x = choose|x: int| 0 <= x < picked@.len() && picked@[x] == k as usize;
                    assert(order@.contains(x as usize));
                    let p = choose|p: int| 0 <= p < order@.len() && order@[p] == x as usize;
                    assert(all[p] == row);
                }
            }
            lemma_listing_unique(rows, filter, all);
        }
        let start: usize = match filter.offset {
            Some(skip) => if (skip as usize) <= n {
                skip as usize
            } else {
                n
            },
            None => 0,
        };
        let end: usize = match filter.limit {
            Some(count) => if (count as usize) <= n - start {
                start + count as usize
            } else {
                n
            },
            None => n,
        };
        let mut todos: Vec<Todo> = Vec::new();
        let mut p: usize = start;
        while p < end
            invariant
                start <= p <= end <= n,
                n == order@.len(),
                n == all.len(),
                rows == self@.todos,
                forall|q: int| 0 <= q < n ==> (#[trigger] order@[q]) < picked@.len(),
                forall|x: int| 0 <= x < picked@.len() ==> (#[trigger] picked@[x]) < rows.len(),
                forall|q: int| 0 <= q < n ==> #[trigger] all[q] == rows[picked@[order@[q] as int] as int],
                todo_views(todos@) == all.subrange(start as int, p as int),
            decreases end - p,
        {
            let place = picked[order[p]];
            let copy = self.db.todos[place].clone();
            proof {
                assert(copy@ == all[p as int]);
                assert(todo_views(todos@.push(copy)) =~= todo_views(todos@).push(copy@));
                assert(all.subrange(start as int, p + 1) =~= all.subrange(start as int, p as int).push(
                    all[p as int],
                ));
            }
            todos.push(copy);
            p += 1;
        }
        todos
    }
}

/// How many of the todos have the status `status`.
pub open spec fn count_status(rows: Seq<TodoView>, status: TodoStatus) -> nat {
    rows.filter(|row: TodoView| row.status == status).len()
}

/// Every todo has one of the five statuses, so the five counts add up to
/// the number of todos.
pub proof fn lemma_counts_add_up(rows: Seq<TodoView>)
    ensures
        count_status(rows, TodoStatus::Pending) + count_status(rows, TodoStatus::Researching)
            + count_status(rows, TodoStatus::Review) + count_status(rows, TodoStatus::Done)
            + count_status(rows, TodoStatus::Archived) == rows.len(),
    decreases rows.len(),
{
    reveal(Seq::filter);
    if rows.len() > 0 {
        lemma_counts_add_up(rows.drop_last());
    }
}

/// A todo more of a status makes the count of that status one higher and
/// leaves the other counts.
pub proof fn lemma_count_push(rows: Seq<TodoView>, row: TodoView, status: TodoStatus)
    ensures
        count_status(rows.push(row), status) == count_status(rows, status) + if row.status
            == status {
            1nat
        } else {
            0nat
        },
        count_status(rows, status) <= rows.len(),
{
    Seq::lemma_filter_push(rows, row, |r: TodoView| r.status == status);
    rows.lemma_filter_len(|r: TodoView| r.status == status);
}

impl TodoService {
    /// Counts the todos of each status, and all todos. A status that no
    /// todo has is counted as zero.
    pub fn status_counts(&self) -> (counts: StatusCounts)
        ensures
            counts.pending == count_status(self@.todos, TodoStatus::Pending),
            counts.researching == count_status(self@.todos, TodoStatus::Researching),
            counts.review == count_status(self@.todos, TodoStatus::Review),
            counts.done == count_status(self@.todos, TodoStatus::Done),
            counts.archived == count_status(self@.todos, TodoStatus::Archived),
            counts.total == self@.todos.len(),
    {
        let ghost rows = self@.todos;
        let mut counts = StatusCounts {
            pending: 0,
            researching: 0,
            review: 0,
            done: 0,
            archived: 0,
            total: 0,
        };
        let mut i: usize = 0;
        proof {
            reveal(Seq::filter);
            assert(rows.take(0) =~= Seq::<TodoView>::empty());
        }
        while i < self.db.todos.len()
            invariant
                i <= self.db.todos@.len(),
                rows == self@.todos,
                counts.pending == count_status(rows.take(i as int), TodoStatus::Pending),
                counts.researching == count_status(rows.take(i as int), TodoStatus::Researching),
                counts.review == count_status(rows.take(i as int), TodoStatus::Review),
                counts.done == count_status(rows.take(i as int), TodoStatus::Done),
                counts.archived == count_status(rows.take(i as int), TodoStatus::Archived),
                counts.total == i,
            decreases self.db.todos@.len() - i,
        {
            proof {
                let done = rows.take(i as int);
                assert(rows.take(i + 1) =~= done.push(rows[i as int]));
                lemma_count_push(done, rows[i as int], TodoStatus::Pending);
                lemma_count_push(done, rows[i as int], TodoStatus::Researching);
                lemma_count_push(done, rows[i as int], TodoStatus::Review);
                lemma_count_push(done, rows[i as int], TodoStatus::Done);
                lemma_count_push(done, rows[i as int], TodoStatus::Archived);
            }
            match self.db.todos[i].status {
                TodoStatus::Pending => {
                    counts.pending = counts.pending + 1;
                },
                TodoStatus::Researching => {
                    counts.researching = counts.researching + 1;
                },
                TodoStatus::Review => {
                    counts.review = counts.review + 1;
                },
                TodoStatus::Done => {
                    counts.done = counts.done + 1;
                },
                TodoStatus::Archived => {
                    counts.archived = counts.archived + 1;
                },
            }
            counts.total = counts.total + 1;
            i += 1;
        }
        assert(rows.take(rows.len() as int) =~= rows);
        counts
    }
}

} // verus!
