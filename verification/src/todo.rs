//! The commands that an application gives: each works on the repository
//! that it is handed.

use vstd::prelude::*;
use vstd::string::{StrSliceExecFns, StringExecFns};
use crate::clock::{now_millis, parse_millis, parsed_millis};
use crate::db::research_service::{completed, found_result, latest_of, latest_result_in,
    lemma_completed_duration, result_outcome, ResearchService};
use crate::db::todo_service::{after_delete, asks_empty_title, count_status, created,
    found_outcome, found_todo, is_listing, listing, todo_outcome, updated, TodoService};
use crate::db::{todo_views, ServiceError, StorageError, StoreView, ValidationError};
use crate::ident::fresh_id;
use crate::models::research_result::{ResearchResult, ResearchResultView, ResearchStatus};
use crate::models::todo::{status_parsed, CreateTodoRequest, Todo, TodoFilter, TodoStatus,
    TodoView, UpdateTodoRequest};

verus! {

/// What the short form of creating a todo takes.
#[derive(Debug)]
pub struct CreateTodoInput {
    pub title: String,
    pub description: Option<String>,
    pub url: Option<String>,
}

/// What the short form of changing a todo takes.
#[derive(Debug)]
pub struct UpdateTodoInput {
    pub title: Option<String>,
    pub description: Option<String>,
    pub url: Option<String>,
    pub status: Option<TodoStatus>,
}

/// A todo together with its latest research result.
#[derive(Debug, PartialEq, Eq)]
pub struct TodoWithResearch {
    pub todo: Todo,
    pub research: Option<ResearchResult>,
}

impl Clone for CreateTodoInput {
    fn clone(&self) -> (copy: Self)
        ensures
            copy == *self,
    {
        CreateTodoInput {
            title: self.title.clone(),
            description: self.description.clone(),
            url: self.url.clone(),
        }
    }
}

impl Clone for UpdateTodoInput {
    fn clone(&self) -> (copy: Self)
        ensures
            copy == *self,
    {
        UpdateTodoInput {
            title: self.title.clone(),
            description: self.description.clone(),
            url: self.url.clone(),
            status: self.status,
        }
    }
}

impl Clone for TodoWithResearch {
    fn clone(&self) -> (copy: Self)
        ensures
            copy == *self,
    {
        TodoWithResearch {
            todo: self.todo.clone(),
            research: match &self.research {
                Some(result) => Some(result.clone()),
                None => None,
            },
        }
    }
}

/// How many todos there are of each status, and in all. A count is never
/// negative, and as an unsigned number of 64 bits it holds every length that
/// a list of todos can have.
#[derive(Debug, Clone, Copy, PartialEq, Eq, Structural)]
pub struct StatusCounts {
    pub pending: u64,
    pub researching: u64,
    pub review: u64,
    pub done: u64,
    pub archived: u64,
    pub total: u64,
}

/// The full request that the short form of creating a todo stands for: no
/// priority and no service are named.
pub open spec fn create_request(input: CreateTodoInput) -> CreateTodoRequest {
    CreateTodoRequest {
        title: input.title,
        description: input.description,
        url: input.url,
        priority: None,
        preferred_service: None,
    }
}

/// The full partial update that the short form stands for: priority and
/// service are not named.
pub open spec fn update_request(input: UpdateTodoInput) -> UpdateTodoRequest {
    UpdateTodoRequest {
        title: input.title,
        description: input.description,
        url: input.url,
        status: input.status,
        priority: None,
        preferred_service: None,
    }
}

/// Whether a status name that a caller gives can be read: no name at all
/// can, and so can the name of a status.
pub open spec fn status_name_ok(name: Option<&str>) -> bool {
    match name {
        Some(name) => status_parsed(name@) is Some,
        None => true,
    }
}

/// The listing that a status name asks for: todos of the status of that
/// name, or, without a name, all todos but the archived ones.
pub open spec fn status_filter(name: Option<&str>) -> TodoFilter {
    TodoFilter {
        status: match name {
            Some(name) => status_parsed(name@),
            None => None,
        },
        search: None,
        priority: None,
        limit: None,
        offset: None,
    }
}

/// The value of a list of todos that may have been refused.
pub open spec fn listed_outcome(outcome: Result<Vec<Todo>, ServiceError>) -> Result<
    Seq<TodoView>,
    ServiceError,
> {
    match outcome {
        Ok(todos) => Ok(todo_views(todos@)),
        Err(error) => Err(error),
    }
}

/// Creates a pending todo of medium priority. See
/// [`TodoService::create_todo`].
pub fn create_todo(service: &mut TodoService, input: CreateTodoInput) -> (outcome: Result<
    Todo,
    ServiceError,
>)
    requires
        old(service)@.wf(),
    ensures
        final(service)@.wf(),
        exists|id: Seq<char>, now: i64|
            id.len() == 36 && created(
                old(service)@,
                create_request(input),
                id,
                now,
                final(service)@,
                todo_outcome(outcome),
            ),
        input.title@.len() == 0 <==> outcome == Err::<Todo, ServiceError>(
            ServiceError::Validation(ValidationError::EmptyTitle),
        ),
        input.title@.len() > 0 && (forall|i: int|
            0 <= i < old(service)@.todos.len() ==> (#[trigger] old(service)@.todos[i]).id.len()
                != 36) ==> outcome is Ok,
{
    let request = CreateTodoRequest {
        title: input.title,
        description: input.description,
        url: input.url,
        priority: None,
        preferred_service: None,
    };
    service.create_todo(request)
}

/// Lists the todos of the status that `status_filter` names, or, without a
/// name, all todos but the archived ones. A name that no status has is
/// refused.
pub fn get_todos(service: &TodoService, status_filter: Option<&str>) -> (outcome: Result<
    Vec<Todo>,
    ServiceError,
>)
    requires
        service@.wf(),
    ensures
        status_name_ok(status_filter) ==> is_listing(
            service@.todos,
            self::status_filter(status_filter),
            listing(service@.todos, self::status_filter(status_filter)),
        ),
        listed_outcome(outcome) == if status_name_ok(status_filter) {
            Ok::<Seq<TodoView>, ServiceError>(
                listing(service@.todos, self::status_filter(status_filter)),
            )
        } else {
            Err::<Seq<TodoView>, ServiceError>(
                ServiceError::Validation(ValidationError::UnknownStatus),
            )
        },
{
    let status = match status_filter {
        Some(name) => match TodoStatus::parse(name) {
            Some(status) => Some(status),
            None => {
                return Err(ServiceError::Validation(ValidationError::UnknownStatus));
            },
        },
        None => None,
    };
    let filter = TodoFilter { status, search: None, priority: None, limit: None, offset: None };
    let todos = service.list_todos(filter);
    proof {
        let all = listing(service@.todos, filter);
        assert(all.subrange(0, all.len() as int) =~= all);
    }
    Ok(todos)
}

/// The todo with the id `id`, or `None`.
pub fn get_todo_by_id(service: &TodoService, id: &str) -> (found: Option<Todo>)
    requires
        service@.wf(),
    ensures
        found_todo(found) == service@.lookup(id@),
{
    service.get_todo(id)
}

/// The value of a todo with its research that may be absent.
pub open spec fn found_with_research(found: Option<TodoWithResearch>) -> Option<
    (TodoView, Option<ResearchResultView>),
> {
    match found {
        Some(both) => Some((both.todo@, found_result(both.research))),
        None => None,
    }
}

/// The todo with the id `id` together with its latest research result, or
/// `None` where no such todo is stored.
pub fn get_todo_with_research(service: &TodoService, id: &str) -> (found: Option<TodoWithResearch>)
    requires
        service@.wf(),
    ensures
        found_with_research(found) == match service@.lookup(id@) {
            Some(todo) => Some((todo, latest_of(service@.results, id@))),
            None => None,
        },
{
    match service.get_todo(id) {
        Some(todo) => {
            let research = latest_result_in(service.database(), id);
            Some(TodoWithResearch { todo, research })
        },
        None => None,
    }
}

/// Changes title, description, url and status as far as `input` names them.
/// See [`TodoService::update_todo`].
pub fn update_todo(service: &mut TodoService, id: &str, input: UpdateTodoInput) -> (outcome: Result<
    Option<Todo>,
    ServiceError,
>)
    requires
        old(service)@.wf(),
    ensures
        final(service)@.wf(),
        exists|now: i64|
            updated(
                old(service)@,
                id@,
                update_request(input),
                now,
                final(service)@,
                found_outcome(outcome),
            ),
        outcome is Err <==> old(service)@.has_todo(id@) && asks_empty_title(
            update_request(input),
        ),
        outcome == Ok::<Option<Todo>, ServiceError>(None) <==> !old(service)@.has_todo(id@),
        !old(service)@.has_todo(id@) ==> final(service)@ == old(service)@,
{
    let request = UpdateTodoRequest {
        title: input.title,
        description: input.description,
        url: input.url,
        status: input.status,
        priority: None,
        preferred_service: None,
    };
    service.update_todo(id, request)
}

/// Deletes the todo `id` with all that belongs to it; tells whether there
/// was such a todo.
pub fn delete_todo(service: &mut TodoService, id: &str) -> (removed: bool)
    requires
        old(service)@.wf(),
    ensures
        final(service)@.wf(),
        removed == old(service)@.has_todo(id@),
        final(service)@ == after_delete(old(service)@, id@),
{
    service.delete_todo(id)
}

/// Counts the todos of each status, and all todos.
pub fn get_status_counts(service: &TodoService) -> (counts: StatusCounts)
    ensures
        counts.pending == count_status(service@.todos, TodoStatus::Pending),
        counts.researching == count_status(service@.todos, TodoStatus::Researching),
        counts.review == count_status(service@.todos, TodoStatus::Review),
        counts.done == count_status(service@.todos, TodoStatus::Done),
        counts.archived == count_status(service@.todos, TodoStatus::Archived),
        counts.total == service@.todos.len(),
{
    service.status_counts()
}

/// The result that saving research records before it is stamped: completed,
/// from `source`, with neither prompt nor payload; started at `started_at`
/// or, where that is absent, at the clock reading `now`.
pub open spec fn saved_result(
    id: Seq<char>,
    todo_id: Seq<char>,
    source: Seq<char>,
    content: Seq<char>,
    raw_html: Option<Seq<char>>,
    started_at: Option<i64>,
    now: i64,
) -> ResearchResultView {
    ResearchResultView {
        id,
        todo_id,
        service: source,
        prompt: None,
        content,
        raw_html,
        metadata: None,
        started_at: match started_at {
            Some(at) => at,
            None => now,
        },
        completed_at: now,
        duration_seconds: 0,
        status: ResearchStatus::Completed,
        created_at: now,
    }
}

/// The time that saved research took, where the store's clock is not ahead
/// of the reading `now` and the start is known: the result was completed at
/// `now`, and research that started a whole number of seconds before `now`
/// took that many seconds.
pub proof fn lemma_saved_duration(
    before: StoreView,
    id: Seq<char>,
    todo_id: Seq<char>,
    source: Seq<char>,
    content: Seq<char>,
    raw_html: Option<Seq<char>>,
    started_at: i64,
    now: i64,
    after: StoreView,
    row: ResearchResultView,
    seconds: int,
)
    requires
        completed(
            before,
            todo_id,
            saved_result(id, todo_id, source, content, raw_html, Some(started_at), now),
            now,
            after,
            Ok(row),
        ),
        before.clock <= now,
        now - started_at == 1000 * seconds,
    ensures
        row.completed_at == now,
        row.started_at == started_at,
        row.duration_seconds == seconds,
        row.todo_id == todo_id,
{
    lemma_completed_duration(
        before,
        todo_id,
        saved_result(id, todo_id, source, content, raw_html, Some(started_at), now),
        now,
        after,
        row,
        seconds,
    );
}

/// The characters of an optional string slice.
pub open spec fn slice_view(o: Option<&str>) -> Option<Seq<char>> {
    match o {
        Some(s) => Some(s@),
        None => None,
    }
}

/// Records the finished research of `source` on the todo `todo_id` under an
/// id drawn at random, stamped by the system clock; `started_at` is read as
/// an RFC 3339 date and time, and stands for the clock reading where it
/// cannot be read. Which id and instant these are is not known beforehand;
/// for each the outcome is the one that [`save_research_result_at`] gives.
/// A todo that is not stored is always refused; for a stored todo the
/// research is refused only where the id drawn is taken.
pub fn save_research_result(
    service: &mut ResearchService,
    todo_id: &str,
    source: &str,
    content: &str,
    raw_html: Option<&str>,
    started_at: &str,
) -> (outcome: Result<ResearchResult, ServiceError>)
    requires
        old(service)@.wf(),
    ensures
        final(service)@.wf(),
        exists|id: Seq<char>, now: i64|
            id.len() == 36 && completed(
                old(service)@,
                todo_id@,
                saved_result(
                    id,
                    todo_id@,
                    source@,
                    content@,
                    slice_view(raw_html),
                    parsed_millis(started_at@),
                    now,
                ),
                now,
                final(service)@,
                result_outcome(outcome),
            ),
        !old(service)@.has_todo(todo_id@) ==> outcome == Err::<ResearchResult, ServiceError>(
            ServiceError::Storage(StorageError::MissingTodo),
        ) && final(service)@ == old(service)@,
        old(service)@.has_todo(todo_id@) && (forall|i: int|
            0 <= i < old(service)@.results.len() ==> (
            #[trigger] old(service)@.results[i]).id.len() != 36) ==> outcome is Ok,
{
    let id = fresh_id();
    let now = now_millis();
    let started = parse_millis(started_at);
    let ghost drawn = id@;
    let outcome = save_research_result_at(
        service,
        id,
        now,
        todo_id,
        source,
        content,
        raw_html,
        started,
    );
    assert(completed(
        old(service)@,
        todo_id@,
        saved_result(
            drawn,
            todo_id@,
            source@,
            content@,
            slice_view(raw_html),
            parsed_millis(started_at@),
            now,
        ),
        now,
        service@,
        result_outcome(outcome),
    ));
    outcome
}

/// Records the finished research of `source` on the todo `todo_id` under the
/// id `id`, with `now` as the reading of the clock and `started_at` as the
/// start of the research where it is known.
pub fn save_research_result_at(
    service: &mut ResearchService,
    id: String,
    now: i64,
    todo_id: &str,
    source: &str,
    content: &str,
    raw_html: Option<&str>,
    started_at: Option<i64>,
) -> (outcome: Result<ResearchResult, ServiceError>)
    requires
        old(service)@.wf(),
    ensures
        final(service)@.wf(),
        completed(
            old(service)@,
            todo_id@,
            saved_result(id@, todo_id@, source@, content@, slice_view(raw_html), started_at, now),
            now,
            final(service)@,
            result_outcome(outcome),
        ),
{
    let result = ResearchResult {
        id,
        todo_id: todo_id.to_owned(),
        service: source.to_owned(),
        prompt: None,
        content: content.to_owned(),
        raw_html: match raw_html {
            Some(html) => Some(html.to_owned()),
            None => None,
        },
        metadata: None,
        started_at: match started_at {
            Some(at) => at,
            None => now,
        },
        completed_at: now,
        duration_seconds: 0,
        status: ResearchStatus::Completed,
        created_at: now,
    };
    service.complete_research_at(now, todo_id, result)
}

/// The latest research result of the todo `todo_id`, or `None`.
pub fn get_research_by_todo_id(service: &ResearchService, todo_id: &str) -> (latest: Option<
    ResearchResult,
>)
    requires
        service@.wf(),
    ensures
        found_result(latest) == latest_of(service@.results, todo_id@),
{
    service.get_latest_result(todo_id)
}

/// The partial update that names the status `status` and nothing else.
pub open spec fn status_request(status: TodoStatus) -> UpdateTodoRequest {
    UpdateTodoRequest {
        title: None,
        description: None,
        url: None,
        status: Some(status),
        priority: None,
        preferred_service: None,
    }
}

fn set_status(service: &mut TodoService, id: &str, status: TodoStatus) -> (found: Option<Todo>)
    requires
        old(service)@.wf(),
    ensures
        final(service)@.wf(),
        exists|now: i64|
            updated(
                old(service)@,
                id@,
                status_request(status),
                now,
                final(service)@,
                Ok(found_todo(found)),
            ),
        found is Some <==> old(service)@.has_todo(id@),
{
    let request = UpdateTodoRequest {
        title: None,
        description: None,
        url: None,
        status: Some(status),
        priority: None,
        preferred_service: None,
    };
    match service.update_todo(id, request) {
        Ok(found) => found,
        Err(_) => None,
    }
}

/// Marks the todo `id` as under research and hands it back as it now
/// stands, or `None` where no such todo is stored. Whatever status the todo
/// had is overwritten.
pub fn start_research(service: &mut TodoService, id: &str) -> (found: Option<Todo>)
    requires
        old(service)@.wf(),
    ensures
        final(service)@.wf(),
        exists|now: i64|
            updated(
                old(service)@,
                id@,
                status_request(TodoStatus::Researching),
                now,
                final(service)@,
                Ok(found_todo(found)),
            ),
        found is Some <==> old(service)@.has_todo(id@),
{
    set_status(service, id, TodoStatus::Researching)
}

/// Puts the todo `id` back to pending, as when its research is cancelled,
/// and hands it back as it now stands, or `None` where no such todo is
/// stored. Whatever status the todo had is overwritten.
pub fn cancel_research(service: &mut TodoService, id: &str) -> (found: Option<Todo>)
    requires
        old(service)@.wf(),
    ensures
        final(service)@.wf(),
        exists|now: i64|
            updated(
                old(service)@,
                id@,
                status_request(TodoStatus::Pending),
                now,
                final(service)@,
                Ok(found_todo(found)),
            ),
        found is Some <==> old(service)@.has_todo(id@),
{
    set_status(service, id, TodoStatus::Pending)
}

/// How one character of a prompt is written inside a string in single
/// quotes: a single quote and a line feed are written with a backslash,
/// every other character as it is.
pub open spec fn quoted_char(c: char) -> Seq<char> {
    if c == '\'' {
        seq!['\\', '\'']
    } else if c == '\n' {
        seq!['\\', 'n']
    } else {
        seq![c]
    }
}

/// A text as it is written inside a string in single quotes.
pub open spec fn quoted(text: Seq<char>) -> Seq<char>
    decreases text.len(),
{
    if text.len() == 0 {
        Seq::empty()
    } else {
        quoted(text.drop_last()) + quoted_char(text.last())
    }
}

/// The prompt that asks a research service to research a todo.
pub open spec fn research_prompt(title: Seq<char>, description: Option<Seq<char>>) -> Seq<char> {
    "Please research: "@ + title + ". Context: "@ + match description {
        Some(description) => description,
        None => "No description provided"@,
    }
}

/// The call that starts the research of a todo in the view of a research
/// service: the id as it is, and the prompt quoted.
pub open spec fn script_text(
    id: Seq<char>,
    title: Seq<char>,
    description: Option<Seq<char>>,
) -> Seq<char> {
    "window.DeepResearch.start('"@ + id + "', '"@ + quoted(research_prompt(title, description))
        + "')"@
}

fn quote_into(out: &mut String, text: &str)
    ensures
        final(out)@ == old(out)@ + quoted(text@),
{
    let n = text.unicode_len();
    let mut i: usize = 0;
    proof {
        assert(text@.take(0) =~= Seq::<char>::empty());
        assert(out@ =~= old(out)@ + quoted(text@.take(0)));
    }
    while i < n
        invariant
            i <= n,
            n == text@.len(),
            out@ == old(out)@ + quoted(text@.take(i as int)),
        decreases n - i,
    {
        let c = text.get_char(i);
        let ghost before = out@;
        if c == '\'' {
            out.append("\\'");
            proof {
                reveal_strlit("\\'");
                assert("\\'"@ =~= seq!['\\', '\'']);
            }
        } else if c == '\n' {
            out.append("\\n");
            proof {
                reveal_strlit("\\n");
                assert("\\n"@ =~= seq!['\\', 'n']);
            }
        } else {
            out.append(text.substring_char(i, i + 1));
            assert(text@.subrange(i as int, i + 1) =~= seq![c]);
        }
        proof {
            let next = text@.take(i + 1);
            assert(next.drop_last() =~= text@.take(i as int));
            assert(next.last() == c);
            assert(out@ == before + quoted_char(c));
            assert(out@ =~= old(out)@ + quoted(next));
        }
        i += 1;
    }
    assert(text@.take(n as int) =~= text@);
}

/// Writes the call that starts the research of the todo `id` in the view of
/// a research service.
pub fn research_script(id: &str, title: &str, description: Option<&str>) -> (script: String)
    ensures
        script@ == script_text(id@, title@, slice_view(description)),
{
    let mut prompt = String::new();
    prompt.append("Please research: ");
    prompt.append(title);
    prompt.append(". Context: ");
    match description {
        Some(description) => {
            prompt.append(description);
        },
        None => {
            prompt.append("No description provided");
        },
    }
    assert(prompt@ =~= research_prompt(title@, slice_view(description)));
    let mut script = String::new();
    script.append("window.DeepResearch.start('");
    script.append(id);
    script.append("', '");
    quote_into(&mut script, prompt.as_str());
    script.append("')");
    assert(script@ =~= script_text(id@, title@, slice_view(description)));
    script
}

} // verus!
