//! The research repository: progress rows of attempts under way, and the
//! results of attempts that ended.

use vstd::prelude::*;
use crate::clock::{later, later_of, lemma_whole_seconds_exact, now_millis, seconds_between,
    whole_seconds};
use crate::db::{has_progress_key, has_result_id, has_todo_id, lemma_progress_unique,
    lemma_todo_unique, progress_key, progress_views, progress_with_key, result_key, result_views,
    todo_key, todo_row_ok, Database, ServiceError, StorageError, StoreView};
use crate::models::research_result::{research_status_from_text, research_status_text,
    stage_from_text, stage_text, CreateResearchRequest, ResearchProgress, ResearchProgressView,
    ResearchResult, ResearchResultView, ResearchStage, ResearchStatus};
use crate::models::todo::{Todo, TodoStatus, TodoView};
use crate::ranking::{key_at, key_before, key_views, lemma_key_before_asymmetric,
    lemma_key_before_total, lemma_key_before_transitive, rank, SortKey, SortKeyView};
use crate::rows::{asymmetric, distinct_by, lemma_filter_keeps_distinct, lemma_filter_members,
    lemma_sorted_same_members, lemma_sorted_selection_exists, strictly_sorted};
use crate::text::{chars_of, same_text};

verus! {

/// The repository of research results and progress rows. It owns the store
/// that it works on.
pub struct ResearchService {
    pub(crate) db: Database,
}

impl View for ResearchService {
    type V = StoreView;

    closed spec fn view(&self) -> StoreView {
        self.db@
    }
}

/// The stored name of a stage, as an owned string.
pub fn stage_to_string(stage: &ResearchStage) -> (name: String)
    ensures
        name@ == stage_text(*stage),
{
    match stage {
        ResearchStage::Searching => "searching".to_owned(),
        ResearchStage::Analyzing => "analyzing".to_owned(),
        ResearchStage::Synthesizing => "synthesizing".to_owned(),
        ResearchStage::Completed => "completed".to_owned(),
    }
}

/// Reads a stored stage name; an unknown name reads as `Searching`.
pub fn string_to_research_stage(s: String) -> (stage: ResearchStage)
    ensures
        stage == stage_from_text(s@),
{
    if same_text(s.as_str(), "analyzing") {
        ResearchStage::Analyzing
    } else if same_text(s.as_str(), "synthesizing") {
        ResearchStage::Synthesizing
    } else if same_text(s.as_str(), "completed") {
        ResearchStage::Completed
    } else {
        ResearchStage::Searching
    }
}

/// The stored name of a research status, as an owned string.
pub fn status_to_string(status: &ResearchStatus) -> (name: String)
    ensures
        name@ == research_status_text(*status),
{
    match status {
        ResearchStatus::Completed => "completed".to_owned(),
        ResearchStatus::Failed => "failed".to_owned(),
        ResearchStatus::Timeout => "timeout".to_owned(),
    }
}

/// Reads a stored research status name; an unknown name reads as `Failed`.
pub fn string_to_research_status(s: String) -> (status: ResearchStatus)
    ensures
        status == research_status_from_text(s@),
{
    if same_text(s.as_str(), "completed") {
        ResearchStatus::Completed
    } else if same_text(s.as_str(), "timeout") {
        ResearchStatus::Timeout
    } else {
        ResearchStatus::Failed
    }
}

/// The value of what an operation hands back where it hands back a progress
/// row.
pub open spec fn progress_outcome(outcome: Result<ResearchProgress, ServiceError>) -> Result<
    ResearchProgressView,
    ServiceError,
> {
    match outcome {
        Ok(row) => Ok(row@),
        Err(error) => Err(error),
    }
}

/// The value of what an operation hands back where it hands back a result.
pub open spec fn result_outcome(outcome: Result<ResearchResult, ServiceError>) -> Result<
    ResearchResultView,
    ServiceError,
> {
    match outcome {
        Ok(row) => Ok(row@),
        Err(error) => Err(error),
    }
}

/// The value of a progress row that may be absent.
pub open spec fn found_progress(found: Option<ResearchProgress>) -> Option<ResearchProgressView> {
    match found {
        Some(row) => Some(row@),
        None => None,
    }
}

/// The value of a result that may be absent.
pub open spec fn found_result(found: Option<ResearchResult>) -> Option<ResearchResultView> {
    match found {
        Some(row) => Some(row@),
        None => None,
    }
}

/// The seconds that a newly opened attempt is expected to take.
pub const DEFAULT_ESTIMATE_SECONDS: i32 = 300;

/// The progress row of an attempt that has just been opened at `stamp`: it
/// is searching, at 0 percent, with the opening step and the default
/// estimate.
pub open spec fn opened_progress(
    todo_id: Seq<char>,
    service: Seq<char>,
    stamp: i64,
) -> ResearchProgressView {
    ResearchProgressView {
        todo_id,
        service,
        stage: ResearchStage::Searching,
        progress_percentage: 0,
        current_step: Some("Initializing research"@),
        estimated_remaining: Some(DEFAULT_ESTIMATE_SECONDS),
        updated_at: stamp,
    }
}

/// The progress rows but the one of `service` on the todo `todo_id`.
pub open spec fn progress_without(
    rows: Seq<ResearchProgressView>,
    todo_id: Seq<char>,
    service: Seq<char>,
) -> Seq<ResearchProgressView> {
    rows.filter(|row: ResearchProgressView| !(row.todo_id == todo_id && row.service == service))
}

/// The store after `row` took the place of whatever progress row there was
/// for its todo and service, at the instant `stamp`.
pub open spec fn with_progress(
    before: StoreView,
    row: ResearchProgressView,
    stamp: i64,
) -> StoreView {
    StoreView {
        progress: progress_without(before.progress, row.todo_id, row.service).push(row),
        clock: stamp,
        ..before
    }
}

/// What opening a research attempt does, given the reading of the clock. A
/// todo that is not stored is refused and the store stays as it was.
/// Otherwise a fresh progress row replaces whatever row the todo and the
/// service had, stamped with the later of the clock reading and the store's
/// own clock.
pub open spec fn opened(
    before: StoreView,
    request: CreateResearchRequest,
    now: i64,
    after: StoreView,
    outcome: Result<ResearchProgressView, ServiceError>,
) -> bool {
    if !before.has_todo(request.todo_id@) {
        &&& outcome == Err::<ResearchProgressView, ServiceError>(
            ServiceError::Storage(StorageError::MissingTodo),
        )
        &&& after == before
    } else {
        let stamp = later(before.clock, now);
        let row = opened_progress(request.todo_id@, request.service@, stamp);
        &&& outcome == Ok::<ResearchProgressView, ServiceError>(row)
        &&& after == with_progress(before, row, stamp)
    }
}

/// Moving the clock forward keeps every todo valid.
pub proof fn lemma_clock_forward(before: StoreView, stamp: i64, i: int)
    requires
        before.wf(),
        before.clock <= stamp,
        0 <= i < before.todos.len(),
    ensures
        todo_row_ok(before.todos[i], stamp),
{
}

/// Replacing the progress row of a stored todo, stamped no earlier than the
/// clock, keeps the store valid, and leaves one row for the todo and the
/// service.
pub proof fn lemma_with_progress_wf(before: StoreView, row: ResearchProgressView, stamp: i64)
    requires
        before.wf(),
        before.has_todo(row.todo_id),
        before.clock <= stamp,
    ensures
        with_progress(before, row, stamp).wf(),
        has_progress_key(with_progress(before, row, stamp).progress, row.todo_id, row.service),
        progress_with_key(with_progress(before, row, stamp).progress, row.todo_id, row.service)
            == row,
{
    let after = with_progress(before, row, stamp);
    let keep = |other: ResearchProgressView|
        !(other.todo_id == row.todo_id && other.service == row.service);
    let kept = before.progress.filter(keep);
    lemma_filter_keeps_distinct(before.progress, progress_key(), keep);
    lemma_filter_members(before.progress, keep);
    assert forall|i: int| 0 <= i < after.todos.len() implies todo_row_ok(
        #[trigger] after.todos[i],
        after.clock,
    ) by {
        lemma_clock_forward(before, stamp, i);
    }
    assert forall|i: int, j: int| 0 <= i < j < after.progress.len() implies progress_key()(
        #[trigger] after.progress[i],
    ) != progress_key()(#[trigger] after.progress[j]) by {
        assert(after.progress[i] == kept[i]);
        if j < kept.len() {
            assert(after.progress[j] == kept[j]);
        } else {
            assert(kept.contains(kept[i]));
        }
    }
    assert forall|i: int| 0 <= i < after.progress.len() implies has_todo_id(
        after.todos,
        (#[trigger] after.progress[i]).todo_id,
    ) by {
        if i < kept.len() {
            assert(after.progress[i] == kept[i]);
            assert(kept.contains(kept[i]));
            let k = choose|k: int| 0 <= k < before.progress.len() && before.progress[k] == kept[i];
            assert(has_todo_id(before.todos, before.progress[k].todo_id));
        }
    }
    assert(after.progress[kept.len() as int] == row);
    lemma_progress_unique(after, kept.len() as int);
}

/// The progress rows with `row` in the place of the row that has its todo
/// and service; every other row, and the order, stay.
pub open spec fn replaced_progress(
    rows: Seq<ResearchProgressView>,
    row: ResearchProgressView,
) -> Seq<ResearchProgressView> {
    Seq::new(
        rows.len(),
        |i: int|
            if rows[i].todo_id == row.todo_id && rows[i].service == row.service {
                row
            } else {
                rows[i]
            },
    )
}

/// The store after the progress row of `row`'s todo and service was
/// overwritten with `row`.
pub open spec fn with_progress_update(before: StoreView, row: ResearchProgressView) -> StoreView {
    StoreView { progress: replaced_progress(before.progress, row), ..before }
}

/// Overwriting a progress row keeps the store valid; where the todo and the
/// service have no row, nothing changes.
pub proof fn lemma_with_progress_update_wf(before: StoreView, row: ResearchProgressView)
    requires
        before.wf(),
    ensures
        with_progress_update(before, row).wf(),
        !has_progress_key(before.progress, row.todo_id, row.service) ==> with_progress_update(
            before,
            row,
        ) == before,
{
    let after = with_progress_update(before, row);
    assert forall|i: int| 0 <= i < after.progress.len() implies progress_key()(
        #[trigger] after.progress[i],
    ) == progress_key()(before.progress[i]) by {}
    assert forall|i: int, j: int| 0 <= i < j < after.progress.len() implies progress_key()(
        #[trigger] after.progress[i],
    ) != progress_key()(#[trigger] after.progress[j]) by {
        assert(progress_key()(before.progress[i]) != progress_key()(before.progress[j]));
    }
    assert forall|i: int| 0 <= i < after.progress.len() implies has_todo_id(
        after.todos,
        (#[trigger] after.progress[i]).todo_id,
    ) by {
        assert(has_todo_id(before.todos, before.progress[i].todo_id));
    }
    if !has_progress_key(before.progress, row.todo_id, row.service) {
        assert forall|i: int| 0 <= i < before.progress.len() implies #[trigger] after.progress[i]
            == before.progress[i] by {
            assert(!(before.progress[i].todo_id == row.todo_id && before.progress[i].service
                == row.service));
        }
        assert(after =~= before);
    }
}

/// The result as it is stored when its attempt is finalized at the instant
/// `stamp`: it was completed and stored at `stamp`, and it took the whole
/// seconds from its start to `stamp`. Everything else is carried over as the
/// caller gave it: the id, the todo that it belongs to, the service, the
/// prompt, the content, the captured page, the payload, the start and the
/// status.
pub open spec fn completed_result(result: ResearchResultView, stamp: i64) -> ResearchResultView {
    ResearchResultView {
        completed_at: stamp,
        duration_seconds: whole_seconds(result.started_at, stamp) as i64,
        created_at: stamp,
        ..result
    }
}

/// The todos with the one that has the id `todo_id` moved to review at the
/// instant `stamp`.
pub open spec fn reviewed_rows(rows: Seq<TodoView>, todo_id: Seq<char>, stamp: i64) -> Seq<
    TodoView,
> {
    Seq::new(
        rows.len(),
        |i: int|
            if rows[i].id == todo_id {
                TodoView { status: TodoStatus::Review, updated_at: stamp, ..rows[i] }
            } else {
                rows[i]
            },
    )
}

/// The store after the attempt on the todo `todo_id` was finalized with the
/// result `row` at the instant `stamp`: the result is stored behind the
/// results that are there, under the todo that it names itself; the progress
/// row of `row.service` on the todo `todo_id` is gone; and, only where the
/// result is `Completed`, the todo `todo_id` is in review and was last
/// changed at `stamp`. Every other todo, result and progress row stays.
pub open spec fn after_complete(
    before: StoreView,
    todo_id: Seq<char>,
    row: ResearchResultView,
    stamp: i64,
) -> StoreView {
    StoreView {
        todos: if row.status == ResearchStatus::Completed {
            reviewed_rows(before.todos, todo_id, stamp)
        } else {
            before.todos
        },
        results: before.results.push(row),
        progress: progress_without(before.progress, todo_id, row.service),
        clock: stamp,
    }
}

/// What finalizing a research attempt on the todo `todo_id` does, given the
/// reading of the clock. The attempt is refused where the todo `todo_id` is
/// not stored or the todo that the result names is not stored, and then
/// where the id of the result is taken; in these cases the store stays as
/// it was. Otherwise all of [`after_complete`] happens at once, and the
/// result is handed back as it was stored.
pub open spec fn completed(
    before: StoreView,
    todo_id: Seq<char>,
    result: ResearchResultView,
    now: i64,
    after: StoreView,
    outcome: Result<ResearchResultView, ServiceError>,
) -> bool {
    if !before.has_todo(todo_id) || !before.has_todo(result.todo_id) {
        &&& outcome == Err::<ResearchResultView, ServiceError>(
            ServiceError::Storage(StorageError::MissingTodo),
        )
        &&& after == before
    } else if has_result_id(before.results, result.id) {
        &&& outcome == Err::<ResearchResultView, ServiceError>(
            ServiceError::Storage(StorageError::DuplicateKey),
        )
        &&& after == before
    } else {
        let stamp = later(before.clock, now);
        let row = completed_result(result, stamp);
        &&& outcome == Ok::<ResearchResultView, ServiceError>(row)
        &&& after == after_complete(before, todo_id, row, stamp)
    }
}

/// Recording a result with a free id that names a stored todo, stamped no
/// earlier than the clock, keeps the store valid.
pub proof fn lemma_after_complete_wf(
    before: StoreView,
    todo_id: Seq<char>,
    row: ResearchResultView,
    stamp: i64,
)
    requires
        before.wf(),
        before.has_todo(row.todo_id),
        !has_result_id(before.results, row.id),
        before.clock <= stamp,
    ensures
        after_complete(before, todo_id, row, stamp).wf(),
{
    let after = after_complete(before, todo_id, row, stamp);
    let keep = |other: ResearchProgressView|
        !(other.todo_id == todo_id && other.service == row.service);
    lemma_filter_keeps_distinct(before.progress, progress_key(), keep);
    lemma_filter_members(before.progress, keep);
    assert(after.todos.len() == before.todos.len());
    assert forall|i: int| 0 <= i < after.todos.len() implies (#[trigger] after.todos[i]).id
        == before.todos[i].id && todo_row_ok(after.todos[i], after.clock) by {
        lemma_clock_forward(before, stamp, i);
    }
    assert forall|i: int, j: int| 0 <= i < j < after.todos.len() implies todo_key()(
        #[trigger] after.todos[i],
    ) != todo_key()(#[trigger] after.todos[j]) by {
        assert(todo_key()(before.todos[i]) != todo_key()(before.todos[j]));
    }
    assert forall|id: Seq<char>| has_todo_id(before.todos, id) implies has_todo_id(
        after.todos,
        id,
    ) by {
        let k = choose|k: int| 0 <= k < before.todos.len() && (#[trigger] before.todos[k]).id == id;
        assert(after.todos[k].id == id);
    }
    assert forall|i: int, j: int| 0 <= i < j < after.results.len() implies result_key()(
        #[trigger] after.results[i],
    ) != result_key()(#[trigger] after.results[j]) by {
        assert(after.results[i] == before.results[i]);
        if j < before.results.len() {
            assert(after.results[j] == before.results[j]);
        }
    }
    assert forall|i: int| 0 <= i < after.results.len() implies has_todo_id(
        after.todos,
        (#[trigger] after.results[i]).todo_id,
    ) by {
        if i < before.results.len() {
            assert(after.results[i] == before.results[i]);
        }
    }
    assert forall|i: int| 0 <= i < after.progress.len() implies has_todo_id(
        after.todos,
        (#[trigger] after.progress[i]).todo_id,
    ) by {
        assert(after.progress.contains(after.progress[i]));
        let k = choose|k: int|
            0 <= k < before.progress.len() && before.progress[k] == after.progress[i];
        assert(has_todo_id(before.todos, before.progress[k].todo_id));
    }
}

/// What finalizing an attempt on the todo `todo_id` changes, on a valid
/// store that holds that todo and the todo that the result names: one
/// result more, which is the last and is listed among the results of the
/// todo that it names, while the results stored before stay; no progress
/// row for `row.service` on the todo `todo_id`, while every other progress
/// row stays; and the todo `todo_id` in review, changed at `stamp`, exactly
/// where the result is `Completed`, while every other todo reads as before.
/// A result that is `Failed` or `Timeout` leaves every todo as it was.
pub proof fn lemma_after_complete_effects(
    before: StoreView,
    todo_id: Seq<char>,
    row: ResearchResultView,
    stamp: i64,
)
    requires
        before.wf(),
        before.has_todo(todo_id),
        before.has_todo(row.todo_id),
        !has_result_id(before.results, row.id),
        before.clock <= stamp,
    ensures
        after_complete(before, todo_id, row, stamp).wf(),
        after_complete(before, todo_id, row, stamp).results.len() == before.results.len() + 1,
        after_complete(before, todo_id, row, stamp).results.last() == row,
        forall|i: int|
            0 <= i < before.results.len() ==> #[trigger] after_complete(
                before,
                todo_id,
                row,
                stamp,
            ).results[i] == before.results[i],
        results_of(after_complete(before, todo_id, row, stamp).results, row.todo_id).contains(row),
        after_complete(before, todo_id, row, stamp).lookup_progress(todo_id, row.service)
            == None::<ResearchProgressView>,
        forall|other: ResearchProgressView| #[trigger]
            after_complete(before, todo_id, row, stamp).progress.contains(other)
                <==> before.progress.contains(other) && !(other.todo_id == todo_id
                && other.service == row.service),
        row.status == ResearchStatus::Completed ==> after_complete(
            before,
            todo_id,
            row,
            stamp,
        ).lookup(todo_id) == Some(
            TodoView { status: TodoStatus::Review, updated_at: stamp, ..before.todo(todo_id) },
        ),
        forall|other: Seq<char>|
            other != todo_id ==> after_complete(before, todo_id, row, stamp).lookup(other)
                == before.lookup(other),
        row.status != ResearchStatus::Completed ==> after_complete(before, todo_id, row, stamp).todos
            == before.todos,
{
    let after = after_complete(before, todo_id, row, stamp);
    lemma_after_complete_wf(before, todo_id, row, stamp);
    lemma_result_listing_exists(after.results, row.todo_id);
    assert(after.results[before.results.len() as int] == row);
    assert(after.results.contains(row));
    let keep = |other: ResearchProgressView|
        !(other.todo_id == todo_id && other.service == row.service);
    lemma_filter_members(before.progress, keep);
    if has_progress_key(after.progress, todo_id, row.service) {
        let k = choose|k: int|
            0 <= k < after.progress.len() && (#[trigger] after.progress[k]).todo_id == todo_id
                && after.progress[k].service == row.service;
        assert(after.progress.contains(after.progress[k]));
    }
    let k = choose|k: int| 0 <= k < before.todos.len() && (#[trigger] before.todos[k]).id == todo_id;
    lemma_todo_unique(before, k);
    assert(after.todos[k].id == todo_id);
    lemma_todo_unique(after, k);
    assert forall|other: Seq<char>| other != todo_id implies after.lookup(other) == before.lookup(
        other,
    ) by {
        if before.has_todo(other) {
            let m = choose|m: int|
                0 <= m < before.todos.len() && (#[trigger] before.todos[m]).id == other;
            lemma_todo_unique(before, m);
            assert(after.todos[m] == before.todos[m]);
            lemma_todo_unique(after, m);
        } else if after.has_todo(other) {
            let m = choose|m: int|
                0 <= m < after.todos.len() && (#[trigger] after.todos[m]).id == other;
            assert(before.todos[m].id == other);
        }
    }
}

/// The time that a finalized attempt took, where the store's clock is not
/// ahead of the reading `now`: the result was completed at `now`, and an
/// attempt that started a whole number of seconds before `now` took that
/// many seconds.
pub proof fn lemma_completed_duration(
    before: StoreView,
    todo_id: Seq<char>,
    result: ResearchResultView,
    now: i64,
    after: StoreView,
    row: ResearchResultView,
    seconds: int,
)
    requires
        completed(before, todo_id, result, now, after, Ok(row)),
        before.clock <= now,
        now - result.started_at == 1000 * seconds,
    ensures
        row.completed_at == now,
        row.started_at == result.started_at,
        row.duration_seconds == seconds,
{
    lemma_whole_seconds_exact(result.started_at, now, seconds);
}

/// What a listing of results orders a result by: completion time, then id.
pub open spec fn result_sort_key(row: ResearchResultView) -> SortKeyView {
    SortKeyView { major: 0, minor: row.completed_at, name: row.id }
}

/// `a` is listed before `b`: the result completed later first; of results
/// completed at the same instant the one whose id comes first in dictionary
/// order.
pub open spec fn result_before(a: ResearchResultView, b: ResearchResultView) -> bool {
    key_before(result_sort_key(a), result_sort_key(b))
}

/// The order of result listings, as a relation.
pub open spec fn result_order() -> spec_fn(ResearchResultView, ResearchResultView) -> bool {
    |a: ResearchResultView, b: ResearchResultView| result_before(a, b)
}

/// `out` is the listing of the results of the todo `todo_id`: it holds the
/// results of that todo, and no others, each before every result that it is
/// listed before.
pub open spec fn is_result_listing(
    rows: Seq<ResearchResultView>,
    todo_id: Seq<char>,
    out: Seq<ResearchResultView>,
) -> bool {
    &&& strictly_sorted(out, result_order())
    &&& forall|row: ResearchResultView| #[trigger]
        out.contains(row) <==> rows.contains(row) && row.todo_id == todo_id
}

/// The results of the todo `todo_id`, the latest first.
pub open spec fn results_of(rows: Seq<ResearchResultView>, todo_id: Seq<char>) -> Seq<
    ResearchResultView,
> {
    choose|out: Seq<ResearchResultView>| is_result_listing(rows, todo_id, out)
}

/// The latest result of the todo `todo_id`: the first of the listing of its
/// results, or nothing where it has none.
pub open spec fn latest_of(rows: Seq<ResearchResultView>, todo_id: Seq<char>) -> Option<
    ResearchResultView,
> {
    if results_of(rows, todo_id).len() > 0 {
        Some(results_of(rows, todo_id)[0])
    } else {
        None
    }
}

/// No two results are listed before each other.
pub proof fn lemma_result_order_asymmetric()
    ensures
        asymmetric(result_order()),
{
    assert forall|x: ResearchResultView, y: ResearchResultView| !(#[trigger] result_order()(x, y)
        && result_order()(y, x)) by {
        lemma_key_before_asymmetric(result_sort_key(x), result_sort_key(y));
    }
}

/// There is one listing of the results of a todo: whatever sequence is a
/// listing is the listing.
pub proof fn lemma_result_listing_unique(
    rows: Seq<ResearchResultView>,
    todo_id: Seq<char>,
    out: Seq<ResearchResultView>,
)
    requires
        is_result_listing(rows, todo_id, out),
    ensures
        out == results_of(rows, todo_id),
        is_result_listing(rows, todo_id, results_of(rows, todo_id)),
{
    let chosen = results_of(rows, todo_id);
    assert(is_result_listing(rows, todo_id, chosen));
    lemma_result_order_asymmetric();
    assert forall|row: ResearchResultView| out.contains(row) <==> chosen.contains(row) by {}
    lemma_sorted_same_members(out, chosen, result_order());
}

/// Results with distinct ids always have a listing for each todo.
pub proof fn lemma_result_listing_exists(rows: Seq<ResearchResultView>, todo_id: Seq<char>)
    requires
        distinct_by(rows, result_key()),
    ensures
        is_result_listing(rows, todo_id, results_of(rows, todo_id)),
{
    lemma_result_order_asymmetric();
    assert forall|x: ResearchResultView, y: ResearchResultView, z: ResearchResultView| #[trigger]
        result_order()(x, y) && #[trigger] result_order()(y, z) implies result_order()(x, z) by {
        lemma_key_before_transitive(result_sort_key(x), result_sort_key(y), result_sort_key(z));
    }
    assert forall|i: int, j: int| 0 <= i < j < rows.len() implies result_order()(
        #[trigger] rows[i],
        #[trigger] rows[j],
    ) || result_order()(rows[j], rows[i]) by {
        assert(result_key()(rows[i]) != result_key()(rows[j]));
        lemma_key_before_total(result_sort_key(rows[i]), result_sort_key(rows[j]));
    }
    let out = lemma_sorted_selection_exists(
        rows,
        result_order(),
        |row: ResearchResultView| row.todo_id == todo_id,
    );
    assert(is_result_listing(rows, todo_id, out));
}

/// The first result of a listing is the latest: no result of the todo was
/// completed after it.
pub proof fn lemma_latest_is_latest(rows: Seq<ResearchResultView>, todo_id: Seq<char>, i: int)
    requires
        distinct_by(rows, result_key()),
        0 <= i < rows.len(),
        rows[i].todo_id == todo_id,
    ensures
        results_of(rows, todo_id).len() > 0,
        results_of(rows, todo_id)[0].completed_at >= rows[i].completed_at,
        results_of(rows, todo_id)[0].todo_id == todo_id,
{
    lemma_result_listing_exists(rows, todo_id);
    let all = results_of(rows, todo_id);
    assert(rows.contains(rows[i]));
    assert(all.contains(rows[i]));
    let p = choose|p: int| 0 <= p < all.len() && all[p] == rows[i];
    if p > 0 {
        assert(result_order()(all[0], all[p]));
    }
    assert(all.contains(all[0]));
}

/// Where no stored result belongs to a todo, the listing of its results is
/// empty.
pub proof fn lemma_no_results(rows: Seq<ResearchResultView>, todo_id: Seq<char>)
    requires
        forall|row: ResearchResultView| rows.contains(row) ==> row.todo_id != todo_id,
    ensures
        results_of(rows, todo_id) == Seq::<ResearchResultView>::empty(),
{
    let none = Seq::<ResearchResultView>::empty();
    assert(is_result_listing(rows, todo_id, none));
    lemma_result_listing_unique(rows, todo_id, none);
}

/// The sort key of a result.
pub fn result_key_of(row: &ResearchResult) -> (key: SortKey)
    ensures
        key@ == result_sort_key(row@),
{
    SortKey { major: 0, minor: row.completed_at, name: chars_of(row.id.as_str()) }
}

fn keep_other_progress(rows: Vec<ResearchProgress>, todo_id: &String, service: &String) -> (kept:
    Vec<ResearchProgress>)
    ensures
        progress_views(kept@) == progress_without(progress_views(rows@), todo_id@, service@),
{
    let mut kept: Vec<ResearchProgress> = Vec::new();
    let ghost all = rows@;
    for row in it: rows
        invariant
            all == it.seq(),
            progress_views(kept@) == progress_without(
                progress_views(it.seq().take(it.index() as int)),
                todo_id@,
                service@,
            ),
    {
        proof {
            let done = it.seq().take(it.index() as int);
            assert(it.seq().take(it.index() + 1) =~= done.push(row));
            assert(progress_views(done.push(row)) =~= progress_views(done).push(row@));
            Seq::lemma_filter_push(
                progress_views(done),
                row@,
                |r: ResearchProgressView| !(r.todo_id == todo_id@ && r.service == service@),
            );
            assert(progress_views(kept@.push(row)) =~= progress_views(kept@).push(row@));
        }
        if !(row.todo_id == *todo_id && row.service == *service) {
            kept.push(row);
        }
    }
    assert(all.take(all.len() as int) =~= all);
    kept
}

/// The results of the todo `todo_id` in the store `db`, the latest first;
/// results completed at the same instant come in the order of their ids.
pub fn results_in(db: &Database, todo_id: &str) -> (results: Vec<ResearchResult>)
    requires
        db@.wf(),
    ensures
        is_result_listing(db@.results, todo_id@, results_of(db@.results, todo_id@)),
        result_views(results@) == results_of(db@.results, todo_id@),
{
    let key = todo_id.to_owned();
    let ghost rows = db@.results;
    let mut picked: Vec<usize> = Vec::new();
    let mut keys: Vec<SortKey> = Vec::new();
    let mut i: usize = 0;
    while i < db.results.len()
        invariant
            i <= db.results@.len(),
            rows == db@.results,
            key@ == todo_id@,
            picked@.len() == keys@.len(),
            forall|x: int|
                0 <= x < picked@.len() ==> (#[trigger] picked@[x]) < i
                    && rows[picked@[x] as int].todo_id == todo_id@ && keys@[x]@
                    == result_sort_key(rows[picked@[x] as int]),
            forall|x: int, y: int|
                0 <= x < y < picked@.len() ==> (#[trigger] picked@[x]) < (
                #[trigger] picked@[y]),
            forall|k: usize| k < i && rows[k as int].todo_id == todo_id@ ==> #[trigger]
                picked@.contains(k),
        decreases db.results@.len() - i,
    {
        if db.results[i].todo_id == key {
            let ghost before = picked@;
            picked.push(i);
            keys.push(result_key_of(&db.results[i]));
            proof {
                assert(picked@[before.len() as int] == i);
                assert forall|k: usize| k < i + 1 && rows[k as int].todo_id == todo_id@
                    implies #[trigger] picked@.contains(k) by {
                    if k < i {
                        assert(before.contains(k));
                        let w = choose|w: int| 0 <= w < before.len() && before[w] == k;
                        assert(picked@[w] == k);
                    }
                }
            }
        }
        i += 1;
    }
    let ghost kv = key_views(keys@);
    proof {
        assert forall|x: int, y: int| 0 <= x < y < kv.len() implies kv[x].name
            != kv[y].name by {
            assert(picked@[x] < picked@[y]);
            assert(result_key()(rows[picked@[x] as int]) != result_key()(
                rows[picked@[y] as int],
            ));
        }
    }
    let order = rank(&keys);
    let n: usize = order.len();
    let ghost all = Seq::new(n as nat, |p: int| rows[picked@[order@[p] as int] as int]);
    proof {
        assert forall|p: int, q: int| 0 <= p < q < all.len() implies result_order()(
            #[trigger] all[p],
            #[trigger] all[q],
        ) by {
            assert(key_before(key_at(kv, order@, p), key_at(kv, order@, q)));
        }
        assert forall|row: ResearchResultView| #[trigger]
            all.contains(row) <==> rows.contains(row) && row.todo_id == todo_id@ by {
            if all.contains(row) {
                let p = choose|p: int| 0 <= p < all.len() && all[p] == row;
                assert(order@[p] < keys@.len());
                assert(picked@[order@[p] as int] < i);
                assert(rows[picked@[order@[p] as int] as int] == row);
            }
            if rows.contains(row) && row.todo_id == todo_id@ {
                let k = choose|k: int| 0 <= k < rows.len() && rows[k] == row;
                assert(picked@.contains(k as usize));
                let x = choose|x: int| 0 <= x < picked@.len() && picked@[x] == k as usize;
                assert(order@.contains(x as usize));
                let p = choose|p: int| 0 <= p < order@.len() && order@[p] == x as usize;
                assert(all[p] == row);
            }
        }
        lemma_result_listing_unique(rows, todo_id@, all);
    }
    let mut results: Vec<ResearchResult> = Vec::new();
    let mut p: usize = 0;
    while p < n
        invariant
            p <= n,
            n == order@.len(),
            n == all.len(),
            rows == db@.results,
            forall|q: int| 0 <= q < n ==> (#[trigger] order@[q]) < picked@.len(),
            forall|x: int| 0 <= x < picked@.len() ==> (#[trigger] picked@[x]) < rows.len(),
            forall|q: int|
                0 <= q < n ==> #[trigger] all[q] == rows[picked@[order@[q] as int] as int],
            result_views(results@) == all.subrange(0, p as int),
        decreases n - p,
    {
        let place = picked[order[p]];
        let copy = db.results[place].clone();
        proof {
            assert(copy@ == all[p as int]);
            assert(result_views(results@.push(copy)) =~= result_views(results@).push(copy@));
            assert(all.subrange(0, p + 1) =~= all.subrange(0, p as int).push(all[p as int]));
        }
        results.push(copy);
        p += 1;
    }
    assert(all.subrange(0, n as int) =~= all);
    results
}

/// The latest result of the todo `todo_id` in the store `db`: the first of
/// the listing of its results, or `None` where it has none.
pub fn latest_result_in(db: &Database, todo_id: &str) -> (latest: Option<ResearchResult>)
    requires
        db@.wf(),
    ensures
        found_result(latest) == latest_of(db@.results, todo_id@),
{
    let results = results_in(db, todo_id);
    if results.len() == 0 {
        None
    } else {
        Some(results[0].clone())
    }
}

impl ResearchService {
    /// A repository over `db`.
    pub fn new(db: Database) -> (service: Self)
        ensures
            service@ == db@,
    {
        ResearchService { db }
    }

    /// Gives the store back.
    pub fn into_database(self) -> (db: Database)
        ensures
            db@ == self@,
    {
        self.db
    }

    /// The store that this repository works on.
    pub fn database(&self) -> (db: &Database)
        ensures
            db@ == self@,
    {
        &self.db
    }

    /// Opens a research attempt of `request.service` on the todo
    /// `request.todo_id`, stamped by the system clock. Which instant that is
    /// is not known beforehand; for each the outcome is the one that
    /// [`opened`] describes. The attempt is opened exactly where the todo is
    /// stored.
    pub fn create_research_request(&mut self, request: CreateResearchRequest) -> (outcome: Result<
        ResearchProgress,
        ServiceError,
    >)
        requires
            old(self)@.wf(),
        ensures
            final(self)@.wf(),
            exists|now: i64|
                opened(old(self)@, request, now, final(self)@, progress_outcome(outcome)),
            outcome is Ok <==> old(self)@.has_todo(request.todo_id@),
    {
        let now = now_millis();
        let outcome = self.create_research_request_at(now, request);
        assert(opened(old(self)@, request, now, self@, progress_outcome(outcome)));
        outcome
    }

    /// Opens a research attempt, with `now` as the reading of the clock.
    pub fn create_research_request_at(&mut self, now: i64, request: CreateResearchRequest) -> (outcome:
        Result<ResearchProgress, ServiceError>)
        requires
            old(self)@.wf(),
        ensures
            final(self)@.wf(),
            opened(old(self)@, request, now, final(self)@, progress_outcome(outcome)),
    {
        if self.db.find_todo(&request.todo_id).is_none() {
            return Err(ServiceError::Storage(StorageError::MissingTodo));
        }
        let stamp = later_of(self.db.clock, now);
        let row = ResearchProgress {
            todo_id: request.todo_id,
            service: request.service,
            stage: ResearchStage::Searching,
            progress_percentage: 0,
            current_step: Some("Initializing research".to_owned()),
            estimated_remaining: Some(DEFAULT_ESTIMATE_SECONDS),
            updated_at: stamp,
        };
        let copy = row.clone();
        let mut rows: Vec<ResearchProgress> = Vec::new();
        std::mem::swap(&mut self.db.progress, &mut rows);
        let mut kept = keep_other_progress(rows, &row.todo_id, &row.service);
        proof {
            assert(progress_views(kept@.push(row)) =~= progress_views(kept@).push(row@));
        }
        kept.push(row);
        self.db.progress = kept;
        self.db.clock = stamp;
        proof {
            let fresh = opened_progress(request.todo_id@, request.service@, stamp);
            assert(copy@ == fresh);
            assert(self@ =~= with_progress(old(self)@, fresh, stamp));
            lemma_with_progress_wf(old(self)@, fresh, stamp);
        }
        Ok(copy)
    }

    /// Overwrites the progress row of `progress`'s todo and service with
    /// `progress`. Where the todo and the service have no row, nothing
    /// changes: an attempt has to be opened first.
    pub fn update_research_progress(&mut self, progress: &ResearchProgress)
        requires
            old(self)@.wf(),
        ensures
            final(self)@.wf(),
            final(self)@ == with_progress_update(old(self)@, progress@),
    {
        proof {
            lemma_with_progress_update_wf(self@, progress@);
        }
        match self.db.find_progress(&progress.todo_id, &progress.service) {
            Some(place) => {
                self.db.progress.set(place, progress.clone());
                proof {
                    let before = old(self)@;
                    assert forall|i: int| 0 <= i < before.progress.len() implies #[trigger]
                        self@.progress[i] == replaced_progress(before.progress, progress@)[i] by {
                        if i < place {
                            assert(progress_key()(before.progress[i]) != progress_key()(
                                before.progress[place as int],
                            ));
                        } else if i > place {
                            assert(progress_key()(before.progress[place as int]) != progress_key()(
                                before.progress[i],
                            ));
                        }
                    }
                    assert(self@ =~= with_progress_update(before, progress@));
                }
            },
            None => {},
        }
    }

    /// Finalizes the research attempt that gave `result` for the todo
    /// `todo_id`, stamped by the system clock. Which instant that is is not
    /// known beforehand; for each the outcome is the one that [`completed`]
    /// describes. Whether the result is recorded does not depend on the
    /// clock: it is recorded exactly where the todo `todo_id` and the todo
    /// that the result names are stored and the id of the result is free.
    pub fn complete_research(&mut self, todo_id: &str, result: ResearchResult) -> (outcome: Result<
        ResearchResult,
        ServiceError,
    >)
        requires
            old(self)@.wf(),
        ensures
            final(self)@.wf(),
            exists|now: i64|
                completed(old(self)@, todo_id@, result@, now, final(self)@, result_outcome(outcome)),
            outcome is Ok <==> old(self)@.has_todo(todo_id@) && old(self)@.has_todo(
                result@.todo_id,
            ) && !has_result_id(old(self)@.results, result@.id),
    {
        let now = now_millis();
        let outcome = self.complete_research_at(now, todo_id, result);
        assert(completed(old(self)@, todo_id@, result@, now, self@, result_outcome(outcome)));
        outcome
    }

    /// Finalizes a research attempt, with `now` as the reading of the clock.
    /// Either everything happens or nothing: the result is stored under the
    /// todo that it names, the progress row of its service on the todo
    /// `todo_id` is removed and, where the result is `Completed`, the todo
    /// `todo_id` moves to review.
    pub fn complete_research_at(&mut self, now: i64, todo_id: &str, result: ResearchResult) -> (outcome:
        Result<ResearchResult, ServiceError>)
        requires
            old(self)@.wf(),
        ensures
            final(self)@.wf(),
            completed(old(self)@, todo_id@, result@, now, final(self)@, result_outcome(outcome)),
    {
        let key = todo_id.to_owned();
        let place = match self.db.find_todo(&key) {
            Some(place) => place,
            None => {
                return Err(ServiceError::Storage(StorageError::MissingTodo));
            },
        };
        if self.db.find_todo(&result.todo_id).is_none() {
            return Err(ServiceError::Storage(StorageError::MissingTodo));
        }
        if self.db.find_result(&result.id).is_some() {
            return Err(ServiceError::Storage(StorageError::DuplicateKey));
        }
        let stamp = later_of(self.db.clock, now);
        let row = ResearchResult {
            id: result.id,
            todo_id: result.todo_id,
            service: result.service,
            prompt: result.prompt,
            content: result.content,
            raw_html: result.raw_html,
            metadata: result.metadata,
            started_at: result.started_at,
            completed_at: stamp,
            duration_seconds: seconds_between(result.started_at, stamp),
            status: result.status,
            created_at: stamp,
        };
        let copy = row.clone();
        let ghost before = old(self)@;
        let ghost stored = completed_result(result@, stamp);
        assert(copy@ == stored);
        if row.status == ResearchStatus::Completed {
            let todo = &self.db.todos[place];
            let reviewed = Todo {
                id: todo.id.clone(),
                title: todo.title.clone(),
                description: todo.description.clone(),
                url: todo.url.clone(),
                status: TodoStatus::Review,
                priority: todo.priority,
                preferred_service: todo.preferred_service.clone(),
                created_at: todo.created_at,
                updated_at: stamp,
                completed_at: todo.completed_at,
            };
            self.db.todos.set(place, reviewed);
            proof {
                assert forall|i: int| 0 <= i < before.todos.len() implies #[trigger] self@.todos[i]
                    == reviewed_rows(before.todos, todo_id@, stamp)[i] by {
                    if i < place {
                        assert(todo_key()(before.todos[i]) != todo_key()(before.todos[place as int]));
                    } else if i > place {
                        assert(todo_key()(before.todos[place as int]) != todo_key()(before.todos[i]));
                    }
                }
                assert(self@.todos =~= reviewed_rows(before.todos, todo_id@, stamp));
            }
        }
        let mut rows: Vec<ResearchProgress> = Vec::new();
        std::mem::swap(&mut self.db.progress, &mut rows);
        self.db.progress = keep_other_progress(rows, &key, &row.service);
        proof {
            assert(result_views(self.db.results@.push(row)) =~= result_views(
                self.db.results@,
            ).push(row@));
        }
        self.db.results.push(row);
        self.db.clock = stamp;
        proof {
            assert(self@ =~= after_complete(before, todo_id@, stored, stamp));
            lemma_after_complete_wf(before, todo_id@, stored, stamp);
        }
        Ok(copy)
    }

    /// The results of the todo `todo_id`, the latest first; results
    /// completed at the same instant come in the order of their ids.
    pub fn get_research_results(&self, todo_id: &str) -> (results: Vec<ResearchResult>)
        requires
            self@.wf(),
        ensures
            is_result_listing(self@.results, todo_id@, results_of(self@.results, todo_id@)),
            result_views(results@) == results_of(self@.results, todo_id@),
    {
        results_in(&self.db, todo_id)
    }

    /// The latest result of the todo `todo_id`: the first of the listing of
    /// its results, or `None` where it has none.
    pub fn get_latest_result(&self, todo_id: &str) -> (latest: Option<ResearchResult>)
        requires
            self@.wf(),
        ensures
            found_result(latest) == latest_of(self@.results, todo_id@),
    {
        latest_result_in(&self.db, todo_id)
    }

    /// The progress row of `service` on the todo `todo_id`, or `None` where
    /// no attempt of the service on the todo is under way.
    pub fn get_research_progress(&self, todo_id: &str, service: &str) -> (found: Option<
        ResearchProgress,
    >)
        requires
            self@.wf(),
        ensures
            found_progress(found) == self@.lookup_progress(todo_id@, service@),
    {
        let todo_key = todo_id.to_owned();
        let service_key = service.to_owned();
        match self.db.find_progress(&todo_key, &service_key) {
            Some(i) => {
                proof {
                    lemma_progress_unique(self@, i as int);
                }
                Some(self.db.progress[i].clone())
            },
            None => None,
        }
    }
}

} // verus!
