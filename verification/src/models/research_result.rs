//! Research attempts: the stored result of an attempt and the progress row
//! that tracks an attempt while it runs.

use vstd::prelude::*;
use crate::text::text_view;

verus! {

/// How a research attempt ended.
#[derive(Debug, Clone, Copy, PartialEq, Eq, Structural)]
pub enum ResearchStatus {
    Completed,
    Failed,
    Timeout,
}

/// The stored name of a research status.
pub open spec fn research_status_text(status: ResearchStatus) -> Seq<char> {
    match status {
        ResearchStatus::Completed => "completed"@,
        ResearchStatus::Failed => "failed"@,
        ResearchStatus::Timeout => "timeout"@,
    }
}

/// The research status that a stored name stands for; an unknown name reads
/// as `Failed`.
pub open spec fn research_status_from_text(name: Seq<char>) -> ResearchStatus {
    if name == "completed"@ {
        ResearchStatus::Completed
    } else if name == "timeout"@ {
        ResearchStatus::Timeout
    } else {
        ResearchStatus::Failed
    }
}

/// Writing a research status and reading it back gives the same status.
pub proof fn lemma_research_status_round_trip(status: ResearchStatus)
    ensures
        research_status_from_text(research_status_text(status)) == status,
{
    reveal_strlit("completed");
    reveal_strlit("failed");
    reveal_strlit("timeout");
    assert("completed"@.len() == 9);
    assert("failed"@.len() == 6);
    assert("timeout"@.len() == 7);
}

/// The coarse phase of a research attempt that is under way.
#[derive(Debug, Clone, Copy, PartialEq, Eq, Structural)]
pub enum ResearchStage {
    Searching,
    Analyzing,
    Synthesizing,
    Completed,
}

/// The stored name of a stage.
pub open spec fn stage_text(stage: ResearchStage) -> Seq<char> {
    match stage {
        ResearchStage::Searching => "searching"@,
        ResearchStage::Analyzing => "analyzing"@,
        ResearchStage::Synthesizing => "synthesizing"@,
        ResearchStage::Completed => "completed"@,
    }
}

/// The stage that a stored name stands for; an unknown name reads as
/// `Searching`.
pub open spec fn stage_from_text(name: Seq<char>) -> ResearchStage {
    if name == "analyzing"@ {
        ResearchStage::Analyzing
    } else if name == "synthesizing"@ {
        ResearchStage::Synthesizing
    } else if name == "completed"@ {
        ResearchStage::Completed
    } else {
        ResearchStage::Searching
    }
}

/// Writing a stage and reading it back gives the same stage.
pub proof fn lemma_stage_round_trip(stage: ResearchStage)
    ensures
        stage_from_text(stage_text(stage)) == stage,
{
    reveal_strlit("searching");
    reveal_strlit("analyzing");
    reveal_strlit("synthesizing");
    reveal_strlit("completed");
    assert("searching"@[0] == 's');
    assert("analyzing"@[0] == 'a');
    assert("synthesizing"@.len() == 12);
    assert("completed"@[0] == 'c');
    assert("completed"@.len() == 9);
}

/// The stored outcome of one research attempt.
#[derive(Debug, PartialEq, Eq)]
pub struct ResearchResult {
    pub id: String,
    pub todo_id: String,
    pub service: String,
    pub prompt: Option<String>,
    pub content: String,
    pub raw_html: Option<String>,
    /// The structured payload of the result in its stored, encoded form.
    pub metadata: Option<String>,
    /// Milliseconds since the Unix epoch, UTC.
    pub started_at: i64,
    /// Milliseconds since the Unix epoch, UTC.
    pub completed_at: i64,
    pub duration_seconds: i64,
    pub status: ResearchStatus,
    /// Milliseconds since the Unix epoch, UTC.
    pub created_at: i64,
}

/// The mathematical value of a [`ResearchResult`].
pub struct ResearchResultView {
    pub id: Seq<char>,
    pub todo_id: Seq<char>,
    pub service: Seq<char>,
    pub prompt: Option<Seq<char>>,
    pub content: Seq<char>,
    pub raw_html: Option<Seq<char>>,
    pub metadata: Option<Seq<char>>,
    pub started_at: i64,
    pub completed_at: i64,
    pub duration_seconds: i64,
    pub status: ResearchStatus,
    pub created_at: i64,
}

impl View for ResearchResult {
    type V = ResearchResultView;

    open spec fn view(&self) -> ResearchResultView {
        ResearchResultView {
            id: self.id@,
            todo_id: self.todo_id@,
            service: self.service@,
            prompt: text_view(self.prompt),
            content: self.content@,
            raw_html: text_view(self.raw_html),
            metadata: text_view(self.metadata),
            started_at: self.started_at,
            completed_at: self.completed_at,
            duration_seconds: self.duration_seconds,
            status: self.status,
            created_at: self.created_at,
        }
    }
}

impl Clone for ResearchResult {
    fn clone(&self) -> (copy: Self)
        ensures
            copy == *self,
    {
        ResearchResult {
            id: self.id.clone(),
            todo_id: self.todo_id.clone(),
            service: self.service.clone(),
            prompt: self.prompt.clone(),
            content: self.content.clone(),
            raw_html: self.raw_html.clone(),
            metadata: self.metadata.clone(),
            started_at: self.started_at,
            completed_at: self.completed_at,
            duration_seconds: self.duration_seconds,
            status: self.status,
            created_at: self.created_at,
        }
    }
}

/// What a caller gives to open a research attempt.
#[derive(Debug)]
pub struct CreateResearchRequest {
    pub todo_id: String,
    pub service: String,
    pub prompt: Option<String>,
}

/// The progress of the research attempt of one service on one todo.
#[derive(Debug, PartialEq, Eq)]
pub struct ResearchProgress {
    pub todo_id: String,
    pub service: String,
    pub stage: ResearchStage,
    pub progress_percentage: i32,
    pub current_step: Option<String>,
    /// Seconds.
    pub estimated_remaining: Option<i32>,
    /// Milliseconds since the Unix epoch, UTC.
    pub updated_at: i64,
}

/// The mathematical value of a [`ResearchProgress`].
pub struct ResearchProgressView {
    pub todo_id: Seq<char>,
    pub service: Seq<char>,
    pub stage: ResearchStage,
    pub progress_percentage: i32,
    pub current_step: Option<Seq<char>>,
    pub estimated_remaining: Option<i32>,
    pub updated_at: i64,
}

impl View for ResearchProgress {
    type V = ResearchProgressView;

    open spec fn view(&self) -> ResearchProgressView {
        ResearchProgressView {
            todo_id: self.todo_id@,
            service: self.service@,
            stage: self.stage,
            progress_percentage: self.progress_percentage,
            current_step: text_view(self.current_step),
            estimated_remaining: self.estimated_remaining,
            updated_at: self.updated_at,
        }
    }
}

impl Clone for ResearchProgress {
    fn clone(&self) -> (copy: Self)
        ensures
            copy == *self,
    {
        ResearchProgress {
            todo_id: self.todo_id.clone(),
            service: self.service.clone(),
            stage: self.stage,
            progress_percentage: self.progress_percentage,
            current_step: self.current_step.clone(),
            estimated_remaining: self.estimated_remaining,
            updated_at: self.updated_at,
        }
    }
}

} // verus!
