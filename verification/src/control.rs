//! What goes over the control socket of the scheduler.

use vstd::prelude::*;
use vstd::string::*;

use crate::scheduler::commands::{status_label, workflow_status_label};
use crate::scheduler::workflow::{StatusView, Timestamp, Workflow, WorkflowStatus, WorkflowView};
use crate::text;

verus! {

/// A request to the scheduler.
#[allow(inconsistent_fields)]
#[derive(Debug, Clone, PartialEq)]
pub enum ControlRequest {
    /// Is anybody there?
    Ping,
    /// The workflow `name`, or all of them.
    Status { name: Option<String> },
    /// Cancel a workflow.
    Cancel { name: String },
    /// Dispatch a section again.
    Retry { name: String, section: String },
    /// Queue a draft.
    Queue { name: String, priority: Option<i32> },
    /// All about one workflow.
    Detail { name: String },
    /// Tell me of every change of a workflow.
    Subscribe,
    /// Tell me of every change of the details of one workflow.
    SubscribeDetail { name: String },
    /// Tell me of every change of the details of any workflow.
    SubscribeAllDetails,
}

/// An answer of the scheduler.
#[derive(Debug, Clone, PartialEq)]
pub enum ControlResponse {
    Pong,
    Status { workflows: Vec<WorkflowSummary>, root: Option<String> },
    /// Something was done; the message says what.
    Done { message: String },
    Error { message: String },
    Detail { detail: WorkflowDetail },
    /// Something a subscriber is told.
    Event { event: SchedulerEvent },
}

/// What a subscriber is told.
#[derive(Debug, Clone, PartialEq)]
pub enum SchedulerEvent {
    /// How things stand.
    Snapshot { workflows: Vec<WorkflowSummary>, root: Option<String> },
    /// A workflow changed.
    WorkflowUpdated { summary: WorkflowSummary },
    /// How things stand with one workflow.
    DetailSnapshot { detail: WorkflowDetail },
    /// The details of a workflow changed.
    DetailUpdated { detail: WorkflowDetail },
}

/// A workflow in short.
#[derive(Debug, Clone, PartialEq)]
pub struct WorkflowSummary {
    pub name: String,
    /// The word for its phase.
    pub status: String,
    /// Why it failed, if it did.
    pub failure_reason: Option<String>,
    pub priority: i32,
    pub queued_at: Option<Timestamp>,
    pub started_at: Option<Timestamp>,
    pub finished_at: Option<Timestamp>,
    pub prompt_ids: Vec<String>,
}

/// What a [`WorkflowSummary`] holds.
#[verifier::ext_equal]
pub ghost struct SummaryView {
    pub name: Seq<char>,
    pub status: Seq<char>,
    pub failure_reason: Option<Seq<char>>,
    pub priority: i32,
    pub queued_at: Option<Timestamp>,
    pub started_at: Option<Timestamp>,
    pub finished_at: Option<Timestamp>,
    pub prompt_ids: Seq<Seq<char>>,
}

impl View for WorkflowSummary {
    type V = SummaryView;

    open spec fn view(&self) -> SummaryView {
        SummaryView {
            name: self.name@,
            status: self.status@,
            failure_reason: text::text_option(self.failure_reason),
            priority: self.priority,
            queued_at: self.queued_at,
            started_at: self.started_at,
            finished_at: self.finished_at,
            prompt_ids: text::texts(self.prompt_ids@),
        }
    }
}

/// One piece of work of a workflow.
#[derive(Debug, Clone, PartialEq)]
pub struct DetailNode {
    pub id: String,
    pub label: String,
    pub status: String,
}

/// All about one workflow.
#[derive(Debug, Clone, PartialEq)]
pub struct WorkflowDetail {
    pub name: String,
    pub status: String,
    pub priority: i32,
    pub apply: Vec<DetailNode>,
    pub verify: Option<DetailNode>,
    pub archive: Option<DetailNode>,
}

/// A workflow in short.
pub open spec fn summary_of(w: WorkflowView) -> SummaryView {
    SummaryView {
        name: w.name,
        status: status_label(w.status),
        failure_reason: match w.status {
            StatusView::Failed { reason } => Some(reason),
            _ => None,
        },
        priority: match w.metadata.priority {
            Some(p) => p,
            None => 0,
        },
        queued_at: w.queued_at,
        started_at: w.started_at,
        finished_at: w.finished_at,
        prompt_ids: w.prompt_ids,
    }
}

impl Workflow {
    /// This workflow in short.
    pub fn summary(&self) -> (r: WorkflowSummary)
        ensures
            r@ == summary_of(self@),
    {
        let failure_reason: Option<String> = match &self.status {
            WorkflowStatus::Failed { reason } => Some(reason.clone()),
            _ => None,
        };
        let priority: i32 = match self.metadata.priority {
            Some(p) => p,
            None => 0,
        };
        WorkflowSummary {
            name: self.name.clone(),
            status: text::owned(workflow_status_label(&self.status)),
            failure_reason,
            priority,
            queued_at: self.queued_at,
            started_at: self.started_at,
            finished_at: self.finished_at,
            prompt_ids: text::owned_list(&self.prompt_ids),
        }
    }
}

} // verus!
