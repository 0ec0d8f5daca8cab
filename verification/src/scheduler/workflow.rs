//! A workflow and the phases it goes through.
//!
//! ```text
//! Drafted -> Queued -> Implementing -> Verifying -> Archiving -> Archived
//! ```
//!
//! A queued workflow can go back to its draft; one that runs can be cancelled;
//! one that has not come to an end can fail.

use vstd::prelude::*;
use vstd::string::*;

use crate::openspec::discovery::{no_metadata, MarkerMetadata, MarkerMetadataView};
use crate::text;

verus! {

/// The phase that a workflow is in.
#[derive(Debug, PartialEq)]
pub enum WorkflowStatus {
    Drafted,
    Queued,
    Implementing,
    Verifying,
    Archiving,
    Archived,
    Cancelled,
    Failed { reason: String },
}

/// What a [`WorkflowStatus`] holds.
pub ghost enum StatusView {
    Drafted,
    Queued,
    Implementing,
    Verifying,
    Archiving,
    Archived,
    Cancelled,
    Failed { reason: Seq<char> },
}

impl View for WorkflowStatus {
    type V = StatusView;

    open spec fn view(&self) -> StatusView {
        match *self {
            WorkflowStatus::Drafted => StatusView::Drafted,
            WorkflowStatus::Queued => StatusView::Queued,
            WorkflowStatus::Implementing => StatusView::Implementing,
            WorkflowStatus::Verifying => StatusView::Verifying,
            WorkflowStatus::Archiving => StatusView::Archiving,
            WorkflowStatus::Archived => StatusView::Archived,
            WorkflowStatus::Cancelled => StatusView::Cancelled,
            WorkflowStatus::Failed { reason } => StatusView::Failed { reason: reason@ },
        }
    }
}

impl Clone for WorkflowStatus {
    fn clone(&self) -> (r: Self)
        ensures
            r@ == self@,
    {
        match self {
            WorkflowStatus::Drafted => WorkflowStatus::Drafted,
            WorkflowStatus::Queued => WorkflowStatus::Queued,
            WorkflowStatus::Implementing => WorkflowStatus::Implementing,
            WorkflowStatus::Verifying => WorkflowStatus::Verifying,
            WorkflowStatus::Archiving => WorkflowStatus::Archiving,
            WorkflowStatus::Archived => WorkflowStatus::Archived,
            WorkflowStatus::Cancelled => WorkflowStatus::Cancelled,
            WorkflowStatus::Failed { reason } => WorkflowStatus::Failed { reason: reason.clone() },
        }
    }
}

/// The phases that no workflow leaves again.
pub open spec fn terminal(s: StatusView) -> bool {
    s is Archived || s is Cancelled || s is Failed
}

/// A point in time: seconds and nanoseconds since the start of 1970, UTC.
#[derive(Debug, Clone, Copy, PartialEq, Eq, Structural)]
pub struct Timestamp {
    pub secs: i64,
    pub nanos: u32,
}

/// One change on its way from a draft to the archive.
#[derive(Debug, PartialEq)]
pub struct Workflow {
    pub name: String,
    pub status: WorkflowStatus,
    pub metadata: MarkerMetadata,
    pub queued_at: Option<Timestamp>,
    pub started_at: Option<Timestamp>,
    pub finished_at: Option<Timestamp>,
    /// Ids of the prompts that were submitted for it.
    pub prompt_ids: Vec<String>,
}

/// What a [`Workflow`] holds.
pub ghost struct WorkflowView {
    pub name: Seq<char>,
    pub status: StatusView,
    pub metadata: MarkerMetadataView,
    pub queued_at: Option<Timestamp>,
    pub started_at: Option<Timestamp>,
    pub finished_at: Option<Timestamp>,
    pub prompt_ids: Seq<Seq<char>>,
}

impl View for Workflow {
    type V = WorkflowView;

    open spec fn view(&self) -> WorkflowView {
        WorkflowView {
            name: self.name@,
            status: self.status@,
            metadata: self.metadata@,
            queued_at: self.queued_at,
            started_at: self.started_at,
            finished_at: self.finished_at,
            prompt_ids: text::texts(self.prompt_ids@),
        }
    }
}

/// What the workflows of a list hold.
pub open spec fn workflow_views(ws: Seq<Workflow>) -> Seq<WorkflowView> {
    ws.map_values(|w: Workflow| w@)
}

/// A step that a workflow's phase does not allow.
#[derive(Debug, Clone, Copy, PartialEq, Eq, Structural)]
pub struct TransitionError;

/// A draft that is queued.
pub open spec fn queued_up(w: WorkflowView, metadata: MarkerMetadataView) -> Option<WorkflowView> {
    match w.status {
        StatusView::Drafted => Some(WorkflowView { status: StatusView::Queued, metadata, ..w }),
        _ => None,
    }
}

/// A queued workflow that is a draft again.
pub open spec fn taken_back(w: WorkflowView) -> Option<WorkflowView> {
    match w.status {
        StatusView::Queued => Some(WorkflowView { status: StatusView::Drafted, ..w }),
        _ => None,
    }
}

/// A queued workflow that is started on.
pub open spec fn begun(w: WorkflowView) -> Option<WorkflowView> {
    match w.status {
        StatusView::Queued => Some(WorkflowView { status: StatusView::Implementing, ..w }),
        _ => None,
    }
}

/// A workflow that runs, cancelled.
pub open spec fn called_off(w: WorkflowView) -> Option<WorkflowView> {
    match w.status {
        StatusView::Implementing | StatusView::Verifying | StatusView::Archiving => Some(
            WorkflowView { status: StatusView::Cancelled, ..w },
        ),
        _ => None,
    }
}

/// A workflow that has not come to an end, given up.
pub open spec fn given_up(w: WorkflowView, reason: Seq<char>) -> Option<WorkflowView> {
    if terminal(w.status) {
        None
    } else {
        Some(WorkflowView { status: StatusView::Failed { reason }, ..w })
    }
}

/// A step is taken where it is allowed; else it is refused, and nothing changes.
pub open spec fn stepped(
    r: Result<(), TransitionError>,
    before: WorkflowView,
    after: WorkflowView,
    allowed: Option<WorkflowView>,
) -> bool {
    match allowed {
        Some(w) => r is Ok && after == w,
        None => r is Err && after == before,
    }
}

impl Workflow {
    /// A draft that nothing has happened to.
    pub fn drafted(name: &str) -> (r: Workflow)
        ensures
            r@ == (WorkflowView {
                name: name@,
                status: StatusView::Drafted,
                metadata: no_metadata(),
                queued_at: None,
                started_at: None,
                finished_at: None,
                prompt_ids: Seq::empty(),
            }),
    {
        let r = Workflow {
            name: text::owned(name),
            status: WorkflowStatus::Drafted,
            metadata: MarkerMetadata::default(),
            queued_at: None,
            started_at: None,
            finished_at: None,
            prompt_ids: Vec::new(),
        };
        proof {
            assert(r@.prompt_ids =~= Seq::<Seq<char>>::empty());
        }
        r
    }

    /// Queue a draft.
    pub fn queue(&mut self, metadata: MarkerMetadata) -> (r: Result<(), TransitionError>)
        ensures
            stepped(r, old(self)@, final(self)@, queued_up(old(self)@, metadata@)),
    {
        match self.status {
            WorkflowStatus::Drafted => {
                self.status = WorkflowStatus::Queued;
                self.metadata = metadata;
                Ok(())
            },
            _ => Err(TransitionError),
        }
    }

    /// Make a draft of a queued workflow again.
    pub fn unqueue(&mut self) -> (r: Result<(), TransitionError>)
        ensures
            stepped(r, old(self)@, final(self)@, taken_back(old(self)@)),
    {
        match self.status {
            WorkflowStatus::Queued => {
                self.status = WorkflowStatus::Drafted;
                Ok(())
            },
            _ => Err(TransitionError),
        }
    }

    /// Start on a queued workflow.
    pub fn start_implementing(&mut self) -> (r: Result<(), TransitionError>)
        ensures
            stepped(r, old(self)@, final(self)@, begun(old(self)@)),
    {
        match self.status {
            WorkflowStatus::Queued => {
                self.status = WorkflowStatus::Implementing;
                Ok(())
            },
            _ => Err(TransitionError),
        }
    }

    /// Cancel a workflow that runs.
    pub fn cancel(&mut self) -> (r: Result<(), TransitionError>)
        ensures
            stepped(r, old(self)@, final(self)@, called_off(old(self)@)),
    {
        match self.status {
            WorkflowStatus::Implementing | WorkflowStatus::Verifying
            | WorkflowStatus::Archiving => {
                self.status = WorkflowStatus::Cancelled;
                Ok(())
            },
            _ => Err(TransitionError),
        }
    }

    /// Give up on a workflow that has not come to an end.
    pub fn fail(&mut self, reason: &str) -> (r: Result<(), TransitionError>)
        ensures
            stepped(r, old(self)@, final(self)@, given_up(old(self)@, reason@)),
    {
        match self.status {
            WorkflowStatus::Archived | WorkflowStatus::Cancelled
            | WorkflowStatus::Failed { .. } => Err(TransitionError),
            _ => {
                self.status = WorkflowStatus::Failed { reason: text::owned(reason) };
                Ok(())
            },
        }
    }
}

/// Each step is allowed from its own phases alone: queueing from a draft, taking
/// back and starting from the queue, cancelling while it runs, and failing
/// before the end. A step changes the phase; queueing also notes what the marker
/// says, and nothing else changes.
pub proof fn steps_lead_from_phase_to_phase(
    w: WorkflowView,
    metadata: MarkerMetadataView,
    reason: Seq<char>,
)
    ensures
        queued_up(w, metadata) is Some <==> w.status == StatusView::Drafted,
        queued_up(w, metadata) matches Some(x) ==> x == (WorkflowView {
            status: StatusView::Queued,
            metadata,
            ..w
        }),
        taken_back(w) is Some <==> w.status == StatusView::Queued,
        taken_back(w) matches Some(x) ==> x == (WorkflowView { status: StatusView::Drafted, ..w }),
        begun(w) is Some <==> w.status == StatusView::Queued,
        begun(w) matches Some(x) ==> x == (WorkflowView { status: StatusView::Implementing, ..w }),
        called_off(w) is Some <==> w.status == StatusView::Implementing || w.status
            == StatusView::Verifying || w.status == StatusView::Archiving,
        called_off(w) matches Some(x) ==> x == (WorkflowView { status: StatusView::Cancelled, ..w }),
        given_up(w, reason) is Some <==> !(w.status == StatusView::Archived || w.status
            == StatusView::Cancelled || w.status is Failed),
        given_up(w, reason) matches Some(x) ==> x == (WorkflowView {
            status: StatusView::Failed { reason },
            ..w
        }),
{
}

/// A refused step changes nothing, and a workflow that has come to its end takes
/// no step any more.
pub proof fn ended_workflows_stay(
    r: Result<(), TransitionError>,
    w: WorkflowView,
    after: WorkflowView,
    metadata: MarkerMetadataView,
    reason: Seq<char>,
)
    requires
        w.status == StatusView::Archived || w.status == StatusView::Cancelled || w.status is Failed,
        stepped(r, w, after, queued_up(w, metadata)) || stepped(r, w, after, taken_back(w))
            || stepped(r, w, after, begun(w)) || stepped(r, w, after, called_off(w)) || stepped(
            r,
            w,
            after,
            given_up(w, reason),
        ),
    ensures
        r is Err,
        after == w,
{
}

} // verus!
