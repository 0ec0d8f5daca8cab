//! The two ends of the control socket.
//!
//! A connection carries requests, each with one answer, until one of them
//! subscribes to something: from then on it carries events in one direction.
//! What the scheduler itself does about a request is an argument here; which
//! request calls for what, and what is answered, is decided here.

use vstd::prelude::*;
use vstd::string::*;

use super::commands::{find_workflow, workflow_called};
use super::workflow::{workflow_views, StatusView, Workflow, WorkflowView};
use crate::control::{
    summary_of, ControlRequest, ControlResponse, SchedulerEvent, SummaryView, WorkflowDetail,
    WorkflowSummary,
};
use crate::order::{in_name_order, sort_by_name, sorted_by_name, sorted_by_name_sorts, Named};
use crate::text;

verus! {

/// How long to wait for an answer: five seconds.
pub const REQUEST_TIMEOUT: u128 = 5_000_000_000;

// ---------------------------------------------------------------------
// Requests and answers
// ---------------------------------------------------------------------

/// What the scheduler is to do about a request before it is answered.
#[derive(Debug, PartialEq)]
pub enum SchedulerCall {
    /// Nothing.
    Nothing,
    CancelWorkflow { name: String },
    RetrySection { name: String, section: String },
    QueueWorkflow { name: String, priority: Option<i32> },
    /// Look the details of a workflow up.
    LookUp { name: String },
}

/// What came of a [`SchedulerCall`].
#[derive(Debug, PartialEq)]
pub enum CallResult {
    /// It was done; for a cancelled workflow `kind` says how.
    Done { kind: String },
    Failed { message: String },
    /// The details that were looked up.
    Found { detail: Option<WorkflowDetail> },
}

/// Whether `r` is what the scheduler is to do about a request.
pub open spec fn call_is(r: SchedulerCall, req: ControlRequest) -> bool {
    match req {
        ControlRequest::Cancel { name } => r matches SchedulerCall::CancelWorkflow { name: n }
            && n@ == name@,
        ControlRequest::Retry { name, section } => r matches SchedulerCall::RetrySection {
            name: n,
            section: s,
        } && n@ == name@ && s@ == section@,
        ControlRequest::Queue { name, priority } => r matches SchedulerCall::QueueWorkflow {
            name: n,
            priority: p,
        } && n@ == name@ && p == priority,
        ControlRequest::Detail { name } => r matches SchedulerCall::LookUp { name: n } && n@
            == name@,
        _ => r is Nothing,
    }
}

/// What the scheduler is to do about a request before it is answered.
pub fn call_for(req: &ControlRequest) -> (r: SchedulerCall)
    ensures
        call_is(r, *req),
{
    match req {
        ControlRequest::Cancel { name } => SchedulerCall::CancelWorkflow { name: name.clone() },
        ControlRequest::Retry { name, section } => SchedulerCall::RetrySection {
            name: name.clone(),
            section: section.clone(),
        },
        ControlRequest::Queue { name, priority } => SchedulerCall::QueueWorkflow {
            name: name.clone(),
            priority: *priority,
        },
        ControlRequest::Detail { name } => SchedulerCall::LookUp { name: name.clone() },
        _ => SchedulerCall::Nothing,
    }
}

/// What a list of summaries holds.
pub open spec fn summary_views(ss: Seq<WorkflowSummary>) -> Seq<SummaryView> {
    ss.map_values(|s: WorkflowSummary| s@)
}

impl Named for WorkflowSummary {
    open spec fn name_text(&self) -> Seq<char> {
        self.name@
    }

    fn name_str(&self) -> (r: &str) {
        self.name.as_str()
    }
}

/// Whether `each` holds the summaries of workflows, in their order.
pub open spec fn summarises(each: Seq<WorkflowSummary>, ws: Seq<WorkflowView>) -> bool {
    summary_views(each) == ws.map_values(|w: WorkflowView| summary_of(w))
}

/// Whether `ss` holds the summaries of workflows, in the order of their names.
pub open spec fn summarises_by_name(ss: Seq<WorkflowSummary>, ws: Seq<WorkflowView>) -> bool {
    &&& in_name_order(ss)
    &&& exists|each: Seq<WorkflowSummary>| #[trigger]
        summarises(each, ws) && ss == sorted_by_name(each)
}

/// The summaries of workflows, in the order of their names.
pub fn summaries(ws: &Vec<Workflow>) -> (r: Vec<WorkflowSummary>)
    ensures
        summarises_by_name(r@, workflow_views(ws@)),
{
    let ghost all = workflow_views(ws@).map_values(|w: WorkflowView| summary_of(w));
    let mut out: Vec<WorkflowSummary> = Vec::new();
    let mut i: usize = 0;
    while i < ws.len()
        invariant
            i <= ws.len(),
            all == workflow_views(ws@).map_values(|w: WorkflowView| summary_of(w)),
            summary_views(out@) == all.take(i as int),
        decreases ws.len() - i,
    {
        let ghost o = out@;
        out.push(ws[i].summary());
        proof {
            assert(summary_views(out@) =~= summary_views(o).push(out@.last()@));
            assert(all.take(i + 1) =~= all.take(i as int).push(all[i as int]));
        }
        i = i + 1;
    }
    proof {
        assert(all.take(all.len() as int) =~= all);
        assert(summarises(out@, workflow_views(ws@)));
        sorted_by_name_sorts(out@);
    }
    sort_by_name(out)
}

/// Whether `r` is an error with the given message.
pub open spec fn is_error(r: ControlResponse, message: Seq<char>) -> bool {
    r matches ControlResponse::Error { message: m } && m@ == message
}

/// Whether `r` says that something was done.
pub open spec fn is_ok(r: ControlResponse, message: Seq<char>) -> bool {
    r matches ControlResponse::Done { message: m } && m@ == message
}

/// Whether `r` is the answer for the given workflows.
pub open spec fn is_status(
    r: ControlResponse,
    workflows: Seq<SummaryView>,
    root: Seq<char>,
) -> bool {
    r matches ControlResponse::Status { workflows: ws, root: x } && summary_views(ws@) == workflows
        && text::text_option(x) == Some(root)
}

/// Whether `r` is the answer for all workflows: every one, in the order of their
/// names.
pub open spec fn is_full_status(
    r: ControlResponse,
    workflows: Seq<WorkflowView>,
    root: Seq<char>,
) -> bool {
    r matches ControlResponse::Status { workflows: ws, root: x } && summarises_by_name(
        ws@,
        workflows,
    ) && text::text_option(x) == Some(root)
}

/// An error with the given message.
fn refuse(message: String) -> (r: ControlResponse)
    ensures
        is_error(r, message@),
{
    ControlResponse::Error { message }
}

/// The answer that there is no such workflow.
fn no_such_workflow(name: &str) -> (r: ControlResponse)
    ensures
        is_error(r, "no such workflow: "@ + name@),
{
    refuse(text::cat2("no such workflow: ", name))
}

/// What a request is answered, where `done` is the message for a call that was
/// done.
fn answer_call(result: CallResult, done: String) -> (r: ControlResponse)
    requires
        !(result is Found),
    ensures
        match result {
            CallResult::Failed { message } => is_error(r, message@),
            _ => is_ok(r, done@),
        },
{
    match result {
        CallResult::Failed { message } => refuse(message),
        _ => ControlResponse::Done { message: done },
    }
}

/// Whether `result` is of the kind that the call for `req` comes to.
pub open spec fn fits(req: ControlRequest, result: CallResult) -> bool {
    match req {
        ControlRequest::Cancel { .. } | ControlRequest::Retry { .. }
        | ControlRequest::Queue { .. } => !(result is Found),
        ControlRequest::Detail { .. } => result is Found,
        _ => true,
    }
}

/// Whether `r` answers a request, where `result` came of the call for it.
pub open spec fn answer_is(
    r: ControlResponse,
    req: ControlRequest,
    workflows: Seq<WorkflowView>,
    root: Seq<char>,
    result: CallResult,
) -> bool {
    match req {
        ControlRequest::Ping => r is Pong,
        ControlRequest::Status { name: None } => is_full_status(
            r,
            workflows,
            root,
        ),
        ControlRequest::Status { name: Some(n) } => match workflow_called(
            workflows,
            n@,
        ) {
            Some(w) => is_status(r, seq![summary_of(w)], root),
            None => is_error(r, "no such workflow: "@ + n@),
        },
        ControlRequest::Cancel { name } => match result {
            CallResult::Done { kind } => is_ok(r, name@ + ": "@ + kind@),
            CallResult::Failed { message } => is_error(r, message@),
            _ => true,
        },
        ControlRequest::Retry { name, section } => match result {
            CallResult::Failed { message } => is_error(r, message@),
            _ => is_ok(r, "retry dispatched: "@ + name@ + " section "@ + section@),
        },
        ControlRequest::Queue { name, .. } => match result {
            CallResult::Failed { message } => is_error(r, message@),
            _ => is_ok(r, "queued: "@ + name@),
        },
        ControlRequest::Detail { name } => match result {
            CallResult::Found { detail: Some(d) } => r == (ControlResponse::Detail {
                detail: d,
            }),
            _ => is_error(r, "no such workflow: "@ + name@),
        },
        ControlRequest::Subscribe => is_error(
            r,
            "subscribe not supported on a one-shot connection"@,
        ),
        ControlRequest::SubscribeDetail { .. } => is_error(
            r,
            "subscribe_detail not supported on a one-shot connection"@,
        ),
        ControlRequest::SubscribeAllDetails => is_error(
            r,
            "subscribe_all_details not supported on a one-shot connection"@,
        ),
    }
}

/// Answer a request, where `result` came of the call for it.
pub fn dispatch_request(
    req: &ControlRequest,
    workflows: &Vec<Workflow>,
    root: &str,
    result: CallResult,
) -> (r: ControlResponse)
    requires
        fits(*req, result),
    ensures
        answer_is(r, *req, workflow_views(workflows@), root@, result),
{
    match req {
        ControlRequest::Ping => ControlResponse::Pong,
        ControlRequest::Status { name } => answer_status(name, workflows, root),
        ControlRequest::Cancel { name } => match result {
            CallResult::Done { kind } => ControlResponse::Done {
                message: text::cat3(name.as_str(), ": ", kind.as_str()),
            },
            CallResult::Failed { message } => refuse(message),
            CallResult::Found { .. } => no_such_workflow(name.as_str()),
        },
        ControlRequest::Retry { name, section } => answer_call(
            result,
            text::cat4("retry dispatched: ", name.as_str(), " section ", section.as_str()),
        ),
        ControlRequest::Queue { name, .. } => answer_call(
            result,
            text::cat2("queued: ", name.as_str()),
        ),
        ControlRequest::Detail { name } => match result {
            CallResult::Found { detail: Some(detail) } => ControlResponse::Detail { detail },
            _ => no_such_workflow(name.as_str()),
        },
        ControlRequest::Subscribe => refuse(
            text::owned("subscribe not supported on a one-shot connection"),
        ),
        ControlRequest::SubscribeDetail { .. } => refuse(
            text::owned("subscribe_detail not supported on a one-shot connection"),
        ),
        ControlRequest::SubscribeAllDetails => refuse(
            text::owned("subscribe_all_details not supported on a one-shot connection"),
        ),
    }
}

/// The answer for one workflow or all of them.
fn answer_status(name: &Option<String>, workflows: &Vec<Workflow>, root: &str) -> (r:
    ControlResponse)
    ensures
        match *name {
            None => is_full_status(r, workflow_views(workflows@), root@),
            Some(n) => match workflow_called(workflow_views(workflows@), n@) {
                Some(w) => is_status(r, seq![summary_of(w)], root@),
                None => is_error(r, "no such workflow: "@ + n@),
            },
        },
{
    match name {
        None => ControlResponse::Status {
            workflows: summaries(workflows),
            root: Some(text::owned(root)),
        },
        Some(n) => match find_workflow(workflows, n.as_str()) {
            Some(i) => {
                let found: Vec<WorkflowSummary> = vec![workflows[i].summary()];
                proof {
                    assert(summary_views(found@) =~= seq![summary_of(workflows@[i as int]@)]);
                }
                ControlResponse::Status { workflows: found, root: Some(text::owned(root)) }
            },
            None => no_such_workflow(n.as_str()),
        },
    }
}

/// What becomes of a connection after a request came in.
#[derive(Debug, PartialEq)]
pub enum Route {
    /// Answer it and read the next one.
    Answer,
    /// From now on tell of every change of a workflow.
    Stream,
    /// From now on tell of the details of one workflow.
    StreamDetail { name: String },
    /// From now on tell of the details of any workflow.
    StreamAllDetails,
}

/// What becomes of a connection after a request came in.
pub fn route(req: &ControlRequest) -> (r: Route)
    ensures
        match *req {
            ControlRequest::Subscribe => r is Stream,
            ControlRequest::SubscribeDetail { name } => r matches Route::StreamDetail { name: n }
                && n@ == name@,
            ControlRequest::SubscribeAllDetails => r is StreamAllDetails,
            _ => r is Answer,
        },
{
    match req {
        ControlRequest::Subscribe => Route::Stream,
        ControlRequest::SubscribeDetail { name } => Route::StreamDetail { name: name.clone() },
        ControlRequest::SubscribeAllDetails => Route::StreamAllDetails,
        _ => Route::Answer,
    }
}

/// The answer to a payload that is no request.
pub fn malformed(error: &str) -> (r: ControlResponse)
    ensures
        is_error(r, "malformed request: "@ + error@),
{
    refuse(text::cat2("malformed request: ", error))
}

/// The error for a frame that is too long to be a request.
pub fn oversized(len: usize) -> (r: String)
    ensures
        r@ == "oversized control frame: "@ + text::decimal(len as nat),
{
    let n: String = text::number(len as u128);
    text::cat2("oversized control frame: ", n.as_str())
}

// ---------------------------------------------------------------------
// Subscriptions
// ---------------------------------------------------------------------

/// What happens on a connection that carries events.
#[derive(Debug, PartialEq)]
pub enum StreamInput {
    /// The scheduler has something to tell.
    Event(SchedulerEvent),
    /// The subscriber was too slow and missed something.
    Lagged,
    /// The scheduler is gone.
    Closed,
    /// The subscriber sent `count` bytes; none are its end of the connection.
    Read { count: usize },
    /// The subscriber cannot be read from.
    ReadFailed,
}

/// What to do about it.
#[derive(Debug, PartialEq)]
pub enum StreamStep {
    Send(ControlResponse),
    /// Tell the subscriber how things stand now.
    SendSnapshot,
    Ignore,
    End,
}

/// What to do about what the subscriber sends: nothing, until it is gone.
pub open spec fn from_subscriber(input: StreamInput) -> StreamStep {
    match input {
        StreamInput::Read { count } => if count == 0 {
            StreamStep::End
        } else {
            StreamStep::Ignore
        },
        _ => StreamStep::End,
    }
}

/// What to do on a connection that tells of every change of a workflow.
pub open spec fn step_of_all(input: StreamInput) -> StreamStep {
    match input {
        StreamInput::Event(event) => StreamStep::Send(ControlResponse::Event { event }),
        StreamInput::Lagged => StreamStep::SendSnapshot,
        _ => from_subscriber(input),
    }
}

/// What to do on a connection that tells of the details of one workflow.
pub open spec fn step_of_one(name: Seq<char>, input: StreamInput) -> StreamStep {
    match input {
        StreamInput::Event(event) => if tells_of(event, name) {
            StreamStep::Send(ControlResponse::Event { event })
        } else {
            StreamStep::Ignore
        },
        StreamInput::Lagged => StreamStep::SendSnapshot,
        _ => from_subscriber(input),
    }
}

/// What to do on a connection that tells of the details of any workflow.
pub open spec fn step_of_details(input: StreamInput) -> StreamStep {
    match input {
        StreamInput::Event(event) => StreamStep::Send(ControlResponse::Event { event }),
        StreamInput::Lagged => StreamStep::Ignore,
        _ => from_subscriber(input),
    }
}

/// How things stand, for a subscriber.
pub fn snapshot(workflows: Vec<WorkflowSummary>, root: &str) -> (r: ControlResponse)
    ensures
        r matches ControlResponse::Event { event: SchedulerEvent::Snapshot { workflows: ws, root: x } }
            && ws == workflows && text::text_option(x) == Some(root@),
{
    ControlResponse::Event {
        event: SchedulerEvent::Snapshot { workflows, root: Some(text::owned(root)) },
    }
}

/// What to do on a connection that tells of every change of a workflow: one
/// that missed something is told how things stand.
pub fn subscribe_step(input: StreamInput) -> (r: StreamStep)
    ensures
        r == step_of_all(input),
{
    match input {
        StreamInput::Event(event) => StreamStep::Send(ControlResponse::Event { event }),
        StreamInput::Lagged => StreamStep::SendSnapshot,
        StreamInput::Closed | StreamInput::ReadFailed => StreamStep::End,
        StreamInput::Read { count } => {
            if count == 0 {
                StreamStep::End
            } else {
                StreamStep::Ignore
            }
        },
    }
}

/// Whether an event tells of the details of the workflow `name`.
pub open spec fn tells_of(event: SchedulerEvent, name: Seq<char>) -> bool {
    event matches SchedulerEvent::DetailUpdated { detail } && detail.name@ == name
}

/// What a connection that tells of the details of one workflow begins with,
/// and whether it goes on.
pub fn detail_start(name: &str, detail: Option<WorkflowDetail>) -> (r: (ControlResponse, bool))
    ensures
        match detail {
            Some(d) => r.1 && r.0 == (ControlResponse::Event {
                event: SchedulerEvent::DetailSnapshot { detail: d },
            }),
            None => !r.1 && is_error(r.0, "no such workflow: "@ + name@),
        },
{
    match detail {
        Some(detail) => (
            ControlResponse::Event { event: SchedulerEvent::DetailSnapshot { detail } },
            true,
        ),
        None => (no_such_workflow(name), false),
    }
}

/// What to do on a connection that tells of the details of one workflow.
pub fn subscribe_detail_step(name: &str, input: StreamInput) -> (r: StreamStep)
    ensures
        r == step_of_one(name@, input),
{
    match input {
        StreamInput::Event(event) => {
            let ours: bool = match &event {
                SchedulerEvent::DetailUpdated { detail } => text::same(detail.name.as_str(), name),
                _ => false,
            };
            if ours {
                StreamStep::Send(ControlResponse::Event { event })
            } else {
                StreamStep::Ignore
            }
        },
        StreamInput::Lagged => StreamStep::SendSnapshot,
        StreamInput::Closed | StreamInput::ReadFailed => StreamStep::End,
        StreamInput::Read { count } => {
            if count == 0 {
                StreamStep::End
            } else {
                StreamStep::Ignore
            }
        },
    }
}

/// How things stand with one workflow, for a subscriber that missed something;
/// where the workflow is gone, the connection ends.
pub fn detail_snapshot(detail: Option<WorkflowDetail>) -> (r: StreamStep)
    ensures
        r == match detail {
            Some(detail) => StreamStep::Send(
                ControlResponse::Event { event: SchedulerEvent::DetailSnapshot { detail } },
            ),
            None => StreamStep::End,
        },
{
    match detail {
        Some(detail) => StreamStep::Send(
            ControlResponse::Event { event: SchedulerEvent::DetailSnapshot { detail } },
        ),
        None => StreamStep::End,
    }
}

/// What to do on a connection that tells of the details of any workflow: one
/// that missed something goes on.
pub fn subscribe_all_details_step(input: StreamInput) -> (r: StreamStep)
    ensures
        r == step_of_details(input),
{
    match input {
        StreamInput::Event(event) => StreamStep::Send(ControlResponse::Event { event }),
        StreamInput::Lagged => StreamStep::Ignore,
        StreamInput::Closed | StreamInput::ReadFailed => StreamStep::End,
        StreamInput::Read { count } => {
            if count == 0 {
                StreamStep::End
            } else {
                StreamStep::Ignore
            }
        },
    }
}

// ---------------------------------------------------------------------
// The other end
// ---------------------------------------------------------------------

/// Why a request got no answer.
#[derive(Debug, PartialEq)]
pub enum ControlError {
    /// Nobody listens on the socket.
    Unreachable(String),
    /// The connection broke.
    Io(String),
    /// What came back is no answer.
    BadResponse(String),
    /// Nothing came back in time.
    Timeout,
}

/// The message for an error.
pub open spec fn control_error_text(e: ControlError) -> Seq<char> {
    match e {
        ControlError::Unreachable(e) => "cannot reach scheduler ("@ + e@
            + "). Is it running? Start with: clhorde-scheduler daemon"@,
        ControlError::Io(e) => "io: "@ + e@,
        ControlError::BadResponse(s) => "bad response: "@ + s@,
        ControlError::Timeout => "scheduler did not respond in time"@,
    }
}

impl ControlError {
    /// The message for this error.
    pub fn to_text(&self) -> (r: String)
        ensures
            r@ == control_error_text(*self),
    {
        match self {
            ControlError::Unreachable(e) => text::cat3(
                "cannot reach scheduler (",
                e.as_str(),
                "). Is it running? Start with: clhorde-scheduler daemon",
            ),
            ControlError::Io(e) => text::cat2("io: ", e.as_str()),
            ControlError::BadResponse(s) => text::cat2("bad response: ", s.as_str()),
            ControlError::Timeout => text::owned("scheduler did not respond in time"),
        }
    }
}

/// The error for a frame that is too long to be an answer.
pub fn oversized_response(len: usize) -> (r: ControlError)
    ensures
        r matches ControlError::BadResponse(s) && s@ == "oversized response frame: "@
            + text::decimal(len as nat),
{
    let n: String = text::number(len as u128);
    ControlError::BadResponse(text::cat2("oversized response frame: ", n.as_str()))
}

/// The error for a payload that is no answer.
pub fn undecodable(error: &str) -> (r: ControlError)
    ensures
        r matches ControlError::BadResponse(s) && s@ == "decode: "@ + error@,
{
    ControlError::BadResponse(text::cat2("decode: ", error))
}

/// The answer to the one request that was sent, among those that came back.
pub fn only_answer(responses: Vec<ControlResponse>) -> (r: Result<ControlResponse, ControlError>)
    ensures
        if responses@.len() == 0 {
            r matches Err(ControlError::BadResponse(s)) && s@
                == "scheduler closed before responding"@
        } else {
            r == Ok::<ControlResponse, ControlError>(responses@.last())
        },
{
    let mut responses = responses;
    match responses.pop() {
        Some(x) => Ok(x),
        None => Err(ControlError::BadResponse(text::owned("scheduler closed before responding"))),
    }
}

// ---------------------------------------------------------------------
// What requests and subscribers get
// ---------------------------------------------------------------------

/// The scheduler is called for exactly what was asked: to cancel, to retry, to
/// queue, or to look up the named workflow. Nothing else makes it act.
pub proof fn calls_carry_the_request(r: SchedulerCall, req: ControlRequest)
    requires
        call_is(r, req),
    ensures
        r is CancelWorkflow <==> req is Cancel,
        r is RetrySection <==> req is Retry,
        r is QueueWorkflow <==> req is Queue,
        r is LookUp <==> req is Detail,
        req matches ControlRequest::Cancel { name } ==> (r matches SchedulerCall::CancelWorkflow {
            name: n,
        } && n@ == name@),
        req matches ControlRequest::Retry { name, section } ==> (
        r matches SchedulerCall::RetrySection { name: n, section: s } && n@ == name@ && s@
            == section@),
        req matches ControlRequest::Queue { name, priority } ==> (
        r matches SchedulerCall::QueueWorkflow { name: n, priority: p } && n@ == name@ && p
            == priority),
        req matches ControlRequest::Detail { name } ==> (r matches SchedulerCall::LookUp {
            name: n,
        } && n@ == name@),
{
}

/// A call that failed is answered with its message as an error, and never with
/// success; one that was done is answered with success, under the workflow's
/// name.
pub proof fn failures_are_answered_as_failures(
    r: ControlResponse,
    req: ControlRequest,
    workflows: Seq<WorkflowView>,
    root: Seq<char>,
    result: CallResult,
)
    requires
        req is Cancel || req is Retry || req is Queue,
        fits(req, result),
        answer_is(r, req, workflows, root, result),
    ensures
        r is Error <==> result is Failed,
        r is Done <==> result is Done,
        result matches CallResult::Failed { message } ==> (r matches ControlResponse::Error {
            message: m,
        } && m@ == message@),
        result matches CallResult::Done { kind } ==> (r matches ControlResponse::Done {
            message: m,
        } && match req {
            ControlRequest::Cancel { name } => m@ == name@ + ": "@ + kind@,
            ControlRequest::Retry { name, section } => m@ == "retry dispatched: "@ + name@
                + " section "@ + section@,
            ControlRequest::Queue { name, .. } => m@ == "queued: "@ + name@,
            _ => false,
        }),
{
}

/// The status of all workflows tells of every one of them, of each once, and of
/// no other, in the order of their names, and of the root that is watched.
pub proof fn status_tells_of_every_workflow(
    r: ControlResponse,
    req: ControlRequest,
    workflows: Seq<WorkflowView>,
    root: Seq<char>,
    result: CallResult,
    w: SummaryView,
)
    requires
        req matches ControlRequest::Status { name } && name is None,
        answer_is(r, req, workflows, root, result),
    ensures
        r matches ControlResponse::Status { workflows: ws, root: x } && {
            &&& text::text_option(x) == Some(root)
            &&& ws@.len() == workflows.len()
            &&& summary_views(ws@).contains(w) <==> exists|i: int|
                0 <= i < workflows.len() && w == summary_of(#[trigger] workflows[i])
            &&& forall|i: int, j: int|
                0 <= i < j < ws@.len() ==> !crate::order::before(
                    (#[trigger] ws@[j]).name@,
                    (#[trigger] ws@[i]).name@,
                )
        },
{
    broadcast use vstd::seq_lib::group_to_multiset_ensures;

    if let ControlResponse::Status { workflows: ws, root: x } = r {
        let each = choose|each: Seq<WorkflowSummary>| #[trigger]
            summarises(each, workflows) && ws@ == sorted_by_name(each);
        sorted_by_name_sorts(each);
        let all = workflows.map_values(|v: WorkflowView| summary_of(v));
        assert(summary_views(each) == all);
        assert(summary_views(each).len() == each.len());
        assert(ws@.len() == ws@.to_multiset().len());
        assert(each.len() == each.to_multiset().len());
        if summary_views(ws@).contains(w) {
            let k = summary_views(ws@).index_of(w);
            let v = ws@[k];
            assert(ws@.contains(v));
            assert(ws@.to_multiset().count(v) > 0);
            assert(each.contains(v));
            let i = each.index_of(v);
            assert(summary_views(each)[i] == w);
            assert(all[i] == summary_of(workflows[i]));
        }
        if exists|i: int| 0 <= i < workflows.len() && w == summary_of(#[trigger] workflows[i]) {
            let i = choose|i: int| 0 <= i < workflows.len() && w == summary_of(#[trigger] workflows[i]);
            assert(summary_views(each)[i] == w);
            let v = each[i];
            assert(each.contains(v));
            assert(each.to_multiset().count(v) > 0);
            assert(ws@.contains(v));
            let k = ws@.index_of(v);
            assert(summary_views(ws@)[k] == w);
        }
        assert forall|i: int, j: int| 0 <= i < j < ws@.len() implies !crate::order::before(
            (#[trigger] ws@[j]).name@,
            (#[trigger] ws@[i]).name@,
        ) by {
            assert(ws@[i].name_text() == ws@[i].name@);
            assert(ws@[j].name_text() == ws@[j].name@);
        }
    }
}

/// The status of one workflow tells of the first of that name and of no other;
/// where there is none, it is an error.
pub proof fn status_of_one_tells_of_it(
    r: ControlResponse,
    name: String,
    workflows: Seq<WorkflowView>,
    root: Seq<char>,
    result: CallResult,
)
    requires
        answer_is(r, ControlRequest::Status { name: Some(name) }, workflows, root, result),
    ensures
        (forall|i: int| 0 <= i < workflows.len() ==> (#[trigger] workflows[i]).name != name@) ==> (
        r matches ControlResponse::Error { message: m } && m@ == "no such workflow: "@ + name@),
        forall|i: int| #[trigger]
            super::deps::led_to(workflows, name@, i) ==> (r matches ControlResponse::Status {
                workflows: ws,
                root: x,
            } && ws@.len() == 1 && ws@[0]@ == summary_of(workflows[i]) && text::text_option(x)
                == Some(root)),
{
    super::commands::first_workflow_is_shown(workflows, name@);
    assert forall|i: int| #[trigger] super::deps::led_to(workflows, name@, i) implies (
    r matches ControlResponse::Status { workflows: ws, root: x } && ws@.len() == 1 && ws@[0]@
        == summary_of(workflows[i]) && text::text_option(x) == Some(root)) by {
        let w = workflow_called(workflows, name@)->0;
        assert(workflows[i].name == name@);
        let j = choose|j: int| #[trigger]
            super::deps::led_to(workflows, name@, j) && workflows[j] == w;
        assert(i == j) by {
            if i < j {
                assert(workflows[i].name != name@);
            }
            if j < i {
                assert(workflows[j].name != name@);
            }
        }
        if let ControlResponse::Status { workflows: ws, root: x } = r {
            assert(summary_views(ws@).len() == ws@.len());
            assert(summary_views(ws@)[0] == ws@[0]@);
        }
    }
}

/// A workflow in short is told as it is: its name, its phase by its word, why it
/// failed if it did, its priority, zero where it has none, its times and its
/// prompts.
pub proof fn summaries_tell_the_workflow(w: WorkflowView)
    ensures
        ({
            let s = summary_of(w);
            &&& s.name == w.name
            &&& s.status == super::commands::status_label(w.status)
            &&& w.status matches StatusView::Failed { reason } ==> s.failure_reason == Some(reason)
            &&& !(w.status is Failed) ==> s.failure_reason is None
            &&& w.metadata.priority matches Some(p) ==> s.priority == p
            &&& w.metadata.priority is None ==> s.priority == 0
            &&& s.queued_at == w.queued_at
            &&& s.started_at == w.started_at
            &&& s.finished_at == w.finished_at
            &&& s.prompt_ids == w.prompt_ids
        }),
{
}

/// A subscriber is told of every event that it subscribed to, and a subscriber
/// to one workflow of no other. One that missed something is told how things
/// stand, unless it subscribed to all details. What a subscriber sends is
/// ignored; the stream ends exactly where either side is gone.
pub proof fn subscribers_are_told(name: Seq<char>, input: StreamInput)
    ensures
        ({
            let gone = input is Closed || input is ReadFailed || input == (StreamInput::Read {
                count: 0,
            });
            &&& step_of_all(input) is End <==> gone
            &&& step_of_one(name, input) is End <==> gone
            &&& step_of_details(input) is End <==> gone
            &&& input matches StreamInput::Event(event) ==> {
                let told = StreamStep::Send(ControlResponse::Event { event });
                &&& step_of_all(input) == told
                &&& step_of_details(input) == told
                &&& (event matches SchedulerEvent::DetailUpdated { detail } && detail.name@ == name)
                    ==> step_of_one(name, input) == told
                &&& !(event matches SchedulerEvent::DetailUpdated { detail } && detail.name@ == name)
                    ==> step_of_one(name, input) is Ignore
            }
            &&& input is Lagged ==> step_of_all(input) is SendSnapshot && step_of_one(
                name,
                input,
            ) is SendSnapshot && step_of_details(input) is Ignore
            &&& input is Read && !gone ==> step_of_all(input) is Ignore && step_of_one(
                name,
                input,
            ) is Ignore && step_of_details(input) is Ignore
        }),
{
}

} // verus!
