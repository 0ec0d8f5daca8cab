//! Exploring a ticket before it becomes a change.
//!
//! A worker that explores a ticket runs in a terminal and waits for a human.
//! One that waited too long is stopped; its workflow stays as it is.

use vstd::prelude::*;
use vstd::string::*;

use super::workflow::Timestamp;
use crate::jira::event::{JiraTicketPayload, PayloadView};
use crate::protocol::{submission, ClientRequest, Submission};
use crate::text;
use crate::time::Nanos;

verus! {

/// The phase in the tag of an explore worker.
pub const EXPLORE_PHASE: &'static str = "explore";

/// How long an explore worker may be idle before it is stopped, where no time
/// is configured: a day.
pub const DEFAULT_IDLE_THRESHOLD: u128 = 86_400_000_000_000;

/// The time between two looks at the explore workers: a minute.
pub const DEFAULT_REAPER_INTERVAL: u128 = 60_000_000_000;

/// The prompt of an explore worker, with the fields of a ticket in braces.
pub const EXPLORE_TEMPLATE: &'static str = r#"/opsx:explore

You've been auto-spawned by the clhorde scheduler from a Jira ticket.
No human is here yet — they will attach via TUI or web shortly.

When a human arrives:
- Greet them, summarise what you understood from the ticket
- Ask the clarifying questions that emerge naturally
- When they signal you have enough to draft the change, create the
  proposal under `openspec/changes/{key}/`

The change directory MUST be named exactly `{key}` so the scheduler can
match it to the Jira ticket.

Until the human attaches, output a brief opening response acknowledging
the ticket and listing the clarifying questions you'd want answered. Do
NOT write any artifacts yet.

--- TICKET {key} ---
Title: {title}
Description: {description}
Acceptance Criteria: {acceptance_criteria}
Labels: {labels}
Reporter: {reporter}
"#;

/// The prompt for a ticket: the fields are filled in one after the other.
pub open spec fn explore_prompt(p: PayloadView) -> Seq<char> {
    let a = text::replaced(EXPLORE_TEMPLATE@, "{key}"@, p.key);
    let b = text::replaced(a, "{title}"@, p.title);
    let c = text::replaced(b, "{description}"@, p.description);
    let d = text::replaced(c, "{acceptance_criteria}"@, p.acceptance_criteria);
    let e = text::replaced(d, "{labels}"@, text::joined(p.labels, ", "@));
    text::replaced(
        e,
        "{reporter}"@,
        match p.reporter {
            Some(r) => r,
            None => Seq::empty(),
        },
    )
}

/// The prompt for a ticket.
pub fn render_prompt(payload: &JiraTicketPayload) -> (r: String)
    ensures
        r@ == explore_prompt(payload@),
{
    let labels: String = text::join(&payload.labels, ", ");
    let reporter: String = match &payload.reporter {
        Some(r) => r.clone(),
        None => {
            let none: String = String::new();
            proof {
                assert(none@ =~= Seq::<char>::empty());
            }
            none
        },
    };
    proof {
        reveal_strlit("{key}");
        reveal_strlit("{title}");
        reveal_strlit("{description}");
        reveal_strlit("{acceptance_criteria}");
        reveal_strlit("{labels}");
        reveal_strlit("{reporter}");
    }
    let a: String = text::replace(EXPLORE_TEMPLATE, "{key}", payload.key.as_str());
    let b: String = text::replace(a.as_str(), "{title}", payload.title.as_str());
    let c: String = text::replace(b.as_str(), "{description}", payload.description.as_str());
    let d: String = text::replace(
        c.as_str(),
        "{acceptance_criteria}",
        payload.acceptance_criteria.as_str(),
    );
    let e: String = text::replace(d.as_str(), "{labels}", labels.as_str());
    text::replace(e.as_str(), "{reporter}", reporter.as_str())
}

/// The tag of the explore worker of a workflow.
pub open spec fn explore_tag_of(name: Seq<char>) -> Seq<char> {
    "clhorde-scheduler/wf="@ + name + "/phase="@ + EXPLORE_PHASE@
}

/// The tag of the explore worker of a workflow.
pub fn explore_tag(workflow_name: &str) -> (r: String)
    ensures
        r@ == explore_tag_of(workflow_name@),
{
    text::cat4("clhorde-scheduler/wf=", workflow_name, "/phase=", EXPLORE_PHASE)
}

/// Why an explore worker could not be dispatched.
#[derive(Debug, Clone, Copy, PartialEq, Eq, Structural)]
pub enum DispatchError {
    /// Nobody takes requests to the daemon any more.
    ChannelClosed,
}

impl DispatchError {
    /// The message for this error.
    pub fn to_text(&self) -> (r: String)
        ensures
            r@ == "daemon outbound channel closed"@,
    {
        text::owned("daemon outbound channel closed")
    }
}

/// The prompt of an explore worker.
pub open spec fn explore_submission(
    name: Seq<char>,
    cwd: Option<Seq<char>>,
    payload: PayloadView,
) -> Submission {
    Submission {
        text: explore_prompt(payload),
        cwd,
        mode: "interactive"@,
        worktree: false,
        tags: seq![explore_tag_of(name)],
        depends_on: Seq::empty(),
        worktree_id: None,
    }
}

/// The request that starts an explore worker. It runs in a terminal, in the
/// repository itself.
pub fn build_request(workflow_name: &str, cwd: Option<String>, payload: &JiraTicketPayload) -> (r:
    ClientRequest)
    ensures
        submission(r) == Some(
            explore_submission(workflow_name@, text::text_option(cwd), payload@),
        ),
{
    let tags: Vec<String> = vec![explore_tag(workflow_name)];
    let depends_on: Vec<String> = Vec::new();
    proof {
        assert(text::texts(tags@) =~= seq![explore_tag_of(workflow_name@)]);
        assert(text::texts(depends_on@) =~= Seq::<Seq<char>>::empty());
    }
    ClientRequest::SubmitPrompt {
        text: render_prompt(payload),
        cwd,
        mode: text::owned("interactive"),
        worktree: false,
        tags,
        depends_on,
        worktree_id: None,
    }
}

/// What became of a dispatch, by whether its request was taken.
pub fn dispatch_result(sent: bool) -> (r: Result<(), DispatchError>)
    ensures
        r == if sent {
            Ok(())
        } else {
            Err(DispatchError::ChannelClosed)
        },
{
    if sent {
        Ok(())
    } else {
        Err(DispatchError::ChannelClosed)
    }
}

/// A worker that explores a ticket.
#[derive(Debug, PartialEq)]
pub struct ExploreWorker {
    pub workflow: String,
    /// The number of its prompt, once the daemon told it.
    pub prompt_id: Option<usize>,
    /// When it last got input.
    pub last_input_at: Timestamp,
}

/// The nanoseconds from `from` to `to`.
pub open spec fn nanos_between(from: Timestamp, to: Timestamp) -> int {
    (to.secs - from.secs) * 1_000_000_000 + (to.nanos - from.nanos)
}

/// Whether a worker was idle for `threshold` at `now`. One without a number
/// never is, nor one whose last input lies after `now`.
pub open spec fn idle(w: ExploreWorker, now: Timestamp, threshold: Nanos) -> bool {
    &&& w.prompt_id is Some
    &&& nanos_between(w.last_input_at, now) >= 0
    &&& nanos_between(w.last_input_at, now) >= threshold
}

impl ExploreWorker {
    /// A worker that was just started.
    pub fn new(workflow: String, now: Timestamp) -> (r: ExploreWorker)
        ensures
            r.workflow@ == workflow@,
            r.prompt_id is None,
            r.last_input_at == now,
    {
        ExploreWorker { workflow, prompt_id: None, last_input_at: now }
    }

    /// Whether the worker was idle for `threshold` at `now`.
    pub fn is_idle_for(&self, now: Timestamp, threshold: Nanos) -> (r: bool)
        ensures
            r == idle(*self, now, threshold),
    {
        let elapsed: i128 = (now.secs as i128 - self.last_input_at.secs as i128) * 1_000_000_000 + (
        now.nanos as i128 - self.last_input_at.nanos as i128);
        self.prompt_id.is_some() && elapsed >= 0 && elapsed as u128 >= threshold
    }
}

impl Clone for ExploreWorker {
    fn clone(&self) -> (r: Self)
        ensures
            r.workflow@ == self.workflow@,
            r.prompt_id == self.prompt_id,
            r.last_input_at == self.last_input_at,
    {
        ExploreWorker {
            workflow: self.workflow.clone(),
            prompt_id: self.prompt_id,
            last_input_at: self.last_input_at,
        }
    }
}

/// The requests that stop the workers that were idle for `threshold`.
pub open spec fn kills(workers: Seq<ExploreWorker>, now: Timestamp, threshold: Nanos) -> Seq<
    ClientRequest,
>
    decreases workers.len(),
{
    if workers.len() == 0 {
        Seq::empty()
    } else {
        let before = kills(workers.drop_last(), now, threshold);
        let w = workers.last();
        if idle(w, now, threshold) {
            before.push(ClientRequest::KillWorker { prompt_id: w.prompt_id->0 })
        } else {
            before
        }
    }
}

/// The requests that stop the workers that were idle for `threshold`.
pub fn reap_idle_workers(workers: &Vec<ExploreWorker>, now: Timestamp, threshold: Nanos) -> (r: Vec<
    ClientRequest,
>)
    ensures
        r@ == kills(workers@, now, threshold),
{
    let mut out: Vec<ClientRequest> = Vec::new();
    let mut i: usize = 0;
    while i < workers.len()
        invariant
            i <= workers.len(),
            out@ == kills(workers@.take(i as int), now, threshold),
        decreases workers.len() - i,
    {
        proof {
            assert(workers@.take(i + 1).drop_last() =~= workers@.take(i as int));
        }
        if workers[i].is_idle_for(now, threshold) {
            if let Some(prompt_id) = workers[i].prompt_id {
                out.push(ClientRequest::KillWorker { prompt_id });
            }
        }
        i = i + 1;
    }
    proof {
        assert(workers@.take(workers@.len() as int) =~= workers@);
    }
    out
}

/// Exactly the workers that are known to the daemon and got no input for the
/// threshold, or longer, are stopped, each by its own prompt.
pub proof fn only_idle_workers_are_stopped(
    workers: Seq<ExploreWorker>,
    now: Timestamp,
    threshold: Nanos,
    id: usize,
)
    ensures
        kills(workers, now, threshold).contains(ClientRequest::KillWorker { prompt_id: id })
            <==> exists|i: int|
            0 <= i < workers.len() && (#[trigger] workers[i]).prompt_id == Some(id) && (now.secs
                - workers[i].last_input_at.secs) * 1_000_000_000 + (now.nanos
                - workers[i].last_input_at.nanos) >= threshold,
        forall|k: int|
            0 <= k < kills(workers, now, threshold).len() ==> (#[trigger] kills(
                workers,
                now,
                threshold,
            )[k]) is KillWorker,
    decreases workers.len(),
{
    if workers.len() > 0 {
        let front = workers.drop_last();
        let n = workers.len() - 1;
        let before = kills(front, now, threshold);
        let all = kills(workers, now, threshold);
        let stop = ClientRequest::KillWorker { prompt_id: id };
        only_idle_workers_are_stopped(front, now, threshold, id);
        assert forall|i: int| 0 <= i < n implies workers[i] == #[trigger] front[i] by {}
        if before.contains(stop) {
            let k = before.index_of(stop);
            assert(all[k] == stop);
            let i = choose|i: int|
                0 <= i < front.len() && (#[trigger] front[i]).prompt_id == Some(id) && (now.secs
                    - front[i].last_input_at.secs) * 1_000_000_000 + (now.nanos
                    - front[i].last_input_at.nanos) >= threshold;
            assert(workers[i] == front[i]);
        }
        if all.contains(stop) && !before.contains(stop) {
            let k = all.index_of(stop);
            if k < before.len() {
                assert(before[k] == stop);
            }
            assert(workers[n].prompt_id == Some(id));
        }
        if exists|i: int|
            0 <= i < workers.len() && (#[trigger] workers[i]).prompt_id == Some(id) && (now.secs
                - workers[i].last_input_at.secs) * 1_000_000_000 + (now.nanos
                - workers[i].last_input_at.nanos) >= threshold {
            let i = choose|i: int|
                0 <= i < workers.len() && (#[trigger] workers[i]).prompt_id == Some(id) && (now.secs
                    - workers[i].last_input_at.secs) * 1_000_000_000 + (now.nanos
                    - workers[i].last_input_at.nanos) >= threshold;
            if i < n {
                assert(front[i] == workers[i]);
            } else {
                assert(all[before.len() as int] == stop);
            }
        }
    }
}

/// The tag of an explore worker names its workflow, and no two workflows have
/// the same.
pub proof fn explore_tags_name_the_workflow(a: Seq<char>, b: Seq<char>)
    ensures
        explore_tag_of(a) == "clhorde-scheduler/wf="@ + a + "/phase=explore"@,
        a != b ==> explore_tag_of(a) != explore_tag_of(b),
{
    reveal_strlit("/phase=");
    reveal_strlit("explore");
    reveal_strlit("/phase=explore");
    let head = "clhorde-scheduler/wf="@;
    let tail = "/phase=explore"@;
    assert(explore_tag_of(a) =~= head + a + tail);
    assert(explore_tag_of(b) =~= head + b + tail);
    if explore_tag_of(a) == explore_tag_of(b) {
        let x = head + a + tail;
        let y = head + b + tail;
        assert(x.len() == y.len());
        assert(a =~= x.subrange(head.len() as int, (head.len() + a.len()) as int));
        assert(b =~= y.subrange(head.len() as int, (head.len() + b.len()) as int));
    }
}

/// An explore worker talks, in the given directory itself and not in a worktree,
/// under the tag of its workflow and no other.
pub proof fn explore_workers_talk_in_the_repository(
    name: Seq<char>,
    cwd: Option<Seq<char>>,
    payload: PayloadView,
)
    ensures
        ({
            let p = explore_submission(name, cwd, payload);
            &&& p.text == explore_prompt(payload)
            &&& p.cwd == cwd
            &&& p.mode == "interactive"@
            &&& !p.worktree
            &&& p.worktree_id is None
            &&& p.tags.len() == 1
            &&& p.tags[0] == "clhorde-scheduler/wf="@ + name + "/phase=explore"@
            &&& p.depends_on.len() == 0
        }),
{
    explore_tags_name_the_workflow(name, name);
}

} // verus!
