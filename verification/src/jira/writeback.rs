//! What is written back to a ticket as its workflow goes on.
//!
//! Three kinds of calls can be made, each switched by itself: a comment, the
//! removal of the label that selected the ticket, and a change of the ticket's
//! status. They are made in this order; a call that fails is reported and
//! keeps none of the others from being made.

use vstd::prelude::*;
use vstd::string::*;

use crate::text;

verus! {

/// The label that selects a ticket where none is configured.
pub const DEFAULT_TRIGGER_LABEL: &'static str = "clhorde-plan";

/// The comment on a ticket that is being explored.
pub const COMMENT_EXPLORING: &'static str = "🤖 clhorde started exploring this";

/// The comment on a ticket whose change was archived.
pub const COMMENT_ARCHIVED: &'static str = "🤖 clhorde finished — change archived";

/// The comment on a ticket whose workflow was cancelled.
pub const COMMENT_CANCELLED: &'static str = "🤖 clhorde cancelled this";

/// The turns of a workflow that a ticket is told of.
#[derive(Debug, Clone, Copy, PartialEq, Eq, PartialOrd, Ord, Hash, Structural)]
pub enum LifecyclePhase {
    /// The worker that explores the ticket started.
    Exploring,
    /// The workflow came to its end.
    Archived,
    /// The workflow was given up.
    Cancelled,
}

/// The name of a phase.
pub open spec fn phase_name(p: LifecyclePhase) -> Seq<char> {
    match p {
        LifecyclePhase::Exploring => "Exploring"@,
        LifecyclePhase::Archived => "Archived"@,
        LifecyclePhase::Cancelled => "Cancelled"@,
    }
}

impl LifecyclePhase {
    /// The name of this phase.
    pub fn name(self) -> (r: &'static str)
        ensures
            r@ == phase_name(self),
    {
        match self {
            LifecyclePhase::Exploring => "Exploring",
            LifecyclePhase::Archived => "Archived",
            LifecyclePhase::Cancelled => "Cancelled",
        }
    }
}

/// The status changes to ask for, by phase.
#[derive(Debug, PartialEq)]
pub struct Transitions {
    exploring: Option<String>,
    archived: Option<String>,
    cancelled: Option<String>,
}

impl View for Transitions {
    type V = spec_fn(LifecyclePhase) -> Option<Seq<char>>;

    closed spec fn view(&self) -> spec_fn(LifecyclePhase) -> Option<Seq<char>> {
        |p: LifecyclePhase|
            match p {
                LifecyclePhase::Exploring => text::text_option(self.exploring),
                LifecyclePhase::Archived => text::text_option(self.archived),
                LifecyclePhase::Cancelled => text::text_option(self.cancelled),
            }
    }
}

/// A clone of an optional string.
fn owned_option(s: &Option<String>) -> (r: Option<String>)
    ensures
        text::text_option(r) == text::text_option(*s),
{
    match s {
        Some(t) => Some(t.clone()),
        None => None,
    }
}

impl Clone for Transitions {
    fn clone(&self) -> (r: Self)
        ensures
            r@ == self@,
    {
        let r = Transitions {
            exploring: owned_option(&self.exploring),
            archived: owned_option(&self.archived),
            cancelled: owned_option(&self.cancelled),
        };
        proof {
            assert(r@ =~= self@);
        }
        r
    }
}

/// No status change in any phase.
pub open spec fn no_transitions() -> spec_fn(LifecyclePhase) -> Option<Seq<char>> {
    |p: LifecyclePhase| None
}

impl Transitions {
    /// No status changes.
    pub fn new() -> (r: Transitions)
        ensures
            r@ == no_transitions(),
    {
        let r = Transitions { exploring: None, archived: None, cancelled: None };
        proof {
            assert(r@ =~= no_transitions());
        }
        r
    }

    /// The status change to ask for in a phase.
    pub fn get(&self, phase: LifecyclePhase) -> (r: Option<&String>)
        ensures
            match r {
                Some(id) => (self@)(phase) == Some(id@),
                None => (self@)(phase) is None,
            },
    {
        match phase {
            LifecyclePhase::Exploring => self.exploring.as_ref(),
            LifecyclePhase::Archived => self.archived.as_ref(),
            LifecyclePhase::Cancelled => self.cancelled.as_ref(),
        }
    }

    /// Ask for the status change `id` in a phase, in place of any other.
    pub fn insert(&mut self, phase: LifecyclePhase, id: String)
        ensures
            final(self)@ == (|p: LifecyclePhase|
                if p == phase {
                    Some(id@)
                } else {
                    (old(self)@)(p)
                }),
    {
        match phase {
            LifecyclePhase::Exploring => {
                self.exploring = Some(id);
            },
            LifecyclePhase::Archived => {
                self.archived = Some(id);
            },
            LifecyclePhase::Cancelled => {
                self.cancelled = Some(id);
            },
        }
        proof {
            assert(self@ =~= (|p: LifecyclePhase|
                if p == phase {
                    Some(id@)
                } else {
                    (old(self)@)(p)
                }));
        }
    }

    /// Whether no status change is asked for in any phase.
    pub fn is_empty(&self) -> (r: bool)
        ensures
            r == (forall|p: LifecyclePhase| #[trigger] (self@)(p) is None),
    {
        let r: bool = self.exploring.is_none() && self.archived.is_none()
            && self.cancelled.is_none();
        proof {
            if !r {
                assert((self@)(LifecyclePhase::Exploring) is Some || (self@)(
                    LifecyclePhase::Archived,
                ) is Some || (self@)(LifecyclePhase::Cancelled) is Some);
            }
        }
        r
    }
}

/// What is written back for the tickets of a queue.
#[derive(Debug, PartialEq)]
pub struct JiraWritebackConfig {
    /// Whether comments are made.
    pub comments: bool,
    /// Whether the trigger label is removed.
    pub labels: bool,
    pub trigger_label: String,
    pub transitions: Transitions,
    pub comment_exploring: String,
    pub comment_archived: String,
    pub comment_cancelled: String,
}

/// What a [`JiraWritebackConfig`] holds.
#[verifier::ext_equal]
pub ghost struct WritebackView {
    pub comments: bool,
    pub labels: bool,
    pub trigger_label: Seq<char>,
    pub transitions: spec_fn(LifecyclePhase) -> Option<Seq<char>>,
    pub comment_exploring: Seq<char>,
    pub comment_archived: Seq<char>,
    pub comment_cancelled: Seq<char>,
}

impl View for JiraWritebackConfig {
    type V = WritebackView;

    open spec fn view(&self) -> WritebackView {
        WritebackView {
            comments: self.comments,
            labels: self.labels,
            trigger_label: self.trigger_label@,
            transitions: self.transitions@,
            comment_exploring: self.comment_exploring@,
            comment_archived: self.comment_archived@,
            comment_cancelled: self.comment_cancelled@,
        }
    }
}

impl Clone for JiraWritebackConfig {
    fn clone(&self) -> (r: Self)
        ensures
            r@ == self@,
    {
        JiraWritebackConfig {
            comments: self.comments,
            labels: self.labels,
            trigger_label: self.trigger_label.clone(),
            transitions: self.transitions.clone(),
            comment_exploring: self.comment_exploring.clone(),
            comment_archived: self.comment_archived.clone(),
            comment_cancelled: self.comment_cancelled.clone(),
        }
    }
}

/// Comments and label removal, but no status changes.
pub open spec fn default_writeback() -> WritebackView {
    WritebackView {
        comments: true,
        labels: true,
        trigger_label: DEFAULT_TRIGGER_LABEL@,
        transitions: no_transitions(),
        comment_exploring: COMMENT_EXPLORING@,
        comment_archived: COMMENT_ARCHIVED@,
        comment_cancelled: COMMENT_CANCELLED@,
    }
}

impl Default for JiraWritebackConfig {
    fn default() -> (r: Self)
        ensures
            r@ == default_writeback(),
    {
        JiraWritebackConfig {
            comments: true,
            labels: true,
            trigger_label: text::owned(DEFAULT_TRIGGER_LABEL),
            transitions: Transitions::new(),
            comment_exploring: text::owned(COMMENT_EXPLORING),
            comment_archived: text::owned(COMMENT_ARCHIVED),
            comment_cancelled: text::owned(COMMENT_CANCELLED),
        }
    }
}

/// The comment for a phase.
pub open spec fn comment_in(c: WritebackView, p: LifecyclePhase) -> Seq<char> {
    match p {
        LifecyclePhase::Exploring => c.comment_exploring,
        LifecyclePhase::Archived => c.comment_archived,
        LifecyclePhase::Cancelled => c.comment_cancelled,
    }
}

impl JiraWritebackConfig {
    /// The comment for a phase.
    pub fn comment_for(&self, phase: LifecyclePhase) -> (r: &str)
        ensures
            r@ == comment_in(self@, phase),
    {
        match phase {
            LifecyclePhase::Exploring => self.comment_exploring.as_str(),
            LifecyclePhase::Archived => self.comment_archived.as_str(),
            LifecyclePhase::Cancelled => self.comment_cancelled.as_str(),
        }
    }
}

/// A call to make for a ticket.
#[derive(Debug, PartialEq)]
pub enum WriteCall {
    AddComment { key: String, body: String },
    RemoveLabel { key: String, label: String },
    Transition { key: String, transition_id: String },
}

/// What a [`WriteCall`] holds.
pub ghost enum WriteCallView {
    AddComment { key: Seq<char>, body: Seq<char> },
    RemoveLabel { key: Seq<char>, label: Seq<char> },
    Transition { key: Seq<char>, transition_id: Seq<char> },
}

impl View for WriteCall {
    type V = WriteCallView;

    open spec fn view(&self) -> WriteCallView {
        match *self {
            WriteCall::AddComment { key, body } => WriteCallView::AddComment {
                key: key@,
                body: body@,
            },
            WriteCall::RemoveLabel { key, label } => WriteCallView::RemoveLabel {
                key: key@,
                label: label@,
            },
            WriteCall::Transition { key, transition_id } => WriteCallView::Transition {
                key: key@,
                transition_id: transition_id@,
            },
        }
    }
}

/// What a list of calls holds.
pub open spec fn call_views(cs: Seq<WriteCall>) -> Seq<WriteCallView> {
    cs.map_values(|c: WriteCall| c@)
}

/// `x` if `b` holds, as a sequence.
pub open spec fn only_if<A>(b: bool, x: A) -> Seq<A> {
    if b {
        seq![x]
    } else {
        Seq::empty()
    }
}

/// The calls to make for the ticket `key` that enters a phase.
pub open spec fn calls_for(c: WritebackView, key: Seq<char>, p: LifecyclePhase) -> Seq<
    WriteCallView,
> {
    only_if(c.comments, WriteCallView::AddComment { key, body: comment_in(c, p) }) + only_if(
        c.labels && p != LifecyclePhase::Archived,
        WriteCallView::RemoveLabel { key, label: c.trigger_label },
    ) + only_if(
        (c.transitions)(p) is Some,
        WriteCallView::Transition { key, transition_id: (c.transitions)(p)->0 },
    )
}

/// The message for a call that failed with `error`.
pub open spec fn failure_of(c: WriteCallView, p: LifecyclePhase, error: Seq<char>) -> Seq<char> {
    match c {
        WriteCallView::AddComment { key, .. } => "jira comment on "@ + key + " ("@ + phase_name(p)
            + "): "@ + error,
        WriteCallView::RemoveLabel { key, label } => "jira label remove on "@ + key + " ("@ + label
            + "): "@ + error,
        WriteCallView::Transition { key, transition_id } => "jira transition on "@ + key + " ("@
            + phase_name(p) + " → "@ + transition_id + "): "@ + error,
    }
}

impl WriteCall {
    /// The message for this call where it failed with `error`.
    pub fn failure_text(&self, phase: LifecyclePhase, error: &str) -> (r: String)
        ensures
            r@ == failure_of(self@, phase, error@),
    {
        match self {
            WriteCall::AddComment { key, .. } => text::cat6(
                "jira comment on ",
                key.as_str(),
                " (",
                phase.name(),
                "): ",
                error,
            ),
            WriteCall::RemoveLabel { key, label } => text::cat6(
                "jira label remove on ",
                key.as_str(),
                " (",
                label.as_str(),
                "): ",
                error,
            ),
            WriteCall::Transition { key, transition_id } => {
                let mut out: String = text::cat6(
                    "jira transition on ",
                    key.as_str(),
                    " (",
                    phase.name(),
                    " → ",
                    transition_id.as_str(),
                );
                out.append("): ");
                out.append(error);
                out
            },
        }
    }
}

/// Decides what is written back to the tickets of a queue.
#[derive(Debug, PartialEq)]
pub struct JiraWriteback {
    pub config: JiraWritebackConfig,
}

impl JiraWriteback {
    /// A write-back with the given configuration.
    pub fn new(config: JiraWritebackConfig) -> (r: JiraWriteback)
        ensures
            r.config@ == config@,
    {
        JiraWriteback { config }
    }

    /// The calls to make when the ticket `key` is being explored.
    pub fn notify_exploring(&self, key: &str) -> (r: Vec<WriteCall>)
        ensures
            call_views(r@) == calls_for(self.config@, key@, LifecyclePhase::Exploring),
    {
        self.phase_calls(key, LifecyclePhase::Exploring, true)
    }

    /// The calls to make when the change for the ticket `key` was archived.
    pub fn notify_archived(&self, key: &str) -> (r: Vec<WriteCall>)
        ensures
            call_views(r@) == calls_for(self.config@, key@, LifecyclePhase::Archived),
    {
        self.phase_calls(key, LifecyclePhase::Archived, false)
    }

    /// The calls to make when the workflow for the ticket `key` was cancelled.
    pub fn notify_cancelled(&self, key: &str) -> (r: Vec<WriteCall>)
        ensures
            call_views(r@) == calls_for(self.config@, key@, LifecyclePhase::Cancelled),
    {
        self.phase_calls(key, LifecyclePhase::Cancelled, true)
    }

    /// The calls to make for a phase.
    fn phase_calls(&self, key: &str, phase: LifecyclePhase, remove_label: bool) -> (r: Vec<
        WriteCall,
    >)
        requires
            remove_label == (phase != LifecyclePhase::Archived),
        ensures
            call_views(r@) == calls_for(self.config@, key@, phase),
    {
        let mut out: Vec<WriteCall> = Vec::new();
        if self.config.comments {
            let body: String = text::owned(self.config.comment_for(phase));
            out.push(WriteCall::AddComment { key: text::owned(key), body });
        }
        if remove_label && self.config.labels {
            out.push(
                WriteCall::RemoveLabel {
                    key: text::owned(key),
                    label: self.config.trigger_label.clone(),
                },
            );
        }
        if let Some(id) = self.config.transitions.get(phase) {
            out.push(WriteCall::Transition { key: text::owned(key), transition_id: id.clone() });
        }
        proof {
            assert(call_views(out@) =~= calls_for(self.config@, key@, phase));
        }
        out
    }
}

/// Switching one kind of call off leaves the others as they are.
pub proof fn calls_are_switched_apart(c: WritebackView, key: Seq<char>, p: LifecyclePhase)
    ensures
        calls_for(c, key, p) == calls_for(
            (WritebackView { labels: false, transitions: no_transitions(), ..c }),
            key,
            p,
        ) + calls_for(
            (WritebackView { comments: false, transitions: no_transitions(), ..c }),
            key,
            p,
        ) + calls_for((WritebackView { comments: false, labels: false, ..c }), key, p),
{
    assert(calls_for(c, key, p) =~= calls_for(
        WritebackView { labels: false, transitions: no_transitions(), ..c },
        key,
        p,
    ) + calls_for(
        WritebackView { comments: false, transitions: no_transitions(), ..c },
        key,
        p,
    ) + calls_for(WritebackView { comments: false, labels: false, ..c }, key, p));
}

/// What is written for a ticket: first the comment of the phase, where comments
/// are on; then the trigger label is removed, where labels are on, unless the
/// work is archived; then the status change of the phase, where there is one.
/// All of it is for that ticket, and nothing else is written.
pub proof fn calls_are_those_switched_on(c: WritebackView, key: Seq<char>, p: LifecyclePhase)
    ensures
        ({
            let calls = calls_for(c, key, p);
            let comment = match p {
                LifecyclePhase::Exploring => c.comment_exploring,
                LifecyclePhase::Archived => c.comment_archived,
                LifecyclePhase::Cancelled => c.comment_cancelled,
            };
            let labels = c.labels && p != LifecyclePhase::Archived;
            let first = if c.comments {
                1int
            } else {
                0
            };
            let second = first + if labels {
                1int
            } else {
                0
            };
            &&& c.comments ==> calls.len() > 0 && calls[0] == (WriteCallView::AddComment {
                key,
                body: comment,
            })
            &&& labels ==> calls.len() > first && calls[first] == (WriteCallView::RemoveLabel {
                key,
                label: c.trigger_label,
            })
            &&& (c.transitions)(p) matches Some(id) ==> calls.len() == second + 1 && calls[second]
                == (WriteCallView::Transition { key, transition_id: id })
            &&& (c.transitions)(p) is None ==> calls.len() == second
        }),
{
}

/// Where nothing is said, comments are written and the label `clhorde-plan` is
/// removed, and no status is changed.
pub proof fn defaults_comment_and_unlabel(key: Seq<char>, p: LifecyclePhase)
    ensures
        default_writeback().comments,
        default_writeback().labels,
        default_writeback().trigger_label == "clhorde-plan"@,
        (default_writeback().transitions)(p) is None,
        default_writeback().comment_exploring == "🤖 clhorde started exploring this"@,
        default_writeback().comment_archived == "🤖 clhorde finished — change archived"@,
        default_writeback().comment_cancelled == "🤖 clhorde cancelled this"@,
{
}

/// The message of a failed call names the ticket and ends in the error.
pub proof fn failures_name_the_ticket(c: WriteCallView, p: LifecyclePhase, error: Seq<char>)
    ensures
        ({
            let m = failure_of(c, p, error);
            let key = match c {
                WriteCallView::AddComment { key, .. } => key,
                WriteCallView::RemoveLabel { key, .. } => key,
                WriteCallView::Transition { key, .. } => key,
            };
            let what = match c {
                WriteCallView::AddComment { .. } => "jira comment on "@,
                WriteCallView::RemoveLabel { .. } => "jira label remove on "@,
                WriteCallView::Transition { .. } => "jira transition on "@,
            };
            &&& m.len() >= what.len() + key.len() + error.len()
            &&& m.take((what.len() + key.len()) as int) == what + key
            &&& m.skip(m.len() - error.len()) == error
        }),
{
    let m = failure_of(c, p, error);
    let key = match c {
        WriteCallView::AddComment { key, .. } => key,
        WriteCallView::RemoveLabel { key, .. } => key,
        WriteCallView::Transition { key, .. } => key,
    };
    let what = match c {
        WriteCallView::AddComment { .. } => "jira comment on "@,
        WriteCallView::RemoveLabel { .. } => "jira label remove on "@,
        WriteCallView::Transition { .. } => "jira transition on "@,
    };
    assert(m.take((what.len() + key.len()) as int) =~= what + key);
    assert(m.skip(m.len() - error.len()) =~= error);
}

} // verus!
