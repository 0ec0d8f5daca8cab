//! The `[sources.jira]` block, checked and with its defaults filled in.

use vstd::prelude::*;
use vstd::string::*;

use super::source::{
    longer, queue_views, JiraSourceConfig, QueueConfig, QueueConfigView,
    DEFAULT_MAX_CONCURRENT_EXPLORE, DEFAULT_MAX_RESULTS, DEFAULT_POLL_INTERVAL, MIN_POLL_INTERVAL,
};
use super::writeback::{
    no_transitions, only_if, JiraWritebackConfig, LifecyclePhase, Transitions, WritebackView,
    COMMENT_ARCHIVED, COMMENT_CANCELLED, COMMENT_EXPLORING, DEFAULT_TRIGGER_LABEL,
};
use crate::keymap::{TomlConfig, TomlNamedQueue, TomlSourcesJira, TomlSourcesJiraQueue};
use crate::order::{sort_by_name, sorted_by_name, Named};
use crate::scheduler::explore::DEFAULT_IDLE_THRESHOLD;
use crate::text;
use crate::time::{self, Nanos, SECOND};

verus! {

/// The mode of a queue whose tickets are explored first.
pub const MODE_OPENSPEC: &'static str = "openspec";

/// The mode of a queue whose tickets go straight to a worker. The name is
/// reserved; such a queue is refused.
pub const MODE_DIRECT: &'static str = "direct";

// ---------------------------------------------------------------------
// Errors
// ---------------------------------------------------------------------

/// What is wrong with a `[sources.jira]` block.
#[derive(Debug, PartialEq, Eq)]
pub enum JiraConfigError {
    MissingUrl,
    MissingEmail,
    MissingAuthTokenEnv,
    MissingFilterJql { queue: String },
    DirectModeNotImplemented { queue: String },
    UnrecognisedMode { queue: String, mode: String },
    UnrecognisedTransitionPhase { queue: String, phase: String },
    UnsafeQueueName { queue: String },
    /// No ticket could ever be explored.
    ZeroMaxConcurrentExplore,
}

/// What a [`JiraConfigError`] holds.
pub ghost enum ConfigErrorView {
    MissingUrl,
    MissingEmail,
    MissingAuthTokenEnv,
    MissingFilterJql { queue: Seq<char> },
    DirectModeNotImplemented { queue: Seq<char> },
    UnrecognisedMode { queue: Seq<char>, mode: Seq<char> },
    UnrecognisedTransitionPhase { queue: Seq<char>, phase: Seq<char> },
    UnsafeQueueName { queue: Seq<char> },
    ZeroMaxConcurrentExplore,
}

impl View for JiraConfigError {
    type V = ConfigErrorView;

    open spec fn view(&self) -> ConfigErrorView {
        match *self {
            JiraConfigError::MissingUrl => ConfigErrorView::MissingUrl,
            JiraConfigError::MissingEmail => ConfigErrorView::MissingEmail,
            JiraConfigError::MissingAuthTokenEnv => ConfigErrorView::MissingAuthTokenEnv,
            JiraConfigError::MissingFilterJql { queue } => ConfigErrorView::MissingFilterJql {
                queue: queue@,
            },
            JiraConfigError::DirectModeNotImplemented { queue } => {
                ConfigErrorView::DirectModeNotImplemented { queue: queue@ }
            },
            JiraConfigError::UnrecognisedMode { queue, mode } => {
                ConfigErrorView::UnrecognisedMode { queue: queue@, mode: mode@ }
            },
            JiraConfigError::UnrecognisedTransitionPhase { queue, phase } => {
                ConfigErrorView::UnrecognisedTransitionPhase { queue: queue@, phase: phase@ }
            },
            JiraConfigError::UnsafeQueueName { queue } => ConfigErrorView::UnsafeQueueName {
                queue: queue@,
            },
            JiraConfigError::ZeroMaxConcurrentExplore => ConfigErrorView::ZeroMaxConcurrentExplore,
        }
    }
}

/// What a list of errors holds.
pub open spec fn config_error_views(es: Seq<JiraConfigError>) -> Seq<ConfigErrorView> {
    es.map_values(|e: JiraConfigError| e@)
}

/// The message for an error.
pub open spec fn config_error_text(e: ConfigErrorView) -> Seq<char> {
    match e {
        ConfigErrorView::MissingUrl => {
            "[sources.jira] missing required field `url` (e.g. `url = \"https://your-site.atlassian.net\"`)"@
        },
        ConfigErrorView::MissingEmail => {
            "[sources.jira] missing required field `email` (the Atlassian account tied to the API token)"@
        },
        ConfigErrorView::MissingAuthTokenEnv => {
            "[sources.jira] missing required field `auth_token_env` (name of the env var holding the Atlassian API token)"@
        },
        ConfigErrorView::MissingFilterJql { queue } => "[sources.jira.queues."@ + queue
            + "] missing required field `filter_jql`"@,
        ConfigErrorView::DirectModeNotImplemented { queue } => "[sources.jira.queues."@ + queue
            + "] mode = \"direct\" is reserved but not yet implemented in this change; track the follow-up change or use mode = \"openspec\" (the default)"@,
        ConfigErrorView::UnrecognisedMode { queue, mode } => "[sources.jira.queues."@ + queue
            + "] unrecognised mode "@ + text::quoted(mode)
            + "; expected \"openspec\" or \"direct\""@,
        ConfigErrorView::UnrecognisedTransitionPhase { queue, phase } => "[sources.jira.queues."@
            + queue + ".transitions] unrecognised phase "@ + text::quoted(phase)
            + "; expected \"exploring\", \"archived\", or \"cancelled\""@,
        ConfigErrorView::UnsafeQueueName { queue } => "[sources.jira.queues."@ + queue
            + "] queue name contains unsafe characters (`/`, `\\`, NUL, or `..`); pick a name suitable for a filename component"@,
        ConfigErrorView::ZeroMaxConcurrentExplore => {
            "[sources.jira] max_concurrent_explore must be >= 1 (zero would queue every ticket forever)"@
        },
    }
}

impl JiraConfigError {
    /// The message for this error.
    pub fn to_text(&self) -> (r: String)
        ensures
            r@ == config_error_text(self@),
    {
        match self {
            JiraConfigError::MissingUrl => text::owned(
                "[sources.jira] missing required field `url` (e.g. `url = \"https://your-site.atlassian.net\"`)",
            ),
            JiraConfigError::MissingEmail => text::owned(
                "[sources.jira] missing required field `email` (the Atlassian account tied to the API token)",
            ),
            JiraConfigError::MissingAuthTokenEnv => text::owned(
                "[sources.jira] missing required field `auth_token_env` (name of the env var holding the Atlassian API token)",
            ),
            JiraConfigError::MissingFilterJql { queue } => text::cat3(
                "[sources.jira.queues.",
                queue.as_str(),
                "] missing required field `filter_jql`",
            ),
            JiraConfigError::DirectModeNotImplemented { queue } => text::cat3(
                "[sources.jira.queues.",
                queue.as_str(),
                "] mode = \"direct\" is reserved but not yet implemented in this change; track the follow-up change or use mode = \"openspec\" (the default)",
            ),
            JiraConfigError::UnrecognisedMode { queue, mode } => {
                let shown: String = text::quote(mode.as_str());
                text::cat5(
                    "[sources.jira.queues.",
                    queue.as_str(),
                    "] unrecognised mode ",
                    shown.as_str(),
                    "; expected \"openspec\" or \"direct\"",
                )
            },
            JiraConfigError::UnrecognisedTransitionPhase { queue, phase } => {
                let shown: String = text::quote(phase.as_str());
                text::cat5(
                    "[sources.jira.queues.",
                    queue.as_str(),
                    ".transitions] unrecognised phase ",
                    shown.as_str(),
                    "; expected \"exploring\", \"archived\", or \"cancelled\"",
                )
            },
            JiraConfigError::UnsafeQueueName { queue } => text::cat3(
                "[sources.jira.queues.",
                queue.as_str(),
                "] queue name contains unsafe characters (`/`, `\\`, NUL, or `..`); pick a name suitable for a filename component",
            ),
            JiraConfigError::ZeroMaxConcurrentExplore => text::owned(
                "[sources.jira] max_concurrent_explore must be >= 1 (zero would queue every ticket forever)",
            ),
        }
    }
}

// ---------------------------------------------------------------------
// One queue
// ---------------------------------------------------------------------

/// One queue, checked.
#[derive(Debug, PartialEq)]
pub struct JiraQueue {
    pub config: QueueConfig,
    pub writeback: JiraWritebackConfig,
}

/// What a [`JiraQueue`] holds.
pub ghost struct JiraQueueView {
    pub config: QueueConfigView,
    pub writeback: WritebackView,
}

impl View for JiraQueue {
    type V = JiraQueueView;

    open spec fn view(&self) -> JiraQueueView {
        JiraQueueView { config: self.config@, writeback: self.writeback@ }
    }
}

impl Clone for JiraQueue {
    fn clone(&self) -> (r: Self)
        ensures
            r@ == self@,
    {
        JiraQueue { config: self.config.clone(), writeback: self.writeback.clone() }
    }
}

/// What a list of queues holds.
pub open spec fn jira_queue_views(qs: Seq<JiraQueue>) -> Seq<JiraQueueView> {
    qs.map_values(|q: JiraQueue| q@)
}

/// The phase that `s` names, whatever the case of its ASCII letters.
pub open spec fn phase_named(s: Seq<char>) -> Option<LifecyclePhase> {
    let t = text::lowered(text::trimmed(s));
    if t == "exploring"@ {
        Some(LifecyclePhase::Exploring)
    } else if t == "archived"@ {
        Some(LifecyclePhase::Archived)
    } else if t == "cancelled"@ || t == "canceled"@ {
        Some(LifecyclePhase::Cancelled)
    } else {
        None
    }
}

/// The phase that `s` names.
fn parse_phase(s: &str) -> (r: Option<LifecyclePhase>)
    ensures
        r == phase_named(s@),
{
    let t: String = text::to_ascii_lower(text::trim(s));
    let t: &str = t.as_str();
    if text::same(t, "exploring") {
        Some(LifecyclePhase::Exploring)
    } else if text::same(t, "archived") {
        Some(LifecyclePhase::Archived)
    } else if text::same(t, "cancelled") || text::same(t, "canceled") {
        Some(LifecyclePhase::Cancelled)
    } else {
        None
    }
}

/// A queue name that can be the name of a file and leads out of no directory.
pub open spec fn safe_queue_name(name: Seq<char>) -> bool {
    &&& name.len() > 0
    &&& text::find(name, ".."@) is None
    &&& name != "."@
    &&& !name.contains('/')
    &&& !name.contains('\\')
    &&& !name.contains('\0')
}

/// Whether `name` can be the name of a file and leads out of no directory.
pub fn is_safe_queue_name(name: &str) -> (r: bool)
    ensures
        r == safe_queue_name(name@),
{
    name.unicode_len() > 0 && !text::contains(name, "..") && !text::same(name, ".")
        && !text::has_char(name, '/') && !text::has_char(name, '\\') && !text::has_char(name, '\0')
}

/// The errors for the phase names that are none.
pub open spec fn transition_errors(queue: Seq<char>, ts: Seq<(String, String)>) -> Seq<
    ConfigErrorView,
>
    decreases ts.len(),
{
    if ts.len() == 0 {
        Seq::empty()
    } else {
        let phase = ts.last().0@;
        transition_errors(queue, ts.drop_last()) + only_if(
            phase_named(phase) is None,
            ConfigErrorView::UnrecognisedTransitionPhase { queue, phase },
        )
    }
}

/// The status changes by phase; where two names stand for one phase, the later
/// one counts.
pub open spec fn transitions_named(ts: Seq<(String, String)>) -> spec_fn(LifecyclePhase) -> Option<
    Seq<char>,
>
    decreases ts.len(),
{
    if ts.len() == 0 {
        no_transitions()
    } else {
        let earlier = transitions_named(ts.drop_last());
        let (name, id) = ts.last();
        match phase_named(name@) {
            Some(phase) => |p: LifecyclePhase|
                if p == phase {
                    Some(text::trimmed(id@))
                } else {
                    earlier(p)
                },
            None => earlier,
        }
    }
}

/// The status changes of a queue, and the errors in their names.
fn read_transitions(name: &str, ts: &Vec<(String, String)>, errors: &mut Vec<JiraConfigError>) -> (r:
    Transitions)
    ensures
        r@ == transitions_named(ts@),
        config_error_views(final(errors)@) == config_error_views(old(errors)@) + transition_errors(
            name@,
            ts@,
        ),
{
    let mut out: Transitions = Transitions::new();
    let ghost e0 = config_error_views(errors@);
    let mut i: usize = 0;
    proof {
        assert(e0 =~= e0 + transition_errors(name@, ts@.take(0)));
    }
    while i < ts.len()
        invariant
            i <= ts.len(),
            e0 == config_error_views(old(errors)@),
            out@ == transitions_named(ts@.take(i as int)),
            config_error_views(errors@) == e0 + transition_errors(name@, ts@.take(i as int)),
        decreases ts.len() - i,
    {
        let (phase_name, id) = &ts[i];
        let ghost e1 = errors@;
        proof {
            assert(ts@.take(i + 1).drop_last() =~= ts@.take(i as int));
            assert(ts@.take(i + 1).last() == ts@[i as int]);
        }
        match parse_phase(phase_name.as_str()) {
            Some(phase) => {
                out.insert(phase, text::owned(text::trim(id.as_str())));
                proof {
                    assert(transition_errors(name@, ts@.take(i + 1)) =~= transition_errors(
                        name@,
                        ts@.take(i as int),
                    ));
                    assert(out@ =~= transitions_named(ts@.take(i + 1)));
                }
            },
            None => {
                errors.push(
                    JiraConfigError::UnrecognisedTransitionPhase {
                        queue: text::owned(name),
                        phase: phase_name.clone(),
                    },
                );
                proof {
                    assert(config_error_views(errors@) =~= config_error_views(e1).push(
                        errors@.last()@,
                    ));
                    assert(config_error_views(errors@) =~= e0 + transition_errors(
                        name@,
                        ts@.take(i + 1),
                    ));
                }
            },
        }
        i = i + 1;
    }
    proof {
        assert(ts@.take(ts@.len() as int) =~= ts@);
    }
    out
}

/// The mode of a queue.
pub open spec fn mode_of(q: TomlSourcesJiraQueue) -> Seq<char> {
    match text::kept_text(text::text_option(q.mode)) {
        Some(m) => m,
        None => MODE_OPENSPEC@,
    }
}

/// What is wrong with a queue.
pub open spec fn queue_errors(name: Seq<char>, q: TomlSourcesJiraQueue) -> Seq<ConfigErrorView> {
    let mode = mode_of(q);
    only_if(!safe_queue_name(name), ConfigErrorView::UnsafeQueueName { queue: name }) + only_if(
        text::kept_text(text::text_option(q.filter_jql)) is None,
        ConfigErrorView::MissingFilterJql { queue: name },
    ) + only_if(
        mode == MODE_DIRECT@,
        ConfigErrorView::DirectModeNotImplemented { queue: name },
    ) + only_if(
        mode != MODE_OPENSPEC@ && mode != MODE_DIRECT@,
        ConfigErrorView::UnrecognisedMode { queue: name, mode },
    ) + transition_errors(name, q.transitions@)
}

/// The queue that a block without errors describes. The filter is kept as it
/// is written.
pub open spec fn queue_described(name: Seq<char>, q: TomlSourcesJiraQueue) -> JiraQueueView {
    JiraQueueView {
        config: QueueConfigView {
            name,
            filter_jql: q.filter_jql->0@,
        },
        writeback: WritebackView {
            comments: q.comments != Some(false),
            labels: q.labels != Some(false),
            trigger_label: match q.trigger_label {
                Some(l) => l@,
                None => DEFAULT_TRIGGER_LABEL@,
            },
            transitions: transitions_named(q.transitions@),
            comment_exploring: COMMENT_EXPLORING@,
            comment_archived: COMMENT_ARCHIVED@,
            comment_cancelled: COMMENT_CANCELLED@,
        },
    }
}

/// The mode of a queue.
fn read_mode(q: &TomlSourcesJiraQueue) -> (r: String)
    ensures
        r@ == mode_of(*q),
{
    match text::kept(&q.mode) {
        Some(m) => m,
        None => text::owned(MODE_OPENSPEC),
    }
}

/// An optional flag that is on where it is not given.
fn flag(b: Option<bool>) -> (r: bool)
    ensures
        r == (b != Some(false)),
{
    match b {
        Some(b) => b,
        None => true,
    }
}

/// Put `e` behind `errors`.
fn note(errors: &mut Vec<JiraConfigError>, e: JiraConfigError)
    ensures
        config_error_views(final(errors)@) == config_error_views(old(errors)@).push(e@),
{
    errors.push(e);
    proof {
        assert(config_error_views(errors@) =~= config_error_views(old(errors)@).push(e@));
    }
}

/// What is wrong with the name and the mode of a queue.
fn check_queue(name: &str, filter: &Option<String>, mode: &str) -> (r: Vec<JiraConfigError>)
    ensures
        config_error_views(r@) == only_if(
            !safe_queue_name(name@),
            ConfigErrorView::UnsafeQueueName { queue: name@ },
        ) + only_if(*filter is None, ConfigErrorView::MissingFilterJql { queue: name@ }) + only_if(
            mode@ == MODE_DIRECT@,
            ConfigErrorView::DirectModeNotImplemented { queue: name@ },
        ) + only_if(
            mode@ != MODE_OPENSPEC@ && mode@ != MODE_DIRECT@,
            ConfigErrorView::UnrecognisedMode { queue: name@, mode: mode@ },
        ),
{
    let mut errors: Vec<JiraConfigError> = Vec::new();
    if !is_safe_queue_name(name) {
        note(&mut errors, JiraConfigError::UnsafeQueueName { queue: text::owned(name) });
    }
    if filter.is_none() {
        note(&mut errors, JiraConfigError::MissingFilterJql { queue: text::owned(name) });
    }
    proof {
        reveal_strlit("openspec");
        reveal_strlit("direct");
        assert("openspec"@.len() != "direct"@.len());
    }
    if text::same(mode, MODE_OPENSPEC) {
    } else if text::same(mode, MODE_DIRECT) {
        note(&mut errors, JiraConfigError::DirectModeNotImplemented { queue: text::owned(name) });
    } else {
        note(
            &mut errors,
            JiraConfigError::UnrecognisedMode { queue: text::owned(name), mode: text::owned(mode) },
        );
    }
    proof {
        assert(config_error_views(errors@) =~= only_if(
            !safe_queue_name(name@),
            ConfigErrorView::UnsafeQueueName { queue: name@ },
        ) + only_if(*filter is None, ConfigErrorView::MissingFilterJql { queue: name@ }) + only_if(
            mode@ == MODE_DIRECT@,
            ConfigErrorView::DirectModeNotImplemented { queue: name@ },
        ) + only_if(
            mode@ != MODE_OPENSPEC@ && mode@ != MODE_DIRECT@,
            ConfigErrorView::UnrecognisedMode { queue: name@, mode: mode@ },
        ));
    }
    errors
}

/// Check one queue.
pub fn build_queue(name: &str, queue: &TomlSourcesJiraQueue) -> (r: Result<
    JiraQueue,
    Vec<JiraConfigError>,
>)
    ensures
        match r {
            Ok(q) => queue_errors(name@, *queue).len() == 0 && q@ == queue_described(name@, *queue),
            Err(es) => es.len() > 0 && config_error_views(es@) == queue_errors(name@, *queue),
        },
{
    let filter: Option<String> = text::kept(&queue.filter_jql);
    let mode: String = read_mode(queue);
    let mut errors: Vec<JiraConfigError> = check_queue(name, &filter, mode.as_str());
    let transitions: Transitions = read_transitions(name, &queue.transitions, &mut errors);
    proof {
        assert(config_error_views(errors@) == queue_errors(name@, *queue));
        assert(config_error_views(errors@).len() == errors@.len());
    }
    if errors.len() > 0 {
        return Err(errors);
    }
    proof {
        if filter is None {
            assert(queue_errors(name@, *queue).len() >= 1);
        }
    }
    let filter_jql: String = match &queue.filter_jql {
        Some(f) => f.clone(),
        None => String::new(),
    };
    let trigger_label: String = match &queue.trigger_label {
        Some(l) => l.clone(),
        None => text::owned(DEFAULT_TRIGGER_LABEL),
    };
    Ok(
        JiraQueue {
            config: QueueConfig { name: text::owned(name), filter_jql },
            writeback: JiraWritebackConfig {
                comments: flag(queue.comments),
                labels: flag(queue.labels),
                trigger_label,
                transitions,
                comment_exploring: text::owned(COMMENT_EXPLORING),
                comment_archived: text::owned(COMMENT_ARCHIVED),
                comment_cancelled: text::owned(COMMENT_CANCELLED),
            },
        },
    )
}

// ---------------------------------------------------------------------
// All queues
// ---------------------------------------------------------------------

impl<'a> Named for &'a TomlNamedQueue {
    open spec fn name_text(&self) -> Seq<char> {
        self.name@
    }

    fn name_str(&self) -> (r: &str) {
        self.name.as_str()
    }
}

/// The blocks of the queues, in the order of their names.
pub open spec fn ordered_queues<'a>(qs: Seq<TomlNamedQueue>) -> Seq<&'a TomlNamedQueue> {
    sorted_by_name(qs.map_values(|q: TomlNamedQueue| &q))
}

/// The queues without errors.
pub open spec fn accepted_queues(qs: Seq<&TomlNamedQueue>) -> Seq<JiraQueueView>
    decreases qs.len(),
{
    if qs.len() == 0 {
        Seq::empty()
    } else {
        let q = qs.last();
        accepted_queues(qs.drop_last()) + only_if(
            queue_errors(q.name@, q.queue).len() == 0,
            queue_described(q.name@, q.queue),
        )
    }
}

/// The errors of all queues.
pub open spec fn all_queue_errors(qs: Seq<&TomlNamedQueue>) -> Seq<ConfigErrorView>
    decreases qs.len(),
{
    if qs.len() == 0 {
        Seq::empty()
    } else {
        let q = qs.last();
        all_queue_errors(qs.drop_last()) + queue_errors(q.name@, q.queue)
    }
}

/// A queue with errors is left out; it changes nothing about the others.
pub proof fn refused_queue_is_left_out(qs: Seq<&TomlNamedQueue>, i: int)
    requires
        0 <= i < qs.len(),
        queue_errors(qs[i].name@, qs[i].queue).len() > 0,
    ensures
        accepted_queues(qs) == accepted_queues(qs.remove(i)),
    decreases qs.len(),
{
    if i == qs.len() - 1 {
        assert(qs.remove(i) =~= qs.drop_last());
        assert(accepted_queues(qs) =~= accepted_queues(qs.drop_last()));
    } else {
        refused_queue_is_left_out(qs.drop_last(), i);
        assert(qs.remove(i).drop_last() =~= qs.drop_last().remove(i));
        assert(qs.remove(i).last() == qs.last());
    }
}

/// Check all queues, in the order of their names.
fn build_queues(qs: &Vec<TomlNamedQueue>, errors: &mut Vec<JiraConfigError>) -> (r: Vec<JiraQueue>)
    ensures
        jira_queue_views(r@) == accepted_queues(ordered_queues(qs@)),
        config_error_views(final(errors)@) == config_error_views(old(errors)@) + all_queue_errors(
            ordered_queues(qs@),
        ),
{
    let mut refs: Vec<&TomlNamedQueue> = Vec::new();
    let mut i: usize = 0;
    while i < qs.len()
        invariant
            i <= qs.len(),
            refs@ == qs@.map_values(|q: TomlNamedQueue| &q).take(i as int),
        decreases qs.len() - i,
    {
        refs.push(&qs[i]);
        proof {
            let all = qs@.map_values(|q: TomlNamedQueue| &q);
            assert(all.take(i + 1) =~= all.take(i as int).push(all[i as int]));
        }
        i = i + 1;
    }
    proof {
        let all = qs@.map_values(|q: TomlNamedQueue| &q);
        assert(all.take(all.len() as int) =~= all);
    }
    let sorted: Vec<&TomlNamedQueue> = sort_by_name(refs);
    let ghost e0 = config_error_views(errors@);
    let mut out: Vec<JiraQueue> = Vec::new();
    let mut j: usize = 0;
    proof {
        assert(e0 =~= e0 + all_queue_errors(sorted@.take(0)));
        assert(jira_queue_views(out@) =~= accepted_queues(sorted@.take(0)));
    }
    while j < sorted.len()
        invariant
            j <= sorted.len(),
            e0 == config_error_views(old(errors)@),
            jira_queue_views(out@) == accepted_queues(sorted@.take(j as int)),
            config_error_views(errors@) == e0 + all_queue_errors(sorted@.take(j as int)),
        decreases sorted.len() - j,
    {
        let q: &TomlNamedQueue = sorted[j];
        let ghost o = out@;
        let ghost e1 = errors@;
        proof {
            assert(sorted@.take(j + 1).drop_last() =~= sorted@.take(j as int));
            assert(sorted@.take(j + 1).last() == q);
        }
        match build_queue(q.name.as_str(), &q.queue) {
            Ok(built) => {
                out.push(built);
                proof {
                    assert(jira_queue_views(out@) =~= jira_queue_views(o).push(built@));
                    assert(jira_queue_views(out@) =~= accepted_queues(sorted@.take(j + 1)));
                    assert(all_queue_errors(sorted@.take(j + 1)) =~= all_queue_errors(
                        sorted@.take(j as int),
                    ));
                }
            },
            Err(es) => {
                let mut es = es;
                let ghost es0 = es@;
                errors.append(&mut es);
                proof {
                    assert(config_error_views(e1 + es0) =~= config_error_views(e1)
                        + config_error_views(es0));
                    assert(config_error_views(errors@) =~= e0 + all_queue_errors(
                        sorted@.take(j + 1),
                    ));
                    assert(accepted_queues(sorted@.take(j + 1)) =~= accepted_queues(
                        sorted@.take(j as int),
                    ));
                }
            },
        }
        j = j + 1;
    }
    proof {
        assert(sorted@.take(sorted@.len() as int) =~= sorted@);
    }
    out
}

// ---------------------------------------------------------------------
// The whole block
// ---------------------------------------------------------------------

/// A checked `[sources.jira]` block.
#[derive(Debug, Clone, PartialEq)]
pub struct JiraConfig {
    pub url: String,
    pub email: String,
    /// The environment variable that holds the API token.
    pub auth_token_env: String,
    pub poll_interval: Nanos,
    /// Whether the interval was raised to the shortest one allowed.
    pub poll_interval_clamped: bool,
    pub max_concurrent_explore: usize,
    pub idle_explore_timeout: Nanos,
    /// The queues without errors, in the order of their names.
    pub queues: Vec<JiraQueue>,
}

/// What a [`JiraConfig`] holds.
pub ghost struct JiraConfigView {
    pub url: Seq<char>,
    pub email: Seq<char>,
    pub auth_token_env: Seq<char>,
    pub poll_interval: Nanos,
    pub poll_interval_clamped: bool,
    pub max_concurrent_explore: usize,
    pub idle_explore_timeout: Nanos,
    pub queues: Seq<JiraQueueView>,
}

impl View for JiraConfig {
    type V = JiraConfigView;

    open spec fn view(&self) -> JiraConfigView {
        JiraConfigView {
            url: self.url@,
            email: self.email@,
            auth_token_env: self.auth_token_env@,
            poll_interval: self.poll_interval,
            poll_interval_clamped: self.poll_interval_clamped,
            max_concurrent_explore: self.max_concurrent_explore,
            idle_explore_timeout: self.idle_explore_timeout,
            queues: jira_queue_views(self.queues@),
        }
    }
}

/// A checked block, and what was wrong with the queues that were left out.
#[derive(Debug, PartialEq)]
pub struct ValidationOutcome {
    pub config: JiraConfig,
    pub skipped_queue_errors: Vec<JiraConfigError>,
}

/// The first queue with the name `name`.
pub open spec fn queue_called(qs: Seq<JiraQueueView>, name: Seq<char>) -> Option<JiraQueueView>
    decreases qs.len(),
{
    if qs.len() == 0 {
        None
    } else if qs[0].config.name == name {
        Some(qs[0])
    } else {
        queue_called(qs.skip(1), name)
    }
}

impl JiraConfig {
    /// What the poll loop needs of it.
    pub fn source_config(&self) -> (r: JiraSourceConfig)
        ensures
            r.poll_interval == longer(self.poll_interval, MIN_POLL_INTERVAL),
            queue_views(r.queues@) == self@.queues.map_values(|q: JiraQueueView| q.config),
            r.max_results == DEFAULT_MAX_RESULTS,
    {
        let mut queues: Vec<QueueConfig> = Vec::new();
        let mut i: usize = 0;
        let ghost all = self@.queues.map_values(|q: JiraQueueView| q.config);
        while i < self.queues.len()
            invariant
                i <= self.queues.len(),
                all == self@.queues.map_values(|q: JiraQueueView| q.config),
                queue_views(queues@) == all.take(i as int),
            decreases self.queues.len() - i,
        {
            let ghost qs = queues@;
            queues.push(self.queues[i].config.clone());
            proof {
                assert(queue_views(queues@) =~= queue_views(qs).push(queues@.last()@));
                assert(all.take(i + 1) =~= all.take(i as int).push(all[i as int]));
            }
            i = i + 1;
        }
        proof {
            assert(all.take(all.len() as int) =~= all);
        }
        JiraSourceConfig::new(self.poll_interval, queues)
    }

    /// What is written back for the tickets of the queue `queue_name`.
    pub fn writeback_for(&self, queue_name: &str) -> (r: Option<&JiraWritebackConfig>)
        ensures
            match r {
                Some(w) => queue_called(self@.queues, queue_name@) is Some && queue_called(
                    self@.queues,
                    queue_name@,
                )->0.writeback == w@,
                None => queue_called(self@.queues, queue_name@) is None,
            },
    {
        let ghost all = self@.queues;
        let mut i: usize = 0;
        proof {
            assert(all.skip(0) =~= all);
        }
        while i < self.queues.len()
            invariant
                i <= self.queues.len(),
                all == self@.queues,
                queue_called(all, queue_name@) == queue_called(all.skip(i as int), queue_name@),
            decreases self.queues.len() - i,
        {
            proof {
                assert(all.skip(i as int)[0] == self.queues@[i as int]@);
                assert(all.skip(i as int).skip(1) =~= all.skip(i + 1));
            }
            if text::same(self.queues[i].config.name.as_str(), queue_name) {
                return Some(&self.queues[i].writeback);
            }
            i = i + 1;
        }
        None
    }
}

/// What is wrong with the block itself.
pub open spec fn source_errors(t: TomlSourcesJira) -> Seq<ConfigErrorView> {
    only_if(
        text::kept_text(text::text_option(t.url)) is None,
        ConfigErrorView::MissingUrl,
    ) + only_if(
        text::kept_text(text::text_option(t.email)) is None,
        ConfigErrorView::MissingEmail,
    ) + only_if(
        text::kept_text(text::text_option(t.auth_token_env)) is None,
        ConfigErrorView::MissingAuthTokenEnv,
    ) + only_if(t.max_concurrent_explore == Some(0usize), ConfigErrorView::ZeroMaxConcurrentExplore)
}

/// The time between two polls that the block asks for.
pub open spec fn requested_interval(t: TomlSourcesJira) -> Nanos {
    match t.poll_interval_secs {
        Some(n) => (n * SECOND) as Nanos,
        None => DEFAULT_POLL_INTERVAL,
    }
}

/// The configuration that a block without errors of its own describes.
pub open spec fn config_described(t: TomlSourcesJira) -> JiraConfigView {
    JiraConfigView {
        url: text::kept_text(text::text_option(t.url))->0,
        email: text::kept_text(text::text_option(t.email))->0,
        auth_token_env: text::kept_text(text::text_option(t.auth_token_env))->0,
        poll_interval: longer(requested_interval(t), MIN_POLL_INTERVAL),
        poll_interval_clamped: requested_interval(t) < MIN_POLL_INTERVAL,
        max_concurrent_explore: match t.max_concurrent_explore {
            Some(n) => n,
            None => DEFAULT_MAX_CONCURRENT_EXPLORE,
        },
        idle_explore_timeout: match t.idle_explore_timeout {
            Some(n) => (n * SECOND) as Nanos,
            None => DEFAULT_IDLE_THRESHOLD,
        },
        queues: accepted_queues(ordered_queues(t.queues@)),
    }
}

/// Check the block itself: its errors, or the configuration without queues.
fn build_source(toml: &TomlSourcesJira) -> (r: (Vec<JiraConfigError>, JiraConfig))
    ensures
        config_error_views(r.0@) == source_errors(*toml),
        r.0.len() == 0 ==> r.1@ == (JiraConfigView {
            queues: Seq::empty(),
            ..config_described(*toml)
        }),
{
    let mut errors: Vec<JiraConfigError> = Vec::new();
    let url: Option<String> = text::kept(&toml.url);
    let email: Option<String> = text::kept(&toml.email);
    let auth_token_env: Option<String> = text::kept(&toml.auth_token_env);
    let requested: Nanos = match toml.poll_interval_secs {
        Some(n) => time::seconds(n),
        None => DEFAULT_POLL_INTERVAL,
    };
    let idle_explore_timeout: Nanos = match toml.idle_explore_timeout {
        Some(n) => time::seconds(n),
        None => DEFAULT_IDLE_THRESHOLD,
    };
    let max_concurrent_explore: usize = match toml.max_concurrent_explore {
        Some(n) => n,
        None => DEFAULT_MAX_CONCURRENT_EXPLORE,
    };
    if url.is_none() {
        note(&mut errors, JiraConfigError::MissingUrl);
    }
    if email.is_none() {
        note(&mut errors, JiraConfigError::MissingEmail);
    }
    if auth_token_env.is_none() {
        note(&mut errors, JiraConfigError::MissingAuthTokenEnv);
    }
    if max_concurrent_explore == 0 {
        note(&mut errors, JiraConfigError::ZeroMaxConcurrentExplore);
    }
    let queues: Vec<JiraQueue> = Vec::new();
    proof {
        assert(config_error_views(errors@) =~= source_errors(*toml));
        assert(config_error_views(errors@).len() == errors@.len());
        assert(jira_queue_views(queues@) =~= Seq::<JiraQueueView>::empty());
    }
    let config = JiraConfig {
        url: match url {
            Some(u) => u,
            None => String::new(),
        },
        email: match email {
            Some(e) => e,
            None => String::new(),
        },
        auth_token_env: match auth_token_env {
            Some(a) => a,
            None => String::new(),
        },
        poll_interval: if requested < MIN_POLL_INTERVAL {
            MIN_POLL_INTERVAL
        } else {
            requested
        },
        poll_interval_clamped: JiraSourceConfig::was_clamped(requested),
        max_concurrent_explore,
        idle_explore_timeout,
        queues,
    };
    (errors, config)
}

/// Whether `r` is what checking the block as a whole comes to.
pub open spec fn built(
    r: Result<JiraConfig, Vec<JiraConfigError>>,
    toml: TomlSourcesJira,
) -> bool {
    let errors = source_errors(toml) + all_queue_errors(ordered_queues(toml.queues@));
    match r {
        Ok(c) => errors.len() == 0 && c@ == config_described(toml),
        Err(es) => es.len() > 0 && config_error_views(es@) == errors,
    }
}

/// Whether `r` is what checking the block comes to where queues with errors are
/// left out.
pub open spec fn partly_built(
    r: Result<ValidationOutcome, Vec<JiraConfigError>>,
    toml: TomlSourcesJira,
) -> bool {
    match r {
        Ok(o) => {
            &&& source_errors(toml).len() == 0
            &&& o.config@ == config_described(toml)
            &&& config_error_views(o.skipped_queue_errors@) == all_queue_errors(
                ordered_queues(toml.queues@),
            )
        },
        Err(es) => es.len() > 0 && config_error_views(es@) == source_errors(toml),
    }
}

/// Check a `[sources.jira]` block as a whole: any error is a refusal.
pub fn build(toml: &TomlSourcesJira) -> (r: Result<JiraConfig, Vec<JiraConfigError>>)
    ensures
        built(r, *toml),
{
    let (mut errors, mut config) = build_source(toml);
    let ghost own = errors@;
    config.queues = build_queues(&toml.queues, &mut errors);
    proof {
        assert(config_error_views(errors@).len() == errors@.len());
        assert(config_error_views(own).len() == own.len());
    }
    if errors.len() > 0 {
        return Err(errors);
    }
    Ok(config)
}

/// Check a `[sources.jira]` block: an error of the block itself is a refusal,
/// a queue with errors is left out.
pub fn build_partial(toml: &TomlSourcesJira) -> (r: Result<ValidationOutcome, Vec<JiraConfigError>>)
    ensures
        partly_built(r, *toml),
{
    let (errors, mut config) = build_source(toml);
    proof {
        assert(config_error_views(errors@).len() == errors@.len());
    }
    if errors.len() > 0 {
        return Err(errors);
    }
    let mut skipped: Vec<JiraConfigError> = Vec::new();
    config.queues = build_queues(&toml.queues, &mut skipped);
    proof {
        assert(config_error_views(skipped@) =~= all_queue_errors(ordered_queues(toml.queues@)));
    }
    Ok(ValidationOutcome { config, skipped_queue_errors: skipped })
}

/// What starting the scheduler makes of the configuration: the source to
/// register, if any, and what is to be logged of its mistakes.
#[derive(Debug, PartialEq)]
pub struct JiraStart {
    pub config: Option<JiraConfig>,
    pub mistakes: Vec<JiraConfigError>,
}

/// The `[sources.jira]` block of a configuration.
pub open spec fn jira_block(config: TomlConfig) -> Option<TomlSourcesJira> {
    match config.sources {
        Some(s) => s.jira,
        None => None,
    }
}

/// The source that a configuration asks for. Without a `[sources.jira]` block,
/// or with a mistake in the block itself, there is none; queues with mistakes
/// are left out.
pub fn validate_jira_config(config: &TomlConfig) -> (r: JiraStart)
    ensures
        match jira_block(*config) {
            None => r.config is None && r.mistakes@.len() == 0,
            Some(toml) => if source_errors(toml).len() == 0 {
                &&& r.config matches Some(c) && c@ == config_described(toml)
                &&& config_error_views(r.mistakes@) == all_queue_errors(ordered_queues(toml.queues@))
            } else {
                r.config is None && config_error_views(r.mistakes@) == source_errors(toml)
            },
        },
{
    match &config.sources {
        Some(sources) => match &sources.jira {
            Some(toml) => match build_partial(toml) {
                Ok(outcome) => JiraStart {
                    config: Some(outcome.config),
                    mistakes: outcome.skipped_queue_errors,
                },
                Err(errors) => {
                    proof {
                        assert(config_error_views(errors@).len() == errors@.len());
                    }
                    JiraStart { config: None, mistakes: errors }
                },
            },
            None => JiraStart { config: None, mistakes: Vec::new() },
        },
        None => JiraStart { config: None, mistakes: Vec::new() },
    }
}

// ---------------------------------------------------------------------
// What is refused, and what settings come to
// ---------------------------------------------------------------------

/// A setting says nothing: it is not there, or holds white space alone.
pub open spec fn says_nothing(s: Option<String>) -> bool {
    s is None || forall|k: int| 0 <= k < s->0@.len() ==> text::white(#[trigger] s->0@[k])
}

/// A setting that says nothing is not kept, and any other is, without the white
/// space around it.
proof fn blank_settings_are_dropped(s: Option<String>)
    ensures
        text::kept_text(text::text_option(s)) is None <==> says_nothing(s),
        text::kept_text(text::text_option(s)) matches Some(t) ==> t == text::trimmed(s->0@),
{
    if let Some(t) = s {
        let (a, b) = text::trimming_drops_white(t@);
        if a < b {
            assert(!text::white(t@[a]));
        } else {
            assert forall|k: int| 0 <= k < t@.len() implies text::white(#[trigger] t@[k]) by {}
        }
    }
}

/// A block is refused as a whole exactly where it says nothing of the site, the
/// account or the token's variable, or lets no ticket be explored at once; each
/// of these has its own error, and there is no other.
pub proof fn blocks_need_site_account_and_token(t: TomlSourcesJira)
    ensures
        ({
            let es = source_errors(t);
            &&& es.contains(ConfigErrorView::MissingUrl) <==> says_nothing(t.url)
            &&& es.contains(ConfigErrorView::MissingEmail) <==> says_nothing(t.email)
            &&& es.contains(ConfigErrorView::MissingAuthTokenEnv) <==> says_nothing(
                t.auth_token_env,
            )
            &&& es.contains(ConfigErrorView::ZeroMaxConcurrentExplore)
                <==> t.max_concurrent_explore == Some(0usize)
            &&& es.len() == 0 <==> !says_nothing(t.url) && !says_nothing(t.email) && !says_nothing(
                t.auth_token_env,
            ) && t.max_concurrent_explore != Some(0usize)
        }),
{
    blank_settings_are_dropped(t.url);
    blank_settings_are_dropped(t.email);
    blank_settings_are_dropped(t.auth_token_env);
    let a = only_if(says_nothing(t.url), ConfigErrorView::MissingUrl);
    let b = only_if(says_nothing(t.email), ConfigErrorView::MissingEmail);
    let c = only_if(says_nothing(t.auth_token_env), ConfigErrorView::MissingAuthTokenEnv);
    let d = only_if(
        t.max_concurrent_explore == Some(0usize),
        ConfigErrorView::ZeroMaxConcurrentExplore,
    );
    assert(source_errors(t) == a + b + c + d);
    if a.len() > 0 {
        assert(source_errors(t)[0] == ConfigErrorView::MissingUrl);
    }
    if b.len() > 0 {
        assert(source_errors(t)[a.len() as int] == ConfigErrorView::MissingEmail);
    }
    if c.len() > 0 {
        assert(source_errors(t)[(a + b).len() as int] == ConfigErrorView::MissingAuthTokenEnv);
    }
    if d.len() > 0 {
        assert(source_errors(t)[(a + b + c).len() as int]
            == ConfigErrorView::ZeroMaxConcurrentExplore);
    }
}

/// What the settings of a block come to: texts without the white space around
/// them, times in seconds, thirty seconds between polls, five tickets at once
/// and a day of idleness where nothing is said, and never less than fifteen
/// seconds between polls.
pub proof fn settings_are_as_said(t: TomlSourcesJira)
    requires
        source_errors(t).len() == 0,
    ensures
        ({
            let c = config_described(t);
            &&& t.url is Some && c.url == text::trimmed(t.url->0@)
            &&& t.email is Some && c.email == text::trimmed(t.email->0@)
            &&& t.auth_token_env is Some && c.auth_token_env == text::trimmed(t.auth_token_env->0@)
            &&& c.poll_interval >= 15_000_000_000
            &&& t.poll_interval_secs is None ==> c.poll_interval == 30_000_000_000
            &&& t.poll_interval_secs matches Some(n) ==> (n >= 15 ==> c.poll_interval == n
                * 1_000_000_000) && (n < 15 ==> c.poll_interval == 15_000_000_000)
            &&& c.poll_interval_clamped <==> t.poll_interval_secs is Some && t.poll_interval_secs->0
                < 15
            &&& t.max_concurrent_explore is None ==> c.max_concurrent_explore == 5
            &&& t.max_concurrent_explore matches Some(n) ==> c.max_concurrent_explore == n
            &&& t.idle_explore_timeout is None ==> c.idle_explore_timeout == 86_400_000_000_000
            &&& t.idle_explore_timeout matches Some(n) ==> c.idle_explore_timeout == n
                * 1_000_000_000
        }),
{
    blank_settings_are_dropped(t.url);
    blank_settings_are_dropped(t.email);
    blank_settings_are_dropped(t.auth_token_env);
    blocks_need_site_account_and_token(t);
}

/// A name of a phase is read whatever the case of its letters and whatever
/// white space stands around it; there are no other phases.
pub proof fn phases_go_by_their_names(s: Seq<char>)
    ensures
        ({
            let t = text::lowered(text::trimmed(s));
            &&& phase_named(s) == Some(LifecyclePhase::Exploring) <==> t == "exploring"@
            &&& phase_named(s) == Some(LifecyclePhase::Archived) <==> t == "archived"@
            &&& phase_named(s) == Some(LifecyclePhase::Cancelled) <==> t == "cancelled"@ || t
                == "canceled"@
        }),
{
    reveal_strlit("exploring");
    reveal_strlit("archived");
    reveal_strlit("cancelled");
    reveal_strlit("canceled");
    assert("exploring"@[0] == 'e' && "archived"@[0] == 'a' && "cancelled"@[0] == 'c'
        && "canceled"@[0] == 'c');
}

/// A queue is refused exactly where its name cannot be that of a file, where it
/// has no filter, where its mode is not the one that there is, or where it names
/// a phase that there is not.
pub proof fn queues_are_refused_for_a_reason(name: Seq<char>, q: TomlSourcesJiraQueue)
    ensures
        ({
            let bad_name = name.len() == 0 || name == "."@ || text::find(name, ".."@) is Some
                || name.contains('/') || name.contains('\\') || name.contains('\0');
            let bad_mode = !says_nothing(q.mode) && text::trimmed(q.mode->0@) != "openspec"@;
            let bad_phase = exists|k: int|
                0 <= k < q.transitions@.len() && phase_named((#[trigger] q.transitions@[k]).0@)
                    is None;
            let es = queue_errors(name, q);
            &&& es.len() > 0 <==> bad_name || says_nothing(q.filter_jql) || bad_mode || bad_phase
            &&& es.contains(ConfigErrorView::UnsafeQueueName { queue: name }) <==> bad_name
            &&& es.contains(ConfigErrorView::MissingFilterJql { queue: name }) <==> says_nothing(
                q.filter_jql,
            )
            &&& es.contains(ConfigErrorView::DirectModeNotImplemented { queue: name }) <==> bad_mode
                && text::trimmed(q.mode->0@) == "direct"@
        }),
{
    blank_settings_are_dropped(q.mode);
    blank_settings_are_dropped(q.filter_jql);
    reveal_strlit("openspec");
    reveal_strlit("direct");
    assert("openspec"@.len() == 8 && "direct"@.len() == 6);
    let mode = mode_of(q);
    let a = only_if(!safe_queue_name(name), ConfigErrorView::UnsafeQueueName { queue: name });
    let b = only_if(
        says_nothing(q.filter_jql),
        ConfigErrorView::MissingFilterJql { queue: name },
    );
    let c = only_if(
        mode == MODE_DIRECT@,
        ConfigErrorView::DirectModeNotImplemented { queue: name },
    );
    let d = only_if(
        mode != MODE_OPENSPEC@ && mode != MODE_DIRECT@,
        ConfigErrorView::UnrecognisedMode { queue: name, mode },
    );
    let e = transition_errors(name, q.transitions@);
    let all = queue_errors(name, q);
    assert(all == a + b + c + d + e);
    transition_errors_are(name, q.transitions@);
    if a.len() > 0 {
        assert(all[0] == ConfigErrorView::UnsafeQueueName { queue: name });
    }
    if b.len() > 0 {
        assert(all[a.len() as int] == ConfigErrorView::MissingFilterJql { queue: name });
    }
    if c.len() > 0 {
        assert(all[(a + b).len() as int] == ConfigErrorView::DirectModeNotImplemented {
            queue: name,
        });
    }
    assert forall|k: int| (a + b + c + d).len() <= k < all.len() implies (#[trigger] all[k])
        is UnrecognisedTransitionPhase by {
        assert(all[k] == e[k - (a + b + c + d).len()]);
    }
}

/// There is an error for each name of a phase that is none.
proof fn transition_errors_are(queue: Seq<char>, ts: Seq<(String, String)>)
    ensures
        transition_errors(queue, ts).len() > 0 <==> exists|k: int|
            0 <= k < ts.len() && phase_named((#[trigger] ts[k]).0@) is None,
        forall|k: int|
            0 <= k < transition_errors(queue, ts).len() ==> (#[trigger] transition_errors(
                queue,
                ts,
            )[k]) is UnrecognisedTransitionPhase,
    decreases ts.len(),
{
    if ts.len() > 0 {
        let front = ts.drop_last();
        let before = transition_errors(queue, front);
        transition_errors_are(queue, front);
        if before.len() > 0 {
            let k = choose|k: int|
                0 <= k < front.len() && phase_named((#[trigger] front[k]).0@) is None;
            assert(phase_named(ts[k].0@) is None);
        }
        if phase_named(ts.last().0@) is None {
            assert(phase_named(ts[ts.len() - 1].0@) is None);
        }
        if exists|k: int| 0 <= k < ts.len() && phase_named((#[trigger] ts[k]).0@) is None {
            let k = choose|k: int| 0 <= k < ts.len() && phase_named((#[trigger] ts[k]).0@) is None;
            if k < front.len() {
                assert(phase_named(front[k].0@) is None);
            }
        }
    }
}

/// A queue has its name, its filter word for word, comments and labels unless
/// they are switched off, its own trigger label if it names one, and for each
/// phase the status change that is named last for it.
pub proof fn queues_are_as_said(
    name: Seq<char>,
    q: TomlSourcesJiraQueue,
    phase: LifecyclePhase,
)
    requires
        queue_errors(name, q).len() == 0,
    ensures
        ({
            let d = queue_described(name, q);
            let names = |k: int|
                0 <= k < q.transitions@.len() && phase_named(q.transitions@[k].0@) == Some(phase);
            &&& d.config.name == name
            &&& q.filter_jql is Some && d.config.filter_jql == q.filter_jql->0@
            &&& !d.writeback.comments <==> q.comments == Some(false)
            &&& !d.writeback.labels <==> q.labels == Some(false)
            &&& q.trigger_label matches Some(l) ==> d.writeback.trigger_label == l@
            &&& q.trigger_label is None ==> d.writeback.trigger_label == "clhorde-plan"@
            &&& (d.writeback.transitions)(phase) is None ==> forall|k: int| !#[trigger] names(k)
            &&& (d.writeback.transitions)(phase) matches Some(id) ==> exists|k: int| #[trigger]
                names(k) && id == text::trimmed(q.transitions@[k].1@) && forall|j: int|
                    j > k ==> !#[trigger] names(j)
        }),
{
    queues_are_refused_for_a_reason(name, q);
    last_transition_counts(q.transitions@, phase);
    let names = |k: int|
        0 <= k < q.transitions@.len() && phase_named(q.transitions@[k].0@) == Some(phase);
    let ts = q.transitions@;
    match transitions_named(ts)(phase) {
        None => {
            assert forall|k: int| !#[trigger] names(k) by {
                if 0 <= k < ts.len() {
                    assert(phase_named(ts[k].0@) != Some(phase));
                }
            }
        },
        Some(id) => {
            let k = choose|k: int|
                0 <= k < ts.len() && phase_named((#[trigger] ts[k]).0@) == Some(phase) && id
                    == text::trimmed(ts[k].1@) && forall|j: int|
                    k < j < ts.len() ==> phase_named((#[trigger] ts[j]).0@) != Some(phase);
            assert(names(k));
            assert forall|j: int| j > k implies !#[trigger] names(j) by {
                if j < ts.len() {
                    assert(phase_named(ts[j].0@) != Some(phase));
                }
            }
        },
    }
}

/// The status change of a phase is the last that is named for it.
proof fn last_transition_counts(ts: Seq<(String, String)>, phase: LifecyclePhase)
    ensures
        match transitions_named(ts)(phase) {
            None => forall|k: int|
                0 <= k < ts.len() ==> phase_named((#[trigger] ts[k]).0@) != Some(phase),
            Some(id) => exists|k: int|
                0 <= k < ts.len() && phase_named((#[trigger] ts[k]).0@) == Some(phase) && id
                    == text::trimmed(ts[k].1@) && forall|j: int|
                    k < j < ts.len() ==> phase_named((#[trigger] ts[j]).0@) != Some(phase),
        },
    decreases ts.len(),
{
    if ts.len() > 0 {
        let front = ts.drop_last();
        let n = ts.len() - 1;
        last_transition_counts(front, phase);
        assert forall|k: int| 0 <= k < n implies ts[k] == #[trigger] front[k] by {}
        if phase_named(ts[n].0@) == Some(phase) {
            assert(transitions_named(ts)(phase) == Some(text::trimmed(ts[n].1@)));
        } else {
            assert(transitions_named(ts)(phase) == transitions_named(front)(phase));
            match transitions_named(front)(phase) {
                None => {
                    assert forall|k: int| 0 <= k < ts.len() implies phase_named(
                        (#[trigger] ts[k]).0@,
                    ) != Some(phase) by {
                        if k < n {
                            assert(phase_named(front[k].0@) != Some(phase));
                        }
                    }
                },
                Some(id) => {
                    let k = choose|k: int|
                        0 <= k < front.len() && phase_named((#[trigger] front[k]).0@) == Some(phase)
                            && id == text::trimmed(front[k].1@) && forall|j: int|
                            k < j < front.len() ==> phase_named((#[trigger] front[j]).0@) != Some(
                                phase,
                            );
                    assert(phase_named(ts[k].0@) == Some(phase));
                    assert forall|j: int| k < j < ts.len() implies phase_named(
                        (#[trigger] ts[j]).0@,
                    ) != Some(phase) by {
                        if j < n {
                            assert(phase_named(front[j].0@) != Some(phase));
                        }
                    }
                },
            }
        }
    }
}

/// Exactly the queues without errors are taken, each as it is described.
pub proof fn sound_queues_are_taken(qs: Seq<&TomlNamedQueue>, d: JiraQueueView)
    ensures
        accepted_queues(qs).contains(d) <==> exists|i: int|
            0 <= i < qs.len() && queue_errors((#[trigger] qs[i]).name@, qs[i].queue).len() == 0 && d
                == queue_described(qs[i].name@, qs[i].queue),
        all_queue_errors(qs).len() == 0 <==> forall|i: int|
            0 <= i < qs.len() ==> queue_errors((#[trigger] qs[i]).name@, qs[i].queue).len() == 0,
        accepted_queues(qs).len() <= qs.len(),
    decreases qs.len(),
{
    if qs.len() > 0 {
        let front = qs.drop_last();
        let n = qs.len() - 1;
        let before = accepted_queues(front);
        let all = accepted_queues(qs);
        sound_queues_are_taken(front, d);
        assert forall|i: int| 0 <= i < n implies qs[i] == #[trigger] front[i] by {}
        if before.contains(d) {
            let k = before.index_of(d);
            assert(all[k] == d);
            let i = choose|i: int|
                0 <= i < front.len() && queue_errors((#[trigger] front[i]).name@, front[i].queue).len()
                    == 0 && d == queue_described(front[i].name@, front[i].queue);
            assert(qs[i] == front[i]);
        }
        if all.contains(d) && !before.contains(d) {
            let k = all.index_of(d);
            if k < before.len() {
                assert(before[k] == d);
            }
            assert(queue_errors(qs[n].name@, qs[n].queue).len() == 0);
        }
        if exists|i: int|
            0 <= i < qs.len() && queue_errors((#[trigger] qs[i]).name@, qs[i].queue).len() == 0 && d
                == queue_described(qs[i].name@, qs[i].queue) {
            let i = choose|i: int|
                0 <= i < qs.len() && queue_errors((#[trigger] qs[i]).name@, qs[i].queue).len() == 0
                    && d == queue_described(qs[i].name@, qs[i].queue);
            if i < n {
                assert(front[i] == qs[i]);
            } else {
                assert(all.last() == d);
                assert(all[all.len() - 1] == d);
            }
        }
        if forall|i: int|
            0 <= i < qs.len() ==> queue_errors((#[trigger] qs[i]).name@, qs[i].queue).len() == 0 {
            assert forall|i: int| 0 <= i < front.len() implies queue_errors(
                (#[trigger] front[i]).name@,
                front[i].queue,
            ).len() == 0 by {
                assert(queue_errors(qs[i].name@, qs[i].queue).len() == 0);
            }
            assert(queue_errors(qs[n].name@, qs[n].queue).len() == 0);
        }
        if all_queue_errors(qs).len() == 0 {
            assert forall|i: int| 0 <= i < qs.len() implies queue_errors(
                (#[trigger] qs[i]).name@,
                qs[i].queue,
            ).len() == 0 by {
                if i < n {
                    assert(queue_errors(front[i].name@, front[i].queue).len() == 0);
                }
            }
        }
    }
}

/// Checked as a whole, a block is taken exactly where neither it nor a queue
/// has an error. Checked in parts, it is taken exactly where it has no error of
/// its own, whatever its queues have.
pub proof fn parts_are_refused_apart(
    whole: Result<JiraConfig, Vec<JiraConfigError>>,
    part: Result<ValidationOutcome, Vec<JiraConfigError>>,
    t: TomlSourcesJira,
)
    requires
        built(whole, t),
        partly_built(part, t),
    ensures
        whole is Ok <==> source_errors(t).len() == 0 && all_queue_errors(
            ordered_queues(t.queues@),
        ).len() == 0,
        part is Ok <==> source_errors(t).len() == 0,
        whole is Ok && part is Ok ==> whole->Ok_0@ == part->Ok_0.config@,
        part matches Ok(o) ==> o.config@.queues == accepted_queues(ordered_queues(t.queues@)),
{
    let errors = source_errors(t) + all_queue_errors(ordered_queues(t.queues@));
    if let Err(es) = whole {
        assert(config_error_views(es@).len() == es@.len());
    }
    if let Err(es) = part {
        assert(config_error_views(es@).len() == es@.len());
    }
}

} // verus!
