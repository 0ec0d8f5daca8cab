//! The orchestrator as a state machine: what a request of a client, a message
//! of a worker or the start of one makes of a state, and which effects it asks
//! for on the way.

use vstd::prelude::*;
use vstd::utf8::*;

use super::effect::EffectView;
use super::session::{subscription_set, ClientSession};
use super::worker::{SpawnResult, WorkerInputView, WorkerMessage};
use crate::config::WorktreeCleanup;
use crate::prompt::{elapsed, fresh_prompt, mode_label, mode_named, status_name, PromptMode, PromptStatus, PromptView};
use crate::protocol::{ClientRequest, DaemonEventView, DaemonStateView, PromptInfoView, PROTOCOL_VERSION};
use crate::text;

verus! {

/// What an [`Orchestrator`] holds.
#[verifier::ext_equal]
pub ghost struct OrchestratorView {
    pub prompts: Seq<PromptView>,
    pub next_id: usize,
    pub max_workers: usize,
    pub active_workers: usize,
    pub default_mode: PromptMode,
    pub worker_inputs: Set<usize>,
    pub pty_handles: Map<usize, bool>,
    pub sessions: Seq<ClientSession>,
    /// The id that the next session gets.
    pub next_session: usize,
    pub worktree_creating: Set<usize>,
    pub max_saved_prompts: usize,
    pub prompts_dir: Option<Seq<char>>,
    pub worktree_cleanup: WorktreeCleanup,
}

/// A state, and the effects asked for on the way to it.
pub ghost struct Step {
    pub state: OrchestratorView,
    pub effects: Seq<EffectView>,
}

/// The first index of the prompt with this id.
pub open spec fn prompt_at(ps: Seq<PromptView>, id: usize) -> Option<int>
    decreases ps.len(),
{
    if ps.len() == 0 {
        None
    } else if ps[0].id == id {
        Some(0)
    } else {
        match prompt_at(ps.drop_first(), id) {
            Some(i) => Some(i + 1),
            None => None,
        }
    }
}

/// The index that `prompt_at` names is the first with this id.
pub proof fn prompt_at_is_first(ps: Seq<PromptView>, id: usize)
    ensures
        prompt_at(ps, id) matches Some(i) ==> 0 <= i < ps.len() && ps[i].id == id && forall|j: int|
            0 <= j < i ==> (#[trigger] ps[j]).id != id,
        prompt_at(ps, id) is None ==> forall|j: int|
            0 <= j < ps.len() ==> (#[trigger] ps[j]).id != id,
    decreases ps.len(),
{
    if ps.len() > 0 && ps[0].id != id {
        let t = ps.drop_first();
        prompt_at_is_first(t, id);
        match prompt_at(t, id) {
            Some(i) => {
                assert forall|j: int| 0 <= j < i + 1 implies (#[trigger] ps[j]).id != id by {
                    if j > 0 {
                        assert(t[j - 1].id != id);
                    }
                }
            },
            None => {
                assert forall|j: int| 0 <= j < ps.len() implies (#[trigger] ps[j]).id != id by {
                    if j > 0 {
                        assert(t[j - 1].id != id);
                    }
                }
            },
        }
    }
}

/// A prompt as clients see it.
pub open spec fn info_of(s: OrchestratorView, p: PromptView, now_ms: u64) -> PromptInfoView {
    PromptInfoView {
        id: p.id,
        text: p.text,
        cwd: p.cwd,
        mode: mode_label(p.mode),
        status: status_name(p.status),
        output: p.output,
        error: p.error,
        worktree: p.worktree,
        worktree_path: p.worktree_path,
        session_id: p.session_id,
        tags: p.tags,
        queue_rank: p.queue_rank,
        seen: p.seen,
        resume: p.resume,
        output_len: match p.output {
            Some(o) => encode_utf8(o).len() as usize,
            None => 0,
        },
        elapsed_ms: elapsed(p, now_ms),
        uuid: p.uuid,
        has_pty: s.pty_handles.contains_key(p.id),
    }
}

/// All prompts as clients see them.
pub open spec fn infos_of(s: OrchestratorView, now_ms: u64) -> Seq<PromptInfoView> {
    s.prompts.map_values(|p: PromptView| info_of(s, p, now_ms))
}

/// Tell the clients that a prompt changed.
pub open spec fn updated(s: OrchestratorView, p: PromptView, now_ms: u64) -> EffectView {
    EffectView::Broadcast(DaemonEventView::PromptUpdated(info_of(s, p, now_ms)))
}

/// Write a prompt to its file, where prompts are saved at all.
pub open spec fn saved(s: OrchestratorView, p: PromptView) -> Seq<EffectView> {
    if s.prompts_dir is Some {
        seq![EffectView::Save(p)]
    } else {
        Seq::empty()
    }
}

/// The state with one prompt changed.
pub open spec fn with_prompt(s: OrchestratorView, i: int, p: PromptView) -> OrchestratorView {
    OrchestratorView { prompts: s.prompts.update(i, p), ..s }
}

/// The largest rank of a prompt.
pub open spec fn max_rank(ps: Seq<PromptView>) -> u64
    decreases ps.len(),
{
    if ps.len() == 0 {
        0
    } else {
        let before = max_rank(ps.drop_last());
        if ps.last().queue_rank > before {
            ps.last().queue_rank
        } else {
            before
        }
    }
}

/// The rank behind all others.
pub open spec fn next_rank(ps: Seq<PromptView>) -> u64 {
    if max_rank(ps) == u64::MAX {
        u64::MAX
    } else {
        (max_rank(ps) + 1) as u64
    }
}

/// One less, but not below zero.
pub open spec fn one_less(n: usize) -> usize {
    if n == 0 {
        0
    } else {
        (n - 1) as usize
    }
}

/// A new prompt at the end of the queue.
pub open spec fn queued_prompt(
    s: OrchestratorView,
    words: Seq<char>,
    cwd: Option<Seq<char>>,
    mode: PromptMode,
    worktree: bool,
    tags: Seq<Seq<char>>,
    uuid: Seq<char>,
) -> PromptView {
    PromptView {
        worktree,
        tags,
        queue_rank: next_rank(s.prompts),
        ..fresh_prompt(s.next_id, words, cwd, mode, uuid)
    }
}

/// A prompt is put at the end of the queue, saved, and announced.
pub open spec fn prompt_added(s: OrchestratorView, p: PromptView, now_ms: u64) -> Step {
    let prune = if s.prompts_dir is Some {
        seq![EffectView::Prune { keep: s.max_saved_prompts }]
    } else {
        Seq::empty()
    };
    Step {
        state: OrchestratorView {
            prompts: s.prompts.push(p),
            next_id: (s.next_id + 1) as usize,
            ..s
        },
        effects: saved(s, p) + prune + seq![
            EffectView::Broadcast(DaemonEventView::PromptAdded(info_of(s, p, now_ms))),
        ],
    }
}

/// A worker is told to stop, and its process is killed.
pub open spec fn worker_killed(s: OrchestratorView, id: usize) -> Step {
    let stop = if s.worker_inputs.contains(id) {
        seq![EffectView::Input { prompt_id: id, input: WorkerInputView::Kill }]
    } else {
        Seq::empty()
    };
    let kill = if s.pty_handles.contains_key(id) && s.pty_handles[id] {
        seq![EffectView::KillChild { prompt_id: id }]
    } else {
        Seq::empty()
    };
    Step {
        state: OrchestratorView { pty_handles: s.pty_handles.remove(id), ..s },
        effects: stop + kill,
    }
}

/// A worker is at work on the prompt.
pub open spec fn at_work(status: PromptStatus) -> bool {
    status is Running || status is Idle
}

/// The work on the prompt is at an end.
pub open spec fn at_end(status: PromptStatus) -> bool {
    status is Completed || status is Failed
}

/// A prompt is deleted, with its worker and its file.
pub open spec fn prompt_deleted(s: OrchestratorView, id: usize) -> Step {
    match prompt_at(s.prompts, id) {
        None => Step { state: s, effects: Seq::empty() },
        Some(i) => {
            let p = s.prompts[i];
            let stopped = if at_work(p.status) {
                let k = worker_killed(s, id);
                Step {
                    state: OrchestratorView {
                        worker_inputs: s.worker_inputs.remove(id),
                        active_workers: one_less(s.active_workers),
                        ..k.state
                    },
                    effects: k.effects,
                }
            } else {
                Step { state: s, effects: Seq::empty() }
            };
            let file = if s.prompts_dir is Some {
                seq![EffectView::DeleteFile { uuid: p.uuid }]
            } else {
                Seq::empty()
            };
            Step {
                state: OrchestratorView { prompts: s.prompts.remove(i), ..stopped.state },
                effects: stopped.effects + file + seq![
                    EffectView::Broadcast(DaemonEventView::PromptRemoved { prompt_id: id }),
                ],
            }
        },
    }
}

/// The prompts with these ids are deleted, one after the other.
pub open spec fn prompts_deleted(s: OrchestratorView, ids: Seq<usize>) -> Step
    decreases ids.len(),
{
    if ids.len() == 0 {
        Step { state: s, effects: Seq::empty() }
    } else {
        let before = prompts_deleted(s, ids.drop_last());
        let last = prompt_deleted(before.state, ids.last());
        Step { state: last.state, effects: before.effects + last.effects }
    }
}

/// The statuses that a word selects.
pub open spec fn selects(filter: Seq<char>, status: PromptStatus) -> bool {
    if filter == "completed"@ {
        status is Completed
    } else if filter == "failed"@ {
        status is Failed
    } else if filter == "pending"@ {
        status is Pending
    } else if filter == "running"@ {
        at_work(status)
    } else {
        false
    }
}

/// The prompts that dropping by this word drops.
pub open spec fn dropped(filter: Seq<char>, status: PromptStatus) -> bool {
    filter == "all"@ || selects(filter, status)
}

/// The prompts that keeping by this word drops: those that it does not select,
/// but for those that a worker is at work on.
pub open spec fn not_kept(filter: Seq<char>, status: PromptStatus) -> bool {
    !selects(filter, status) && !at_work(status)
}

/// The ids of the prompts whose status `f` holds of, in order.
pub open spec fn ids_where(ps: Seq<PromptView>, f: spec_fn(PromptStatus) -> bool) -> Seq<usize>
    decreases ps.len(),
{
    if ps.len() == 0 {
        Seq::empty()
    } else if f(ps.last().status) {
        ids_where(ps.drop_last(), f).push(ps.last().id)
    } else {
        ids_where(ps.drop_last(), f)
    }
}

/// A prompt whose work is at an end is put back into the queue, to take up its
/// session again.
pub open spec fn resumed(s: OrchestratorView, i: int, now_ms: u64) -> Step {
    let p = s.prompts[i];
    if !at_end(p.status) {
        Step { state: s, effects: Seq::empty() }
    } else {
        let q = PromptView {
            status: PromptStatus::Pending,
            resume: true,
            output: None,
            error: None,
            started_at_ms: None,
            finished_at_ms: None,
            seen: false,
            ..p
        };
        let t = with_prompt(s, i, q);
        Step { state: t, effects: saved(t, q) + seq![updated(t, q, now_ms)] }
    }
}

/// Two neighbours in the queue change places, and with them their ranks. The
/// prompt that was at `i` is now at `j`.
pub open spec fn swapped(s: OrchestratorView, i: int, j: int, now_ms: u64) -> Step {
    let at_j = PromptView { queue_rank: s.prompts[j].queue_rank, ..s.prompts[i] };
    let at_i = PromptView { queue_rank: s.prompts[i].queue_rank, ..s.prompts[j] };
    let t = OrchestratorView { prompts: s.prompts.update(i, at_i).update(j, at_j), ..s };
    Step {
        state: t,
        effects: saved(t, at_i) + saved(t, at_j) + seq![
            updated(t, at_i, now_ms),
            updated(t, at_j, now_ms),
        ],
    }
}

/// A prompt that waits moves one place towards the front.
pub open spec fn moved_up(s: OrchestratorView, i: int, now_ms: u64) -> Step {
    if i == 0 || !(s.prompts[i].status is Pending) {
        Step { state: s, effects: Seq::empty() }
    } else {
        swapped(s, i, i - 1, now_ms)
    }
}

/// A prompt that waits moves one place towards the end.
pub open spec fn moved_down(s: OrchestratorView, i: int, now_ms: u64) -> Step {
    if i >= s.prompts.len() - 1 || !(s.prompts[i].status is Pending) {
        Step { state: s, effects: Seq::empty() }
    } else {
        swapped(s, i, i + 1, now_ms)
    }
}

/// How many prompts have a status that `f` holds of.
pub open spec fn count_where(ps: Seq<PromptView>, f: spec_fn(PromptStatus) -> bool) -> int {
    ids_where(ps, f).len() as int
}

/// The worktrees of the prompts whose work is at an end, in order.
pub open spec fn worktrees_left(ps: Seq<PromptView>) -> Seq<Seq<char>>
    decreases ps.len(),
{
    if ps.len() == 0 {
        Seq::empty()
    } else {
        let before = worktrees_left(ps.drop_last());
        if at_end(ps.last().status) && ps.last().worktree_path is Some {
            before.push(ps.last().worktree_path->0)
        } else {
            before
        }
    }
}

/// `output` with `more` behind it.
pub open spec fn appended(output: Option<Seq<char>>, more: Seq<char>) -> Option<Seq<char>> {
    match output {
        Some(o) => Some(o + more),
        None => Some(more),
    }
}

/// The state as clients see it.
pub open spec fn snapshot_of(s: OrchestratorView, now_ms: u64) -> DaemonStateView {
    DaemonStateView {
        prompts: infos_of(s, now_ms),
        max_workers: s.max_workers,
        active_workers: s.active_workers,
        default_mode: mode_label(s.default_mode),
        protocol_version: PROTOCOL_VERSION,
    }
}

/// An answer to one client.
pub open spec fn answer(session_id: usize, event: DaemonEventView) -> Seq<EffectView> {
    seq![EffectView::SendTo { session_id, event }]
}

/// The answer to a request on the store.
pub open spec fn store_answer(session_id: usize, message: Seq<char>) -> Seq<EffectView> {
    answer(session_id, DaemonEventView::StoreOpComplete { message })
}

/// What a request leads to.
pub open spec fn handled(
    s: OrchestratorView,
    req: ClientRequest,
    session_id: usize,
    now_ms: u64,
    uuid: Seq<char>,
) -> Step {
    match req {
        ClientRequest::SubmitPrompt { text, cwd, mode, worktree, tags, .. } => {
            let p = queued_prompt(
                s,
                text@,
                text::text_option(cwd),
                mode_named(mode@),
                worktree,
                text::texts(tags@),
                uuid,
            );
            let a = prompt_added(s, p, now_ms);
            Step { state: a.state, effects: a.effects.push(EffectView::Dispatch) }
        },
        ClientRequest::SendInput { prompt_id, text } => if s.worker_inputs.contains(prompt_id) {
            let echo = "\n\n> "@ + text@ + "\n\n"@;
            let state = match prompt_at(s.prompts, prompt_id) {
                Some(i) => with_prompt(
                    s,
                    i,
                    PromptView {
                        output: appended(s.prompts[i].output, echo),
                        ..s.prompts[i]
                    },
                ),
                None => s,
            };
            Step {
                state,
                effects: seq![
                    EffectView::Broadcast(DaemonEventView::OutputChunk { prompt_id, text: echo }),
                    EffectView::Input {
                        prompt_id,
                        input: WorkerInputView::SendInput(text@.push('\n')),
                    },
                ],
            }
        } else {
            Step {
                state: s,
                effects: answer(
                    session_id,
                    DaemonEventView::Error {
                        message: "Cannot send input to prompt "@ + text::decimal(prompt_id as nat)
                            + ": no input channel (one-shot worker?)"@,
                    },
                ),
            }
        },
        ClientRequest::SendBytes { prompt_id, data } => Step {
            state: s,
            effects: if s.worker_inputs.contains(prompt_id) {
                seq![
                    EffectView::Input { prompt_id, input: WorkerInputView::SendBytes(data@) },
                ]
            } else {
                Seq::empty()
            },
        },
        ClientRequest::KillWorker { prompt_id } => worker_killed(s, prompt_id),
        ClientRequest::RetryPrompt { prompt_id } => match prompt_at(s.prompts, prompt_id) {
            Some(i) => if at_end(s.prompts[i].status) {
                let old_p = s.prompts[i];
                let p = queued_prompt(
                    s,
                    old_p.text,
                    old_p.cwd,
                    old_p.mode,
                    old_p.worktree,
                    old_p.tags,
                    uuid,
                );
                let a = prompt_added(s, p, now_ms);
                Step { state: a.state, effects: a.effects.push(EffectView::Dispatch) }
            } else {
                Step { state: s, effects: Seq::empty() }
            },
            None => Step { state: s, effects: Seq::empty() },
        },
        ClientRequest::ResumePrompt { prompt_id } => match prompt_at(s.prompts, prompt_id) {
            Some(i) => {
                let r = resumed(s, i, now_ms);
                Step { state: r.state, effects: r.effects.push(EffectView::Dispatch) }
            },
            None => Step { state: s, effects: Seq::empty() },
        },
        ClientRequest::DeletePrompt { prompt_id } => prompt_deleted(s, prompt_id),
        ClientRequest::MovePromptUp { prompt_id } => match prompt_at(s.prompts, prompt_id) {
            Some(i) => moved_up(s, i, now_ms),
            None => Step { state: s, effects: Seq::empty() },
        },
        ClientRequest::MovePromptDown { prompt_id } => match prompt_at(s.prompts, prompt_id) {
            Some(i) => moved_down(s, i, now_ms),
            None => Step { state: s, effects: Seq::empty() },
        },
        ClientRequest::SetMaxWorkers(n) => {
            let count = workers_clamped(n);
            Step {
                state: OrchestratorView { max_workers: count, ..s },
                effects: seq![
                    EffectView::Broadcast(DaemonEventView::MaxWorkersChanged { count }),
                    EffectView::Dispatch,
                ],
            }
        },
        ClientRequest::SetDefaultMode { mode } => Step {
            state: OrchestratorView { default_mode: mode_named(mode@), ..s },
            effects: Seq::empty(),
        },
        ClientRequest::SetPromptMode { prompt_id, mode } => match prompt_at(s.prompts, prompt_id) {
            Some(i) => if s.prompts[i].status is Pending {
                let p = PromptView { mode: mode_named(mode@), ..s.prompts[i] };
                let t = with_prompt(s, i, p);
                Step { state: t, effects: saved(t, p) + seq![updated(t, p, now_ms)] }
            } else {
                Step { state: s, effects: Seq::empty() }
            },
            None => Step { state: s, effects: Seq::empty() },
        },
        ClientRequest::GetState => Step {
            state: s,
            effects: answer(session_id, DaemonEventView::StateSnapshot(snapshot_of(s, now_ms))),
        },
        ClientRequest::GetPromptOutput { prompt_id } => {
            let full_text = match prompt_at(s.prompts, prompt_id) {
                Some(i) => match s.prompts[i].output {
                    Some(o) => o,
                    None => Seq::empty(),
                },
                None => Seq::empty(),
            };
            Step {
                state: s,
                effects: answer(
                    session_id,
                    DaemonEventView::PromptOutput { prompt_id, full_text },
                ),
            }
        },
        ClientRequest::ResizePty { prompt_id, cols, rows } => Step {
            state: s,
            effects: if s.pty_handles.contains_key(prompt_id) {
                seq![EffectView::Resize { prompt_id, cols, rows }]
            } else {
                Seq::empty()
            },
        },
        ClientRequest::Subscribe => Step {
            state: OrchestratorView { sessions: subscription_set(s.sessions, session_id, true), ..s },
            effects: seq![
                EffectView::ReplayPty { session_id },
                EffectView::SendTo { session_id, event: DaemonEventView::Subscribed },
            ],
        },
        ClientRequest::Unsubscribe => Step {
            state: OrchestratorView {
                sessions: subscription_set(s.sessions, session_id, false),
                ..s
            },
            effects: answer(session_id, DaemonEventView::Unsubscribed),
        },
        ClientRequest::Ping => Step {
            state: s,
            effects: answer(session_id, DaemonEventView::Pong),
        },
        ClientRequest::Shutdown => Step {
            state: s,
            effects: store_answer(session_id, "Shutdown initiated"@),
        },
        ClientRequest::StoreList => Step {
            state: s,
            effects: answer(
                session_id,
                DaemonEventView::StoreListResult { prompts: infos_of(s, now_ms) },
            ),
        },
        ClientRequest::StoreCount => Step {
            state: s,
            effects: answer(
                session_id,
                DaemonEventView::StoreCountResult {
                    pending: count_where(s.prompts, |x: PromptStatus| x is Pending),
                    running: count_where(s.prompts, |x: PromptStatus| at_work(x)),
                    completed: count_where(s.prompts, |x: PromptStatus| x is Completed),
                    failed: count_where(s.prompts, |x: PromptStatus| x is Failed),
                },
            ),
        },
        ClientRequest::StorePath => Step {
            state: s,
            effects: answer(
                session_id,
                DaemonEventView::StorePathResult {
                    path: match s.prompts_dir {
                        Some(d) => d,
                        None => Seq::empty(),
                    },
                },
            ),
        },
        ClientRequest::StoreDrop { filter } => {
            let ids = ids_where(s.prompts, |x: PromptStatus| dropped(filter@, x));
            let d = prompts_deleted(s, ids);
            Step {
                state: d.state,
                effects: d.effects + store_answer(
                    session_id,
                    "Dropped "@ + text::decimal(ids.len()) + " prompts"@,
                ),
            }
        },
        ClientRequest::StoreKeep { filter } => {
            let ids = ids_where(s.prompts, |x: PromptStatus| not_kept(filter@, x));
            let d = prompts_deleted(s, ids);
            Step {
                state: d.state,
                effects: d.effects + store_answer(
                    session_id,
                    "Kept matching, dropped "@ + text::decimal(ids.len()) + " prompts"@,
                ),
            }
        },
        ClientRequest::CleanWorktrees => Step {
            state: s,
            effects: seq![
                EffectView::CleanWorktrees { session_id, paths: worktrees_left(s.prompts) },
            ],
        },
    }
}

/// A number of workers brought into the range from 1 to 20.
pub open spec fn workers_clamped(n: usize) -> usize {
    if n < 1 {
        1
    } else if n > 20 {
        20
    } else {
        n
    }
}

/// Where worktrees are removed by themselves, that of a prompt goes, and the
/// prompt is saved without it.
pub open spec fn worktree_cleaned(s: OrchestratorView, id: usize) -> Step {
    match prompt_at(s.prompts, id) {
        Some(i) => if s.worktree_cleanup is Auto && s.prompts[i].worktree_path is Some {
            let p = PromptView { worktree_path: None, ..s.prompts[i] };
            Step {
                state: with_prompt(s, i, p),
                effects: saved(s, p) + seq![
                    EffectView::RemoveWorktree { path: s.prompts[i].worktree_path->0 },
                ],
            }
        } else {
            Step { state: s, effects: Seq::empty() }
        },
        None => Step { state: s, effects: Seq::empty() },
    }
}

/// A worker is gone: its worktree may go, its channels are closed, and there
/// is room for another. `told` is what the clients are told first.
pub open spec fn worker_gone(
    s: OrchestratorView,
    id: usize,
    told: DaemonEventView,
    now_ms: u64,
) -> Step {
    let c = worktree_cleaned(s, id);
    let t = OrchestratorView {
        pty_handles: s.pty_handles.remove(id),
        worker_inputs: s.worker_inputs.remove(id),
        active_workers: one_less(s.active_workers),
        ..c.state
    };
    let change = match prompt_at(t.prompts, id) {
        Some(i) => seq![updated(t, t.prompts[i], now_ms)],
        None => Seq::empty(),
    };
    Step {
        state: t,
        effects: c.effects + seq![EffectView::Broadcast(told)] + change + seq![
            EffectView::Broadcast(
                DaemonEventView::ActiveWorkersChanged { count: t.active_workers },
            ),
        ],
    }
}

/// A prompt whose worker finished with this exit code.
pub open spec fn finished_prompt(p: PromptView, exit_code: Option<i32>, now_ms: u64) -> PromptView {
    let output = match p.output {
        Some(o) => Some(
            if o.len() > 0 && o.last() == '\n' {
                o
            } else {
                o.push('\n')
            },
        ),
        None => None,
    };
    let done = PromptView { output, finished_at_ms: Some(now_ms), ..p };
    match exit_code {
        Some(code) => if code == 0 {
            PromptView { status: PromptStatus::Completed, ..done }
        } else {
            PromptView {
                status: PromptStatus::Failed,
                error: match p.error {
                    Some(e) => Some(e),
                    None => Some("Exit code: "@ + text::signed_decimal(code as int)),
                },
                ..done
            }
        },
        None => PromptView { status: PromptStatus::Completed, ..done },
    }
}

/// What a message of a worker leads to. `screen` is the text that the terminal
/// of the prompt shows.
pub open spec fn applied(
    s: OrchestratorView,
    msg: WorkerMessage,
    now_ms: u64,
    screen: Seq<char>,
) -> Step {
    match msg {
        WorkerMessage::OutputChunk { prompt_id, text } => {
            let state = match prompt_at(s.prompts, prompt_id) {
                Some(i) => with_prompt(
                    s,
                    i,
                    PromptView {
                        status: if s.prompts[i].status is Idle {
                            PromptStatus::Running
                        } else {
                            s.prompts[i].status
                        },
                        output: appended(s.prompts[i].output, text@),
                        ..s.prompts[i]
                    },
                ),
                None => s,
            };
            Step {
                state,
                effects: seq![
                    EffectView::Broadcast(DaemonEventView::OutputChunk { prompt_id, text: text@ }),
                ],
            }
        },
        WorkerMessage::TurnComplete { prompt_id } => {
            let told = EffectView::Broadcast(DaemonEventView::TurnComplete { prompt_id });
            match prompt_at(s.prompts, prompt_id) {
                Some(i) => if s.prompts[i].status is Running {
                    let p = PromptView {
                        status: PromptStatus::Idle,
                        output: match s.prompts[i].output {
                            Some(o) => Some(o.push('\n')),
                            None => None,
                        },
                        ..s.prompts[i]
                    };
                    let t = with_prompt(s, i, p);
                    Step {
                        state: t,
                        effects: saved(t, p) + seq![told, updated(t, p, now_ms)],
                    }
                } else {
                    Step { state: s, effects: seq![told, updated(s, s.prompts[i], now_ms)] }
                },
                None => Step { state: s, effects: seq![told] },
            }
        },
        WorkerMessage::PtyUpdate { prompt_id } => Step {
            state: s,
            effects: seq![EffectView::Broadcast(DaemonEventView::PtyUpdate { prompt_id })],
        },
        WorkerMessage::SessionId { prompt_id, session_id } => {
            let told = EffectView::Broadcast(
                DaemonEventView::SessionId { prompt_id, session_id: session_id@ },
            );
            match prompt_at(s.prompts, prompt_id) {
                Some(i) => {
                    let p = PromptView { session_id: Some(session_id@), ..s.prompts[i] };
                    let t = with_prompt(s, i, p);
                    Step { state: t, effects: saved(t, p).push(told) }
                },
                None => Step { state: s, effects: seq![told] },
            }
        },
        WorkerMessage::PtyEof { prompt_id } => {
            let has_pty = s.pty_handles.contains_key(prompt_id);
            let t = match prompt_at(s.prompts, prompt_id) {
                Some(i) => if has_pty && screen.len() > 0 {
                    with_prompt(s, i, PromptView { output: Some(screen), ..s.prompts[i] })
                } else {
                    s
                },
                None => s,
            };
            if has_pty && s.pty_handles[prompt_id] {
                Step {
                    state: OrchestratorView {
                        pty_handles: s.pty_handles.insert(prompt_id, false),
                        ..t
                    },
                    effects: seq![EffectView::AwaitExit { prompt_id }],
                }
            } else {
                Step { state: t, effects: seq![EffectView::ReportFinished { prompt_id }] }
            }
        },
        WorkerMessage::Finished { prompt_id, exit_code } => {
            let told = DaemonEventView::WorkerFinished { prompt_id, exit_code };
            match prompt_at(s.prompts, prompt_id) {
                Some(i) => {
                    let shown = if s.prompts[i].output is None && s.pty_handles.contains_key(
                        prompt_id,
                    ) && screen.len() > 0 {
                        PromptView { output: Some(screen), ..s.prompts[i] }
                    } else {
                        s.prompts[i]
                    };
                    let p = finished_prompt(shown, exit_code, now_ms);
                    let t = with_prompt(s, i, p);
                    let g = worker_gone(t, prompt_id, told, now_ms);
                    Step { state: g.state, effects: saved(t, p) + g.effects }
                },
                None => worker_gone(s, prompt_id, told, now_ms),
            }
        },
        WorkerMessage::WorktreeCreated { prompt_id, result } => {
            let s1 = OrchestratorView {
                worktree_creating: s.worktree_creating.remove(prompt_id),
                ..s
            };
            match result {
                Ok(path) => match prompt_at(s.prompts, prompt_id) {
                    Some(i) => {
                        let p = PromptView { worktree_path: Some(path@), ..s.prompts[i] };
                        let t = with_prompt(s1, i, p);
                        Step { state: t, effects: saved(t, p) }
                    },
                    None => Step { state: s1, effects: Seq::empty() },
                },
                Err(e) => {
                    let error = "Failed to create worktree: "@ + e@;
                    let told = EffectView::Broadcast(
                        DaemonEventView::WorkerError { prompt_id, error },
                    );
                    match prompt_at(s.prompts, prompt_id) {
                        Some(i) => {
                            let p = PromptView {
                                status: PromptStatus::Failed,
                                error: Some(error),
                                ..s.prompts[i]
                            };
                            let t = with_prompt(s1, i, p);
                            Step {
                                state: t,
                                effects: saved(t, p) + seq![told, updated(t, p, now_ms)],
                            }
                        },
                        None => Step { state: s1, effects: seq![told] },
                    }
                },
            }
        },
        WorkerMessage::SpawnError { prompt_id, error } => {
            let told = DaemonEventView::WorkerError { prompt_id, error: error@ };
            match prompt_at(s.prompts, prompt_id) {
                Some(i) => {
                    let p = PromptView {
                        status: PromptStatus::Failed,
                        finished_at_ms: Some(now_ms),
                        error: Some(error@),
                        ..s.prompts[i]
                    };
                    let t = with_prompt(s, i, p);
                    let g = worker_gone(t, prompt_id, told, now_ms);
                    Step { state: g.state, effects: saved(t, p) + g.effects }
                },
                None => worker_gone(s, prompt_id, told, now_ms),
            }
        },
    }
}

/// A request that is about one prompt of the queue.
pub open spec fn about_prompt(req: ClientRequest) -> bool {
    ||| req is SubmitPrompt
    ||| req is RetryPrompt
    ||| req is ResumePrompt
    ||| req is DeletePrompt
    ||| req is MovePromptUp
    ||| req is MovePromptDown
    ||| req is SetPromptMode
}

/// A request that is about workers.
pub open spec fn about_worker(req: ClientRequest) -> bool {
    ||| req is SendInput
    ||| req is SendBytes
    ||| req is KillWorker
    ||| req is ResizePty
    ||| req is SetMaxWorkers
    ||| req is SetDefaultMode
}

/// A request of a client that wants to know or to be told something.
pub open spec fn about_session(req: ClientRequest) -> bool {
    ||| req is GetState
    ||| req is GetPromptOutput
    ||| req is Subscribe
    ||| req is Unsubscribe
    ||| req is Ping
    ||| req is Shutdown
}

/// A request that is about the prompts as a whole.
pub open spec fn about_store(req: ClientRequest) -> bool {
    ||| req is StoreList
    ||| req is StoreCount
    ||| req is StorePath
    ||| req is StoreDrop
    ||| req is StoreKeep
    ||| req is CleanWorktrees
}

// ---------------------------------------------------------------------
// Starting and stopping workers
// ---------------------------------------------------------------------

/// A prompt that a worker could be started on.
pub open spec fn waiting(s: OrchestratorView, p: PromptView) -> bool {
    p.status is Pending && !s.worktree_creating.contains(p.id)
}

/// The first index, from `from` on, of a prompt that a worker could be started
/// on.
pub open spec fn next_waiting(s: OrchestratorView, from: int) -> Option<int>
    decreases s.prompts.len() - from,
{
    if from < 0 || from >= s.prompts.len() {
        None
    } else if waiting(s, s.prompts[from]) {
        Some(from)
    } else {
        next_waiting(s, from + 1)
    }
}

/// Where a worker on this prompt runs.
pub open spec fn worker_cwd(p: PromptView) -> Option<Seq<char>> {
    if p.worktree && p.worktree_path is Some {
        p.worktree_path
    } else {
        p.cwd
    }
}

/// The session that a worker on this prompt takes up again.
pub open spec fn worker_session(p: PromptView) -> Option<Seq<char>> {
    if p.resume {
        match p.session_id {
            Some(id) => Some(id),
            None => Some(Seq::empty()),
        }
    } else {
        None
    }
}

/// A worktree is asked for, and the prompt at `i` is held back until then.
pub open spec fn worktree_awaited(s: OrchestratorView, i: int, repo: Seq<char>) -> Step {
    let id = s.prompts[i].id;
    Step {
        state: OrchestratorView { worktree_creating: s.worktree_creating.insert(id), ..s },
        effects: seq![EffectView::CreateWorktree { prompt_id: id, repo }],
    }
}

/// A worker starts on the prompt at `i`.
pub open spec fn worker_started(s: OrchestratorView, i: int, now_ms: u64) -> Step {
    let p = PromptView {
        status: PromptStatus::Running,
        started_at_ms: Some(now_ms),
        ..s.prompts[i]
    };
    let t = with_prompt(s, i, p);
    let count = (s.active_workers + 1) as usize;
    Step {
        state: OrchestratorView { active_workers: count, ..t },
        effects: saved(t, p) + seq![
            EffectView::Broadcast(DaemonEventView::WorkerStarted { prompt_id: p.id }),
            updated(t, p, now_ms),
            EffectView::Broadcast(DaemonEventView::ActiveWorkersChanged { count }),
        ],
    }
}

/// What comes of having started a worker.
pub open spec fn spawn_outcome(
    s: OrchestratorView,
    id: usize,
    result: SpawnResult,
    now_ms: u64,
) -> Step {
    match result {
        SpawnResult::Pty => Step {
            state: OrchestratorView {
                worker_inputs: s.worker_inputs.insert(id),
                pty_handles: s.pty_handles.insert(id, true),
                ..s
            },
            effects: Seq::empty(),
        },
        SpawnResult::OneShot => Step { state: s, effects: Seq::empty() },
        SpawnResult::Error(e) => {
            let count = one_less(s.active_workers);
            let s1 = OrchestratorView { active_workers: count, ..s };
            let told = EffectView::Broadcast(DaemonEventView::ActiveWorkersChanged { count });
            match prompt_at(s.prompts, id) {
                Some(i) => {
                    let p = PromptView {
                        status: PromptStatus::Failed,
                        finished_at_ms: Some(now_ms),
                        error: Some(e@),
                        ..s.prompts[i]
                    };
                    let t = with_prompt(s1, i, p);
                    Step {
                        state: t,
                        effects: saved(t, p) + seq![
                            EffectView::Broadcast(
                                DaemonEventView::WorkerError { prompt_id: id, error: e@ },
                            ),
                            updated(t, p, now_ms),
                            told,
                        ],
                    }
                },
                None => Step { state: s1, effects: seq![told] },
            }
        },
    }
}

/// Every id of `inputs` is told to stop, once, and then the process of every
/// terminal in `ptys` that still has one is killed, once.
pub open spec fn all_stopped(
    effects: Seq<EffectView>,
    inputs: Set<usize>,
    ptys: Map<usize, bool>,
) -> bool {
    exists|a: Seq<usize>, b: Seq<usize>|
        {
            &&& a.no_duplicates()
            &&& a.to_set() == inputs
            &&& b.no_duplicates()
            &&& b.to_set() == Set::new(|id: usize| ptys.contains_key(id) && ptys[id])
            &&& effects == #[trigger] stop_effects(a) + #[trigger] kill_effects(b)
        }
}

/// Tell these workers to stop.
pub open spec fn stop_effects(ids: Seq<usize>) -> Seq<EffectView> {
    ids.map_values(|id: usize| EffectView::Input { prompt_id: id, input: WorkerInputView::Kill })
}

/// Kill the processes of these terminals.
pub open spec fn kill_effects(ids: Seq<usize>) -> Seq<EffectView> {
    ids.map_values(|id: usize| EffectView::KillChild { prompt_id: id })
}

} // verus!
