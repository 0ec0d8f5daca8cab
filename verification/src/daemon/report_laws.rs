//! What becomes of a prompt when its worker is started, reports and ends.

use vstd::prelude::*;

use super::effect::EffectView;
use super::laws::numbered;
use super::model::{applied, finished_prompt, info_of, next_waiting, prompt_at, prompt_at_is_first, spawn_outcome, with_prompt, worker_gone, worker_started, worktree_awaited, worktree_cleaned, OrchestratorView};
use super::orchestrator::{spawn_is, step_is, DispatchStep, WorkerSpawn};
use super::worker::{SpawnResult, WorkerMessage};
use crate::config::WorktreeCleanup;
use crate::prompt::{PromptMode, PromptStatus, PromptView};
use crate::protocol::DaemonEventView;
use crate::text;

verus! {

/// There is a prompt at `i`, and it alone has its number.
pub open spec fn placed(s: OrchestratorView, i: int) -> bool {
    numbered(s) && 0 <= i < s.prompts.len()
}

/// All prompts but the one at `i` are as they were, each in its place.
pub open spec fn others_kept(s: OrchestratorView, t: OrchestratorView, i: int) -> bool {
    &&& t.prompts.len() == s.prompts.len()
    &&& forall|k: int|
        0 <= k < s.prompts.len() && k != i ==> (#[trigger] t.prompts[k]) == s.prompts[k]
}

/// All clients that listen are told this.
pub open spec fn announced(es: Seq<EffectView>, e: DaemonEventView) -> bool {
    es.contains(EffectView::Broadcast(e))
}

/// How many effects it takes to save a prompt: one where prompts are saved.
pub open spec fn saves(s: OrchestratorView) -> int {
    if s.prompts_dir is Some {
        1
    } else {
        0
    }
}

/// The prompt is written to its file, where prompts are saved.
pub open spec fn kept_on_file(s: OrchestratorView, es: Seq<EffectView>, p: PromptView) -> bool {
    s.prompts_dir is Some ==> es.contains(EffectView::Save(p))
}

/// A prompt is found where it is.
pub proof fn found_in_its_place(s: OrchestratorView, i: int)
    requires
        placed(s, i),
    ensures
        prompt_at(s.prompts, s.prompts[i].id) == Some(i),
{
    prompt_at_is_first(s.prompts, s.prompts[i].id);
    let k = prompt_at(s.prompts, s.prompts[i].id)->0;
    if k < i {
        assert(s.prompts[k].id != s.prompts[i].id);
    }
}

/// A prompt is still found where it is when something else of it changes.
proof fn still_found(s: OrchestratorView, i: int, p: PromptView)
    requires
        placed(s, i),
        p.id == s.prompts[i].id,
    ensures
        prompt_at(with_prompt(s, i, p).prompts, p.id) == Some(i),
{
    let ps = with_prompt(s, i, p).prompts;
    prompt_at_is_first(ps, p.id);
    let k = prompt_at(ps, p.id)->0;
    assert(ps[i].id == p.id);
    if k < i {
        assert(s.prompts[k].id != s.prompts[i].id);
    }
}

/// What is in one of two lists is in both together.
pub proof fn holds_together(a: Seq<EffectView>, b: Seq<EffectView>, e: EffectView)
    requires
        a.contains(e) || b.contains(e),
    ensures
        (a + b).contains(e),
{
    if a.contains(e) {
        let k = a.index_of(e);
        assert((a + b)[k] == e);
    } else {
        let k = b.index_of(e);
        assert((a + b)[a.len() + k] == e);
    }
}

// ---------------------------------------------------------------------
// Starting
// ---------------------------------------------------------------------

/// The next worker is started on the first prompt that waits and is not held
/// back for its worktree, and only while there is room. A prompt that asks for
/// a worktree and has none yet is not started before one was tried for.
pub proof fn workers_start_in_order(r: DispatchStep, s: OrchestratorView)
    requires
        step_is(r, s),
    ensures
        ({
            let free = |k: int|
                0 <= k < s.prompts.len() && s.prompts[k].status == PromptStatus::Pending
                    && !s.worktree_creating.contains(s.prompts[k].id);
            &&& r == DispatchStep::Idle <==> s.active_workers >= s.max_workers || forall|k: int|
                !#[trigger] free(k)
            &&& r matches DispatchStep::Start { index } ==> {
                &&& free(index as int)
                &&& forall|k: int| 0 <= k < index ==> !#[trigger] free(k)
                &&& s.prompts[index as int].worktree ==> s.prompts[index as int].worktree_path
                    is Some
                &&& s.active_workers < s.max_workers
            }
            &&& r matches DispatchStep::CheckRepo { index, cwd } ==> {
                &&& free(index as int)
                &&& forall|k: int| 0 <= k < index ==> !#[trigger] free(k)
                &&& s.prompts[index as int].worktree
                &&& s.prompts[index as int].worktree_path is None
                &&& text::text_option(cwd) == s.prompts[index as int].cwd
                &&& s.active_workers < s.max_workers
            }
        }),
{
    let free = |k: int|
        0 <= k < s.prompts.len() && s.prompts[k].status == PromptStatus::Pending
            && !s.worktree_creating.contains(s.prompts[k].id);
    next_waiting_is_first(s, 0);
    if let Some(i) = next_waiting(s, 0) {
        assert(free(i));
        assert forall|k: int| 0 <= k < i implies !#[trigger] free(k) by {}
    } else {
        assert forall|k: int| !#[trigger] free(k) by {}
    }
}

/// The next prompt that waits is the first that does.
proof fn next_waiting_is_first(s: OrchestratorView, from: int)
    requires
        0 <= from,
    ensures
        next_waiting(s, from) matches Some(i) ==> from <= i < s.prompts.len()
            && s.prompts[i].status == PromptStatus::Pending && !s.worktree_creating.contains(
            s.prompts[i].id,
        ) && forall|k: int|
            from <= k < i ==> (#[trigger] s.prompts[k]).status != PromptStatus::Pending
                || s.worktree_creating.contains(s.prompts[k].id),
        next_waiting(s, from) is None ==> forall|k: int|
            from <= k < s.prompts.len() ==> (#[trigger] s.prompts[k]).status
                != PromptStatus::Pending || s.worktree_creating.contains(s.prompts[k].id),
    decreases s.prompts.len() - from,
{
    if from < s.prompts.len() {
        if !(s.prompts[from].status is Pending && !s.worktree_creating.contains(
            s.prompts[from].id,
        )) {
            next_waiting_is_first(s, from + 1);
        }
    }
}

/// A worker is given the prompt as it was asked. It works in the prompt's
/// worktree where it asked for one and has it, else in the prompt's directory;
/// it takes up a session only where the prompt is resumed.
pub proof fn workers_get_their_prompt(r: WorkerSpawn, p: PromptView)
    requires
        spawn_is(r, p),
    ensures
        r.prompt_id == p.id,
        r.prompt_text@ == p.text,
        r.mode == p.mode,
        p.worktree && p.worktree_path is Some ==> (r.cwd matches Some(d) && d@
            == p.worktree_path->0),
        !(p.worktree && p.worktree_path is Some) ==> text::text_option(r.cwd) == p.cwd,
        !p.resume ==> r.resume_session_id is None,
        p.resume ==> (r.resume_session_id matches Some(id) && (p.session_id is Some ==> id@
            == p.session_id->0) && (p.session_id is None ==> id@.len() == 0)),
        r.pty_size.0 == 80,
        r.pty_size.1 == 24,
{
}

/// A prompt that asked for a worktree is started in the one that was made for
/// it, so that prompts with different worktrees are never started in the same
/// directory.
pub proof fn worktrees_are_worked_in(
    s: OrchestratorView,
    i: int,
    path: String,
    now_ms: u64,
    screen: Seq<char>,
    r: WorkerSpawn,
    j: int,
    other: WorkerSpawn,
)
    requires
        placed(s, i),
        s.prompts[i].worktree,
        ({
            let msg = WorkerMessage::WorktreeCreated {
                prompt_id: s.prompts[i].id,
                result: Ok(path),
            };
            let t = applied(s, msg, now_ms, screen).state;
            spawn_is(r, t.prompts[i]) && spawn_is(other, s.prompts[j])
        }),
        0 <= j < s.prompts.len(),
        j != i,
        s.prompts[j].worktree,
        s.prompts[j].worktree_path is Some,
        s.prompts[j].worktree_path->0 != path@,
    ensures
        text::text_option(r.cwd) == Some(path@),
        text::text_option(r.cwd) != text::text_option(other.cwd),
        r.prompt_id == s.prompts[i].id,
{
    found_in_its_place(s, i);
}

/// A prompt that is started runs from now on, counts as one worker more, and
/// all clients are told.
pub proof fn started_prompt_runs(s: OrchestratorView, i: int, now_ms: u64)
    requires
        0 <= i < s.prompts.len(),
        s.active_workers < s.max_workers,
    ensures
        ({
            let step = worker_started(s, i, now_ms);
            let p = step.state.prompts[i];
            &&& p.status == PromptStatus::Running
            &&& p.started_at_ms == Some(now_ms)
            &&& p == PromptView {
                status: PromptStatus::Running,
                started_at_ms: Some(now_ms),
                ..s.prompts[i]
            }
            &&& others_kept(s, step.state, i)
            &&& step.state == OrchestratorView {
                prompts: step.state.prompts,
                active_workers: (s.active_workers + 1) as usize,
                ..s
            }
            &&& step.effects.len() == saves(s) + 3
            &&& announced(
                step.effects,
                DaemonEventView::WorkerStarted { prompt_id: s.prompts[i].id },
            )
            &&& announced(
                step.effects,
                DaemonEventView::ActiveWorkersChanged { count: (s.active_workers + 1) as usize },
            )
            &&& announced(
                step.effects,
                DaemonEventView::PromptUpdated(info_of(step.state, p, now_ms)),
            )
            &&& kept_on_file(s, step.effects, p)
        }),
{
    let step = worker_started(s, i, now_ms);
    let p = step.state.prompts[i];
    let n = step.effects.len();
    assert(step.effects[n - 3] == EffectView::Broadcast(
        DaemonEventView::WorkerStarted { prompt_id: s.prompts[i].id },
    ));
    assert(step.effects[n - 1] == EffectView::Broadcast(
        DaemonEventView::ActiveWorkersChanged { count: (s.active_workers + 1) as usize },
    ));
    assert(info_of(step.state, p, now_ms) == info_of(with_prompt(s, i, p), p, now_ms));
    assert(step.effects[n - 2] == EffectView::Broadcast(
        DaemonEventView::PromptUpdated(info_of(step.state, p, now_ms)),
    ));
    if s.prompts_dir is Some {
        assert(step.effects[0] == EffectView::Save(p));
    }
}

/// A worker in a terminal takes input and has a process to kill; one that
/// answers once has neither. One that did not start leaves its prompt failed,
/// with the error, and is counted no more.
pub proof fn spawning_settles(s: OrchestratorView, i: int, error: String, now_ms: u64)
    requires
        placed(s, i),
    ensures
        ({
            let id = s.prompts[i].id;
            let pty = spawn_outcome(s, id, SpawnResult::Pty, now_ms);
            &&& pty.effects.len() == 0
            &&& pty.state.prompts == s.prompts
            &&& pty.state.active_workers == s.active_workers
            &&& forall|k: usize| #[trigger]
                pty.state.worker_inputs.contains(k) <==> k == id || s.worker_inputs.contains(k)
            &&& pty.state.pty_handles.contains_key(id) && pty.state.pty_handles[id]
            &&& forall|k: usize|
                k != id ==> (#[trigger] pty.state.pty_handles.contains_key(k)
                    == s.pty_handles.contains_key(k))
        }),
        ({
            let once = spawn_outcome(s, s.prompts[i].id, SpawnResult::OneShot, now_ms);
            once.effects.len() == 0 && once.state == s
        }),
        ({
            let id = s.prompts[i].id;
            let bad = spawn_outcome(s, id, SpawnResult::Error(error), now_ms);
            let p = bad.state.prompts[i];
            &&& p == PromptView {
                status: PromptStatus::Failed,
                error: Some(error@),
                finished_at_ms: Some(now_ms),
                ..s.prompts[i]
            }
            &&& others_kept(s, bad.state, i)
            &&& s.active_workers > 0 ==> bad.state.active_workers == s.active_workers - 1
            &&& s.active_workers == 0 ==> bad.state.active_workers == 0
            &&& bad.effects.len() == saves(s) + 3
            &&& announced(
                bad.effects,
                DaemonEventView::WorkerError { prompt_id: id, error: error@ },
            )
            &&& announced(
                bad.effects,
                DaemonEventView::ActiveWorkersChanged { count: bad.state.active_workers },
            )
            &&& announced(
                bad.effects,
                DaemonEventView::PromptUpdated(info_of(bad.state, p, now_ms)),
            )
            &&& kept_on_file(s, bad.effects, p)
        }),
{
    found_in_its_place(s, i);
    let id = s.prompts[i].id;
    let bad = spawn_outcome(s, id, SpawnResult::Error(error), now_ms);
    let p = bad.state.prompts[i];
    let n = bad.effects.len();
    assert(bad.effects[n - 3] == EffectView::Broadcast(
        DaemonEventView::WorkerError { prompt_id: id, error: error@ },
    ));
    assert(bad.effects[n - 2] == EffectView::Broadcast(
        DaemonEventView::PromptUpdated(info_of(bad.state, p, now_ms)),
    ));
    assert(bad.effects[n - 1] == EffectView::Broadcast(
        DaemonEventView::ActiveWorkersChanged { count: bad.state.active_workers },
    ));
    if s.prompts_dir is Some {
        assert(bad.effects[0] == EffectView::Save(p));
    }
}

// ---------------------------------------------------------------------
// Reports
// ---------------------------------------------------------------------

/// What a worker puts out is added to the output of its prompt, behind what
/// there is, and shown to all; an idle prompt runs again.
pub proof fn output_is_added(
    s: OrchestratorView,
    i: int,
    words: String,
    now_ms: u64,
    screen: Seq<char>,
)
    requires
        placed(s, i),
    ensures
        ({
            let msg = WorkerMessage::OutputChunk { prompt_id: s.prompts[i].id, text: words };
            let step = applied(s, msg, now_ms, screen);
            let p = step.state.prompts[i];
            &&& s.prompts[i].output is None ==> p.output == Some(words@)
            &&& s.prompts[i].output matches Some(o) ==> p.output == Some(o + words@)
            &&& p.status == if s.prompts[i].status == PromptStatus::Idle {
                PromptStatus::Running
            } else {
                s.prompts[i].status
            }
            &&& p == PromptView { output: p.output, status: p.status, ..s.prompts[i] }
            &&& others_kept(s, step.state, i)
            &&& step.state == OrchestratorView { prompts: step.state.prompts, ..s }
            &&& step.effects.len() == 1
            &&& announced(
                step.effects,
                DaemonEventView::OutputChunk { prompt_id: s.prompts[i].id, text: words@ },
            )
        }),
{
    found_in_its_place(s, i);
    let msg = WorkerMessage::OutputChunk { prompt_id: s.prompts[i].id, text: words };
    let step = applied(s, msg, now_ms, screen);
    assert(step.effects[0] == EffectView::Broadcast(
        DaemonEventView::OutputChunk { prompt_id: s.prompts[i].id, text: words@ },
    ));
}

/// A running prompt whose worker has had its turn is idle, and its output, if
/// any, ends its line; a prompt that does not run stays as it is.
pub proof fn turn_makes_idle(s: OrchestratorView, i: int, now_ms: u64, screen: Seq<char>)
    requires
        placed(s, i),
    ensures
        ({
            let msg = WorkerMessage::TurnComplete { prompt_id: s.prompts[i].id };
            let step = applied(s, msg, now_ms, screen);
            let p = step.state.prompts[i];
            &&& s.prompts[i].status == PromptStatus::Running ==> {
                &&& p.status == PromptStatus::Idle
                &&& s.prompts[i].output is None ==> p.output is None
                &&& s.prompts[i].output matches Some(o) ==> p.output == Some(o.push('\n'))
                &&& p == PromptView { output: p.output, status: p.status, ..s.prompts[i] }
                &&& kept_on_file(s, step.effects, p)
                &&& step.effects.len() == saves(s) + 2
            }
            &&& s.prompts[i].status != PromptStatus::Running ==> p == s.prompts[i]
                && step.effects.len() == 2
            &&& others_kept(s, step.state, i)
            &&& step.state == OrchestratorView { prompts: step.state.prompts, ..s }
            &&& announced(
                step.effects,
                DaemonEventView::TurnComplete { prompt_id: s.prompts[i].id },
            )
            &&& announced(
                step.effects,
                DaemonEventView::PromptUpdated(info_of(step.state, p, now_ms)),
            )
        }),
{
    found_in_its_place(s, i);
    let msg = WorkerMessage::TurnComplete { prompt_id: s.prompts[i].id };
    let step = applied(s, msg, now_ms, screen);
    let p = step.state.prompts[i];
    let n = step.effects.len();
    assert(step.effects[n - 2] == EffectView::Broadcast(
        DaemonEventView::TurnComplete { prompt_id: s.prompts[i].id },
    ));
    assert(step.effects[n - 1] == EffectView::Broadcast(
        DaemonEventView::PromptUpdated(info_of(step.state, p, now_ms)),
    ));
    if s.prompts_dir is Some && s.prompts[i].status == PromptStatus::Running {
        assert(step.effects[0] == EffectView::Save(p));
    }
}

/// The session that a worker reports is that of its prompt from then on.
pub proof fn session_is_noted(
    s: OrchestratorView,
    i: int,
    session_id: String,
    now_ms: u64,
    screen: Seq<char>,
)
    requires
        placed(s, i),
    ensures
        ({
            let msg = WorkerMessage::SessionId { prompt_id: s.prompts[i].id, session_id };
            let step = applied(s, msg, now_ms, screen);
            let p = step.state.prompts[i];
            &&& p == PromptView { session_id: Some(session_id@), ..s.prompts[i] }
            &&& others_kept(s, step.state, i)
            &&& step.state == OrchestratorView { prompts: step.state.prompts, ..s }
            &&& step.effects.len() == saves(s) + 1
            &&& announced(
                step.effects,
                DaemonEventView::SessionId {
                    prompt_id: s.prompts[i].id,
                    session_id: session_id@,
                },
            )
            &&& kept_on_file(s, step.effects, p)
        }),
{
    found_in_its_place(s, i);
    let msg = WorkerMessage::SessionId { prompt_id: s.prompts[i].id, session_id };
    let step = applied(s, msg, now_ms, screen);
    assert(step.effects.last() == EffectView::Broadcast(
        DaemonEventView::SessionId { prompt_id: s.prompts[i].id, session_id: session_id@ },
    ));
    if s.prompts_dir is Some {
        assert(step.effects[0] == EffectView::Save(step.state.prompts[i]));
    }
}

/// News of a terminal change nothing here and are passed on.
pub proof fn terminal_news_are_passed_on(
    s: OrchestratorView,
    id: usize,
    now_ms: u64,
    screen: Seq<char>,
)
    ensures
        ({
            let step = applied(s, WorkerMessage::PtyUpdate { prompt_id: id }, now_ms, screen);
            &&& step.state == s
            &&& step.effects.len() == 1
            &&& announced(step.effects, DaemonEventView::PtyUpdate { prompt_id: id })
        }),
{
    let step = applied(s, WorkerMessage::PtyUpdate { prompt_id: id }, now_ms, screen);
    assert(step.effects[0] == EffectView::Broadcast(DaemonEventView::PtyUpdate { prompt_id: id }));
}

/// When a terminal has come to its end, what it shows is the output of its
/// prompt, unless it shows nothing. A process that is still there is waited
/// for, once; without one the worker is reported as finished.
pub proof fn terminal_end_is_awaited(
    s: OrchestratorView,
    i: int,
    now_ms: u64,
    screen: Seq<char>,
)
    requires
        placed(s, i),
    ensures
        ({
            let id = s.prompts[i].id;
            let step = applied(s, WorkerMessage::PtyEof { prompt_id: id }, now_ms, screen);
            let p = step.state.prompts[i];
            &&& s.pty_handles.contains_key(id) && screen.len() > 0 ==> p == PromptView {
                output: Some(screen),
                ..s.prompts[i]
            }
            &&& !(s.pty_handles.contains_key(id) && screen.len() > 0) ==> p == s.prompts[i]
            &&& others_kept(s, step.state, i)
            &&& step.state.active_workers == s.active_workers
            &&& step.state.worker_inputs == s.worker_inputs
            &&& step.effects.len() == 1
            &&& s.pty_handles.contains_key(id) && s.pty_handles[id] ==> step.effects[0]
                == EffectView::AwaitExit { prompt_id: id } && step.state.pty_handles.contains_key(id)
                && !step.state.pty_handles[id]
            &&& !(s.pty_handles.contains_key(id) && s.pty_handles[id]) ==> step.effects[0]
                == EffectView::ReportFinished { prompt_id: id } && step.state.pty_handles
                == s.pty_handles
        }),
{
    found_in_its_place(s, i);
}

/// A prompt whose worker finished is completed exactly where the exit code is
/// zero or not known, and failed exactly where it is another number. An error
/// that was there stays; otherwise there is one exactly where the prompt
/// failed, and it tells the exit code.
pub proof fn exit_code_decides(
    s: OrchestratorView,
    i: int,
    exit_code: Option<i32>,
    now_ms: u64,
    screen: Seq<char>,
)
    requires
        placed(s, i),
    ensures
        ({
            let id = s.prompts[i].id;
            let step = applied(
                s,
                WorkerMessage::Finished { prompt_id: id, exit_code },
                now_ms,
                screen,
            );
            let q = s.prompts[i];
            let p = step.state.prompts[i];
            let well = exit_code is None || exit_code == Some(0i32);
            &&& p.status == PromptStatus::Completed <==> well
            &&& p.status == PromptStatus::Failed <==> !well
            &&& q.error is Some ==> p.error == q.error
            &&& q.error is None && well ==> p.error is None
            &&& q.error is None && !well ==> p.error == Some(
                "Exit code: "@ + text::signed_decimal(exit_code->0 as int),
            )
            &&& p.finished_at_ms == Some(now_ms)
            &&& p == PromptView {
                status: p.status,
                error: p.error,
                output: p.output,
                finished_at_ms: p.finished_at_ms,
                worktree_path: p.worktree_path,
                ..q
            }
            &&& others_kept(s, step.state, i)
            &&& kept_on_file(
                s,
                step.effects,
                PromptView { worktree_path: q.worktree_path, ..p },
            )
            &&& announced(
                step.effects,
                DaemonEventView::WorkerFinished { prompt_id: id, exit_code },
            )
            &&& announced(
                step.effects,
                DaemonEventView::PromptUpdated(info_of(step.state, p, now_ms)),
            )
        }),
{
    found_in_its_place(s, i);
    let id = s.prompts[i].id;
    let msg = WorkerMessage::Finished { prompt_id: id, exit_code };
    let step = applied(s, msg, now_ms, screen);
    let p = step.state.prompts[i];
    let q = ended_prompt(s, i, msg, now_ms, screen);
    let told = DaemonEventView::WorkerFinished { prompt_id: id, exit_code };
    gone_from_its_place(s, i, q, told, now_ms);
    let t = with_prompt(s, i, q);
    let g = worker_gone(t, id, told, now_ms);
    if s.prompts_dir is Some {
        assert(step.effects[0] == EffectView::Save(q));
    }
    let front = step.effects.take(step.effects.len() - g.effects.len());
    assert(step.effects =~= front + g.effects);
    holds_together(front, g.effects, EffectView::Broadcast(told));
    holds_together(
        front,
        g.effects,
        EffectView::Broadcast(DaemonEventView::PromptUpdated(info_of(step.state, p, now_ms))),
    );
}

/// The prompt at the end of its worker, before its worktree may go.
spec fn ended_prompt(
    s: OrchestratorView,
    i: int,
    msg: WorkerMessage,
    now_ms: u64,
    screen: Seq<char>,
) -> PromptView {
    let q = s.prompts[i];
    match msg {
        WorkerMessage::Finished { exit_code, .. } => {
            let shown = if q.output is None && s.pty_handles.contains_key(q.id) && screen.len()
                > 0 {
                PromptView { output: Some(screen), ..q }
            } else {
                q
            };
            finished_prompt(shown, exit_code, now_ms)
        },
        WorkerMessage::SpawnError { error, .. } => PromptView {
            status: PromptStatus::Failed,
            finished_at_ms: Some(now_ms),
            error: Some(error@),
            ..q
        },
        _ => q,
    }
}

/// What the end of a worker leaves of its prompt and of the count, and what the
/// clients hear of it.
proof fn gone_from_its_place(
    s: OrchestratorView,
    i: int,
    q: PromptView,
    told: DaemonEventView,
    now_ms: u64,
)
    requires
        placed(s, i),
        q.id == s.prompts[i].id,
    ensures
        ({
            let t = with_prompt(s, i, q);
            let g = worker_gone(t, q.id, told, now_ms);
            let p = g.state.prompts[i];
            &&& others_kept(s, g.state, i)
            &&& p == PromptView { worktree_path: p.worktree_path, ..q }
            &&& p.worktree_path == if s.worktree_cleanup == WorktreeCleanup::Auto {
                None
            } else {
                q.worktree_path
            }
            &&& s.worktree_cleanup == WorktreeCleanup::Auto && q.worktree_path is Some
                ==> g.effects.contains(EffectView::RemoveWorktree { path: q.worktree_path->0 })
            &&& g.effects.len() == 3 + if s.worktree_cleanup == WorktreeCleanup::Auto
                && q.worktree_path is Some {
                saves(s) + 1
            } else {
                0
            }
            &&& announced(g.effects, told)
            &&& announced(
                g.effects,
                DaemonEventView::ActiveWorkersChanged { count: g.state.active_workers },
            )
            &&& announced(
                g.effects,
                DaemonEventView::PromptUpdated(info_of(g.state, p, now_ms)),
            )
        }),
{
    let t = with_prompt(s, i, q);
    still_found(s, i, q);
    let c = worktree_cleaned(t, q.id);
    let g = worker_gone(t, q.id, told, now_ms);
    let p = g.state.prompts[i];
    still_found(s, i, p);
    assert(g.state.prompts =~= with_prompt(s, i, p).prompts);
    let n = g.effects.len();
    assert(g.effects[n - 1] == EffectView::Broadcast(
        DaemonEventView::ActiveWorkersChanged { count: g.state.active_workers },
    ));
    assert(g.effects[n - 2] == EffectView::Broadcast(
        DaemonEventView::PromptUpdated(info_of(g.state, p, now_ms)),
    ));
    assert(g.effects[n - 3] == EffectView::Broadcast(told));
    if s.worktree_cleanup == WorktreeCleanup::Auto && q.worktree_path is Some {
        assert(c.effects.last() == EffectView::RemoveWorktree { path: q.worktree_path->0 });
        assert(g.effects[n - 4] == c.effects.last());
    }
}

/// The output of a prompt whose worker finished is what it was, or, where there
/// was none, what its terminal shows, with its last line ended.
pub proof fn finished_output_ends_its_line(
    s: OrchestratorView,
    i: int,
    exit_code: Option<i32>,
    now_ms: u64,
    screen: Seq<char>,
)
    requires
        placed(s, i),
    ensures
        ({
            let id = s.prompts[i].id;
            let step = applied(
                s,
                WorkerMessage::Finished { prompt_id: id, exit_code },
                now_ms,
                screen,
            );
            let p = step.state.prompts[i];
            let shown = s.pty_handles.contains_key(id) && screen.len() > 0;
            let ended = |a: Seq<char>, b: Seq<char>|
                if a.len() > 0 && a.last() == '\n' {
                    b == a
                } else {
                    b == a.push('\n')
                };
            &&& s.prompts[i].output matches Some(o) ==> p.output is Some && ended(o, p.output->0)
            &&& s.prompts[i].output is None && shown ==> p.output is Some && ended(
                screen,
                p.output->0,
            )
            &&& s.prompts[i].output is None && !shown ==> p.output is None
        }),
{
    found_in_its_place(s, i);
    let id = s.prompts[i].id;
    let msg = WorkerMessage::Finished { prompt_id: id, exit_code };
    let q = ended_prompt(s, i, msg, now_ms, screen);
    gone_from_its_place(
        s,
        i,
        q,
        DaemonEventView::WorkerFinished { prompt_id: id, exit_code },
        now_ms,
    );
}

/// A worker that finished, or that did not start, is counted no more, takes no
/// input and has no terminal; those of other prompts keep theirs. Its worktree
/// is removed exactly where worktrees are removed by themselves.
pub proof fn ended_worker_makes_room(
    s: OrchestratorView,
    i: int,
    msg: WorkerMessage,
    now_ms: u64,
    screen: Seq<char>,
)
    requires
        placed(s, i),
        ({
            ||| msg matches WorkerMessage::Finished { prompt_id, .. } && prompt_id == s.prompts[i].id
            ||| msg matches WorkerMessage::SpawnError { prompt_id, .. } && prompt_id
                == s.prompts[i].id
        }),
    ensures
        ({
            let id = s.prompts[i].id;
            let step = applied(s, msg, now_ms, screen);
            let t = step.state;
            &&& s.active_workers > 0 ==> t.active_workers == s.active_workers - 1
            &&& s.active_workers == 0 ==> t.active_workers == 0
            &&& forall|k: usize| #[trigger]
                t.worker_inputs.contains(k) <==> k != id && s.worker_inputs.contains(k)
            &&& forall|k: usize| #[trigger]
                t.pty_handles.contains_key(k) <==> k != id && s.pty_handles.contains_key(k)
            &&& forall|k: usize|
                k != id && s.pty_handles.contains_key(k) ==> (#[trigger] t.pty_handles[k])
                    == s.pty_handles[k]
            &&& t.prompts[i].worktree_path == if s.worktree_cleanup == WorktreeCleanup::Auto {
                None
            } else {
                s.prompts[i].worktree_path
            }
            &&& s.worktree_cleanup == WorktreeCleanup::Auto && s.prompts[i].worktree_path is Some
                ==> step.effects.contains(
                EffectView::RemoveWorktree { path: s.prompts[i].worktree_path->0 },
            )
            &&& announced(
                step.effects,
                DaemonEventView::ActiveWorkersChanged { count: t.active_workers },
            )
            &&& step.effects.len() == saves(s) + 3 + if s.worktree_cleanup == WorktreeCleanup::Auto
                && s.prompts[i].worktree_path is Some {
                saves(s) + 1
            } else {
                0
            }
            &&& t.max_workers == s.max_workers
            &&& t.worktree_creating == s.worktree_creating
            &&& t.sessions == s.sessions
            &&& t.default_mode == s.default_mode
        }),
{
    found_in_its_place(s, i);
    let id = s.prompts[i].id;
    let step = applied(s, msg, now_ms, screen);
    let told = match msg {
        WorkerMessage::Finished { prompt_id, exit_code } => DaemonEventView::WorkerFinished {
            prompt_id,
            exit_code,
        },
        WorkerMessage::SpawnError { prompt_id, error } => DaemonEventView::WorkerError {
            prompt_id,
            error: error@,
        },
        _ => DaemonEventView::Pong,
    };
    let q = ended_prompt(s, i, msg, now_ms, screen);
    gone_from_its_place(s, i, q, told, now_ms);
    let g = worker_gone(with_prompt(s, i, q), id, told, now_ms);
    let front = step.effects.take(step.effects.len() - g.effects.len());
    assert(step.effects =~= front + g.effects);
    holds_together(
        front,
        g.effects,
        EffectView::Broadcast(
            DaemonEventView::ActiveWorkersChanged { count: step.state.active_workers },
        ),
    );
    if s.worktree_cleanup == WorktreeCleanup::Auto && s.prompts[i].worktree_path is Some {
        holds_together(
            front,
            g.effects,
            EffectView::RemoveWorktree { path: s.prompts[i].worktree_path->0 },
        );
    }
}

/// A worker that did not start leaves its prompt failed, with the error.
pub proof fn unstarted_prompt_fails(
    s: OrchestratorView,
    i: int,
    error: String,
    now_ms: u64,
    screen: Seq<char>,
)
    requires
        placed(s, i),
    ensures
        ({
            let id = s.prompts[i].id;
            let step = applied(
                s,
                WorkerMessage::SpawnError { prompt_id: id, error },
                now_ms,
                screen,
            );
            let p = step.state.prompts[i];
            &&& p == PromptView {
                status: PromptStatus::Failed,
                error: Some(error@),
                finished_at_ms: Some(now_ms),
                worktree_path: p.worktree_path,
                ..s.prompts[i]
            }
            &&& others_kept(s, step.state, i)
            &&& announced(
                step.effects,
                DaemonEventView::WorkerError { prompt_id: id, error: error@ },
            )
            &&& announced(
                step.effects,
                DaemonEventView::PromptUpdated(info_of(step.state, p, now_ms)),
            )
            &&& kept_on_file(
                s,
                step.effects,
                PromptView { worktree_path: s.prompts[i].worktree_path, ..p },
            )
        }),
{
    found_in_its_place(s, i);
    let id = s.prompts[i].id;
    let msg = WorkerMessage::SpawnError { prompt_id: id, error };
    let step = applied(s, msg, now_ms, screen);
    let p = step.state.prompts[i];
    let q = ended_prompt(s, i, msg, now_ms, screen);
    let told = DaemonEventView::WorkerError { prompt_id: id, error: error@ };
    gone_from_its_place(s, i, q, told, now_ms);
    let g = worker_gone(with_prompt(s, i, q), id, told, now_ms);
    if s.prompts_dir is Some {
        assert(step.effects[0] == EffectView::Save(q));
    }
    let front = step.effects.take(step.effects.len() - g.effects.len());
    assert(step.effects =~= front + g.effects);
    holds_together(front, g.effects, EffectView::Broadcast(told));
    holds_together(
        front,
        g.effects,
        EffectView::Broadcast(DaemonEventView::PromptUpdated(info_of(step.state, p, now_ms))),
    );
}

/// A worktree that was made is that of its prompt, which waits on; one that
/// could not be made leaves its prompt failed, with the reason. Either way the
/// prompt is held back no more, and no worker is counted or forgotten.
pub proof fn worktree_report_is_noted(
    s: OrchestratorView,
    i: int,
    path: String,
    reason: String,
    now_ms: u64,
    screen: Seq<char>,
)
    requires
        placed(s, i),
    ensures
        ({
            let id = s.prompts[i].id;
            let msg = WorkerMessage::WorktreeCreated { prompt_id: id, result: Ok(path) };
            let step = applied(s, msg, now_ms, screen);
            let p = step.state.prompts[i];
            &&& p == PromptView { worktree_path: Some(path@), ..s.prompts[i] }
            &&& others_kept(s, step.state, i)
            &&& step.state == OrchestratorView {
                prompts: step.state.prompts,
                worktree_creating: s.worktree_creating.remove(id),
                ..s
            }
            &&& step.effects.len() == saves(s)
            &&& kept_on_file(s, step.effects, p)
        }),
        ({
            let id = s.prompts[i].id;
            let msg = WorkerMessage::WorktreeCreated { prompt_id: id, result: Err(reason) };
            let step = applied(s, msg, now_ms, screen);
            let p = step.state.prompts[i];
            let error = "Failed to create worktree: "@ + reason@;
            &&& p == PromptView {
                status: PromptStatus::Failed,
                error: Some(error),
                ..s.prompts[i]
            }
            &&& others_kept(s, step.state, i)
            &&& step.state == OrchestratorView {
                prompts: step.state.prompts,
                worktree_creating: s.worktree_creating.remove(id),
                ..s
            }
            &&& step.effects.len() == saves(s) + 2
            &&& announced(step.effects, DaemonEventView::WorkerError { prompt_id: id, error })
            &&& announced(
                step.effects,
                DaemonEventView::PromptUpdated(info_of(step.state, p, now_ms)),
            )
            &&& kept_on_file(s, step.effects, p)
        }),
{
    found_in_its_place(s, i);
    let id = s.prompts[i].id;
    let well = applied(
        s,
        WorkerMessage::WorktreeCreated { prompt_id: id, result: Ok(path) },
        now_ms,
        screen,
    );
    let ill = applied(
        s,
        WorkerMessage::WorktreeCreated { prompt_id: id, result: Err(reason) },
        now_ms,
        screen,
    );
    let error = "Failed to create worktree: "@ + reason@;
    if s.prompts_dir is Some {
        assert(well.effects[0] == EffectView::Save(well.state.prompts[i]));
        assert(ill.effects[0] == EffectView::Save(ill.state.prompts[i]));
    }
    let n = ill.effects.len();
    assert(ill.effects[n - 2] == EffectView::Broadcast(
        DaemonEventView::WorkerError { prompt_id: id, error },
    ));
    assert(ill.effects[n - 1] == EffectView::Broadcast(
        DaemonEventView::PromptUpdated(info_of(ill.state, ill.state.prompts[i], now_ms)),
    ));
}

/// A report about a prompt that is not there changes no prompt.
pub proof fn stray_report_changes_no_prompt(
    s: OrchestratorView,
    msg: WorkerMessage,
    id: usize,
    now_ms: u64,
    screen: Seq<char>,
)
    requires
        forall|k: int| 0 <= k < s.prompts.len() ==> (#[trigger] s.prompts[k]).id != id,
        match msg {
            WorkerMessage::OutputChunk { prompt_id, .. } => prompt_id == id,
            WorkerMessage::TurnComplete { prompt_id } => prompt_id == id,
            WorkerMessage::Finished { prompt_id, .. } => prompt_id == id,
            WorkerMessage::SpawnError { prompt_id, .. } => prompt_id == id,
            WorkerMessage::PtyUpdate { prompt_id } => prompt_id == id,
            WorkerMessage::SessionId { prompt_id, .. } => prompt_id == id,
            WorkerMessage::PtyEof { prompt_id } => prompt_id == id,
            WorkerMessage::WorktreeCreated { prompt_id, .. } => prompt_id == id,
        },
    ensures
        applied(s, msg, now_ms, screen).state.prompts == s.prompts,
{
    prompt_at_is_first(s.prompts, id);
}

/// Clients see a prompt as it is: every field, its mode and status by their
/// words, whether it has a terminal, and how long it has run, or ran.
pub proof fn clients_see_the_prompt(s: OrchestratorView, p: PromptView, now_ms: u64)
    ensures
        ({
            let i = info_of(s, p, now_ms);
            &&& i.id == p.id
            &&& i.text == p.text
            &&& i.cwd == p.cwd
            &&& i.output == p.output
            &&& i.error == p.error
            &&& i.worktree == p.worktree
            &&& i.worktree_path == p.worktree_path
            &&& i.session_id == p.session_id
            &&& i.tags == p.tags
            &&& i.queue_rank == p.queue_rank
            &&& i.seen == p.seen
            &&& i.resume == p.resume
            &&& i.uuid == p.uuid
            &&& i.has_pty == s.pty_handles.contains_key(p.id)
            &&& p.mode == PromptMode::Interactive ==> i.mode == "interactive"@
            &&& p.mode == PromptMode::OneShot ==> i.mode == "one-shot"@
            &&& p.status == PromptStatus::Pending ==> i.status == "Pending"@
            &&& p.status == PromptStatus::Running ==> i.status == "Running"@
            &&& p.status == PromptStatus::Idle ==> i.status == "Idle"@
            &&& p.status == PromptStatus::Completed ==> i.status == "Completed"@
            &&& p.status == PromptStatus::Failed ==> i.status == "Failed"@
            &&& p.output is None ==> i.output_len == 0
            &&& p.output matches Some(o) ==> i.output_len == vstd::utf8::encode_utf8(o).len() as usize
            &&& p.started_at_ms is None ==> i.elapsed_ms is None
            &&& p.started_at_ms matches Some(a) ==> (i.elapsed_ms matches Some(e) && (
            p.finished_at_ms matches Some(b) ==> e == (if a <= b {
                b - a
            } else {
                0
            })) && (p.finished_at_ms is None ==> e == (if a <= now_ms {
                now_ms - a
            } else {
                0
            })))
        }),
{
}

/// A prompt that waits for its worktree is not started, nor is a second worktree
/// asked for; the others can be, and nothing else changes. It is held back until
/// the worktree was made or could not be.
pub proof fn prompts_are_held_back_for_their_worktree(
    s: OrchestratorView,
    i: int,
    repo: Seq<char>,
    r: DispatchStep,
    result: Result<String, String>,
    now_ms: u64,
    screen: Seq<char>,
)
    requires
        placed(s, i),
        step_is(r, worktree_awaited(s, i, repo).state),
    ensures
        ({
            let id = s.prompts[i].id;
            let step = worktree_awaited(s, i, repo);
            let msg = WorkerMessage::WorktreeCreated { prompt_id: id, result };
            &&& step.effects.len() == 1
            &&& step.effects[0] == EffectView::CreateWorktree { prompt_id: id, repo }
            &&& step.state == OrchestratorView {
                worktree_creating: step.state.worktree_creating,
                ..s
            }
            &&& forall|k: usize| #[trigger]
                step.state.worktree_creating.contains(k) <==> k == id
                    || s.worktree_creating.contains(k)
            &&& !(r matches DispatchStep::Start { index } && index == i)
            &&& !(r matches DispatchStep::CheckRepo { index, .. } && index == i)
            &&& !applied(step.state, msg, now_ms, screen).state.worktree_creating.contains(id)
        }),
{
    let t = worktree_awaited(s, i, repo).state;
    next_waiting_is_first(t, 0);
}

} // verus!
