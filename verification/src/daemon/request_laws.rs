//! What a client can count on when it asks the daemon for something.

use vstd::prelude::*;

use super::effect::EffectView;
use super::laws::{filters_agree, numbered, store_filters_prompts};
use super::model::{handled, ids_where, info_of, max_rank, prompt_at_is_first, prompt_deleted, swapped, worktrees_left, OrchestratorView};
use super::report_laws::{announced, found_in_its_place, kept_on_file, others_kept, placed, saves};
use super::session::{session_at, session_at_is_first};
use super::worker::WorkerInputView;
use crate::prompt::{PromptMode, PromptStatus, PromptView};
use crate::protocol::{ClientRequest, DaemonEventView, PROTOCOL_VERSION};
use crate::text;

verus! {

/// The one client is told this, and nobody else is told anything.
pub open spec fn answered(es: Seq<EffectView>, session_id: usize, e: DaemonEventView) -> bool {
    es.len() == 1 && es[0] == EffectView::SendTo { session_id, event: e }
}

/// The words for prompts that answer once; every other word stands for those
/// that talk.
pub proof fn modes_go_by_their_words(word: Seq<char>)
    ensures
        crate::prompt::mode_named(word) == PromptMode::OneShot <==> word == "one-shot"@ || word
            == "one_shot"@ || word == "oneshot"@,
        crate::prompt::mode_named(word) == PromptMode::Interactive <==> !(word == "one-shot"@
            || word == "one_shot"@ || word == "oneshot"@),
{
}

// ---------------------------------------------------------------------
// The queue
// ---------------------------------------------------------------------

/// A prompt that is submitted stands behind all others, which stay as they are.
/// It waits, nothing has happened to it, and its text, directory, mode, worktree
/// and tags are those of the request. It is saved and announced, and workers
/// are started if there is room.
pub proof fn submitted_prompt_is_queued(
    s: OrchestratorView,
    req: ClientRequest,
    session_id: usize,
    now_ms: u64,
    uuid: Seq<char>,
)
    requires
        req is SubmitPrompt,
        s.next_id < usize::MAX,
    ensures
        req matches ClientRequest::SubmitPrompt { text, cwd, mode, worktree, tags, .. } && {
            let step = handled(s, req, session_id, now_ms, uuid);
            let t = step.state;
            let p = t.prompts.last();
            &&& t.prompts.len() == s.prompts.len() + 1
            &&& forall|k: int|
                0 <= k < s.prompts.len() ==> (#[trigger] t.prompts[k]) == s.prompts[k]
            &&& p.id == s.next_id
            &&& p.text == text@
            &&& p.cwd == text::text_option(cwd)
            &&& p.mode == crate::prompt::mode_named(mode@)
            &&& p.worktree == worktree
            &&& p.tags == text::texts(tags@)
            &&& nothing_happened(p)
            &&& p.uuid == uuid
            &&& t == OrchestratorView {
                prompts: t.prompts,
                next_id: (s.next_id + 1) as usize,
                ..s
            }
            &&& announced(
                step.effects,
                DaemonEventView::PromptAdded(info_of(s, p, now_ms)),
            )
            &&& step.effects.len() == 2 * saves(s) + 2
            &&& step.effects.contains(EffectView::Dispatch)
            &&& kept_on_file(s, step.effects, p)
            &&& s.prompts_dir is Some ==> step.effects.contains(
                EffectView::Prune { keep: s.max_saved_prompts },
            )
        },
{
    let step = handled(s, req, session_id, now_ms, uuid);
    added_is_told(s, step.effects, step.state.prompts.last(), now_ms);
}

/// A prompt that waits, and that no worker has been at.
pub open spec fn nothing_happened(p: PromptView) -> bool {
    &&& p.status == PromptStatus::Pending
    &&& p.output is None
    &&& p.error is None
    &&& p.worktree_path is None
    &&& p.session_id is None
    &&& !p.seen
    &&& !p.resume
    &&& p.started_at_ms is None
    &&& p.finished_at_ms is None
}

/// The effects of adding a prompt hold what they should.
proof fn added_is_told(s: OrchestratorView, es: Seq<EffectView>, p: PromptView, now_ms: u64)
    requires
        es == super::model::prompt_added(s, p, now_ms).effects.push(EffectView::Dispatch),
    ensures
        announced(es, DaemonEventView::PromptAdded(info_of(s, p, now_ms))),
        es.contains(EffectView::Dispatch),
        kept_on_file(s, es, p),
        s.prompts_dir is Some ==> es.contains(EffectView::Prune { keep: s.max_saved_prompts }),
{
    let n = es.len();
    assert(es[n - 1] == EffectView::Dispatch);
    assert(es[n - 2] == EffectView::Broadcast(
        DaemonEventView::PromptAdded(info_of(s, p, now_ms)),
    ));
    if s.prompts_dir is Some {
        assert(es[0] == EffectView::Save(p));
        assert(es[1] == EffectView::Prune { keep: s.max_saved_prompts });
    }
}

/// A new prompt, submitted or tried again, ranks above every rank there is.
pub proof fn queued_prompt_ranks_last(
    s: OrchestratorView,
    req: ClientRequest,
    session_id: usize,
    now_ms: u64,
    uuid: Seq<char>,
    k: int,
)
    requires
        req is SubmitPrompt || req is RetryPrompt,
        s.next_id < usize::MAX,
        0 <= k < s.prompts.len(),
        handled(s, req, session_id, now_ms, uuid).state.prompts.len() > s.prompts.len(),
    ensures
        ({
            let p = handled(s, req, session_id, now_ms, uuid).state.prompts.last();
            &&& s.prompts[k].queue_rank <= p.queue_rank
            &&& s.prompts[k].queue_rank < p.queue_rank || p.queue_rank == u64::MAX
            &&& p.queue_rank < u64::MAX && p.queue_rank > 1 ==> exists|m: int|
                0 <= m < s.prompts.len() && (#[trigger] s.prompts[m]).queue_rank + 1
                    == p.queue_rank
        }),
{
    ranks_are_bounded(s.prompts);
}

/// The largest rank bounds all ranks, and is zero or one of them.
proof fn ranks_are_bounded(ps: Seq<PromptView>)
    ensures
        forall|k: int| 0 <= k < ps.len() ==> (#[trigger] ps[k]).queue_rank <= max_rank(ps),
        max_rank(ps) == 0 || exists|k: int|
            0 <= k < ps.len() && (#[trigger] ps[k]).queue_rank == max_rank(ps),
    decreases ps.len(),
{
    if ps.len() > 0 {
        let t = ps.drop_last();
        ranks_are_bounded(t);
        assert forall|k: int| 0 <= k < ps.len() implies (#[trigger] ps[k]).queue_rank <= max_rank(
            ps,
        ) by {
            if k < t.len() {
                assert(t[k] == ps[k]);
            }
        }
        if ps.last().queue_rank > max_rank(t) {
            assert(ps[ps.len() - 1].queue_rank == max_rank(ps));
        } else if max_rank(t) != 0 {
            let k = choose|k: int|
                0 <= k < t.len() && (#[trigger] t[k]).queue_rank == max_rank(t);
            assert(ps[k].queue_rank == max_rank(ps));
        }
    }
}

/// Trying a completed or failed prompt again queues a new prompt that asks for
/// the same and leaves the first as it is. Any other prompt is not tried again.
pub proof fn retried_prompt_is_asked_anew(
    s: OrchestratorView,
    i: int,
    session_id: usize,
    now_ms: u64,
    uuid: Seq<char>,
)
    requires
        placed(s, i),
        s.next_id < usize::MAX,
    ensures
        ({
            let req = ClientRequest::RetryPrompt { prompt_id: s.prompts[i].id };
            let step = handled(s, req, session_id, now_ms, uuid);
            let t = step.state;
            let q = s.prompts[i];
            let p = t.prompts.last();
            let over = q.status == PromptStatus::Completed || q.status == PromptStatus::Failed;
            &&& !over ==> t == s && step.effects.len() == 0
            &&& over ==> {
                &&& t.prompts.len() == s.prompts.len() + 1
                &&& forall|k: int|
                    0 <= k < s.prompts.len() ==> (#[trigger] t.prompts[k]) == s.prompts[k]
                &&& nothing_happened(p)
                &&& p.id == s.next_id
                &&& p.text == q.text
                &&& p.cwd == q.cwd
                &&& p.mode == q.mode
                &&& p.worktree == q.worktree
                &&& p.tags == q.tags
                &&& p.uuid == uuid
                &&& t == OrchestratorView {
                    prompts: t.prompts,
                    next_id: (s.next_id + 1) as usize,
                    ..s
                }
                &&& announced(
                    step.effects,
                    DaemonEventView::PromptAdded(info_of(s, p, now_ms)),
                )
                &&& step.effects.len() == 2 * saves(s) + 2
                &&& step.effects.contains(EffectView::Dispatch)
                &&& kept_on_file(s, step.effects, p)
            }
        }),
{
    found_in_its_place(s, i);
    let req = ClientRequest::RetryPrompt { prompt_id: s.prompts[i].id };
    let step = handled(s, req, session_id, now_ms, uuid);
    let q = s.prompts[i];
    if q.status == PromptStatus::Completed || q.status == PromptStatus::Failed {
        added_is_told(s, step.effects, step.state.prompts.last(), now_ms);
    }
}

/// Resuming a completed or failed prompt makes it wait again in its place,
/// without output, error and times, to take up its session. Any other prompt
/// stays as it is.
pub proof fn resumed_prompt_waits_again(
    s: OrchestratorView,
    i: int,
    session_id: usize,
    now_ms: u64,
    uuid: Seq<char>,
)
    requires
        placed(s, i),
    ensures
        ({
            let req = ClientRequest::ResumePrompt { prompt_id: s.prompts[i].id };
            let step = handled(s, req, session_id, now_ms, uuid);
            let q = s.prompts[i];
            let p = step.state.prompts[i];
            let over = q.status == PromptStatus::Completed || q.status == PromptStatus::Failed;
            &&& !over ==> step.state == s && step.effects.len() == 1
            &&& over ==> {
                &&& step.effects.len() == saves(s) + 2
                &&& p == PromptView {
                    status: PromptStatus::Pending,
                    resume: true,
                    output: None,
                    error: None,
                    started_at_ms: None,
                    finished_at_ms: None,
                    seen: false,
                    ..q
                }
                &&& others_kept(s, step.state, i)
                &&& step.state == OrchestratorView { prompts: step.state.prompts, ..s }
                &&& announced(
                    step.effects,
                    DaemonEventView::PromptUpdated(info_of(step.state, p, now_ms)),
                )
                &&& kept_on_file(s, step.effects, p)
            }
            &&& step.effects.contains(EffectView::Dispatch)
        }),
{
    found_in_its_place(s, i);
    let req = ClientRequest::ResumePrompt { prompt_id: s.prompts[i].id };
    let step = handled(s, req, session_id, now_ms, uuid);
    let p = step.state.prompts[i];
    let n = step.effects.len();
    assert(step.effects[n - 1] == EffectView::Dispatch);
    if s.prompts[i].status == PromptStatus::Completed || s.prompts[i].status
        == PromptStatus::Failed {
        assert(step.effects[n - 2] == EffectView::Broadcast(
            DaemonEventView::PromptUpdated(info_of(step.state, p, now_ms)),
        ));
        if s.prompts_dir is Some {
            assert(step.effects[0] == EffectView::Save(p));
        }
    }
}

/// Deleting a prompt takes it, and it alone, out of the queue, with its file.
/// Where a worker was at it, that worker is told to stop, its process is
/// killed, and there is room for another.
pub proof fn deleted_prompt_goes(
    s: OrchestratorView,
    i: int,
    session_id: usize,
    now_ms: u64,
    uuid: Seq<char>,
)
    requires
        placed(s, i),
    ensures
        ({
            let id = s.prompts[i].id;
            let req = ClientRequest::DeletePrompt { prompt_id: id };
            let step = handled(s, req, session_id, now_ms, uuid);
            let t = step.state;
            let busy = s.prompts[i].status == PromptStatus::Running || s.prompts[i].status
                == PromptStatus::Idle;
            &&& t.prompts.len() == s.prompts.len() - 1
            &&& forall|k: int| 0 <= k < i ==> (#[trigger] t.prompts[k]) == s.prompts[k]
            &&& forall|k: int|
                i <= k < t.prompts.len() ==> (#[trigger] t.prompts[k]) == s.prompts[k + 1]
            &&& t.next_id == s.next_id
            &&& announced(step.effects, DaemonEventView::PromptRemoved { prompt_id: id })
            &&& s.prompts_dir is Some ==> step.effects.contains(
                EffectView::DeleteFile { uuid: s.prompts[i].uuid },
            )
            &&& !busy ==> t == OrchestratorView { prompts: t.prompts, ..s } && step.effects.len()
                == saves(s) + 1
            &&& busy ==> {
                &&& step.effects.len() == saves(s) + 1 + (if s.worker_inputs.contains(id) {
                    1int
                } else {
                    0
                }) + (if s.pty_handles.contains_key(id) && s.pty_handles[id] {
                    1int
                } else {
                    0
                })
                &&& t == OrchestratorView {
                    prompts: t.prompts,
                    active_workers: if s.active_workers > 0 {
                        (s.active_workers - 1) as usize
                    } else {
                        0
                    },
                    worker_inputs: s.worker_inputs.remove(id),
                    pty_handles: s.pty_handles.remove(id),
                    ..s
                }
                &&& s.worker_inputs.contains(id) ==> step.effects.contains(
                    EffectView::Input { prompt_id: id, input: WorkerInputView::Kill },
                )
                &&& s.pty_handles.contains_key(id) && s.pty_handles[id] ==> step.effects.contains(
                    EffectView::KillChild { prompt_id: id },
                )
            }
        }),
{
    found_in_its_place(s, i);
    let id = s.prompts[i].id;
    let es = prompt_deleted(s, id).effects;
    let n = es.len();
    assert(es[n - 1] == EffectView::Broadcast(DaemonEventView::PromptRemoved { prompt_id: id }));
    if s.prompts_dir is Some {
        assert(es[n - 2] == EffectView::DeleteFile { uuid: s.prompts[i].uuid });
    }
    if s.prompts[i].status is Running || s.prompts[i].status is Idle {
        let first = s.worker_inputs.contains(id);
        if first {
            assert(es[0] == EffectView::Input { prompt_id: id, input: WorkerInputView::Kill });
        }
        if s.pty_handles.contains_key(id) && s.pty_handles[id] {
            assert(es[if first {
                1
            } else {
                0int
            }] == EffectView::KillChild { prompt_id: id });
        }
    }
}

/// A request about a prompt that is not there changes nothing.
pub proof fn nothing_is_done_to_no_prompt(
    s: OrchestratorView,
    req: ClientRequest,
    id: usize,
    session_id: usize,
    now_ms: u64,
    uuid: Seq<char>,
)
    requires
        forall|k: int| 0 <= k < s.prompts.len() ==> (#[trigger] s.prompts[k]).id != id,
        match req {
            ClientRequest::RetryPrompt { prompt_id } => prompt_id == id,
            ClientRequest::ResumePrompt { prompt_id } => prompt_id == id,
            ClientRequest::DeletePrompt { prompt_id } => prompt_id == id,
            ClientRequest::MovePromptUp { prompt_id } => prompt_id == id,
            ClientRequest::MovePromptDown { prompt_id } => prompt_id == id,
            ClientRequest::SetPromptMode { prompt_id, .. } => prompt_id == id,
            _ => false,
        },
    ensures
        handled(s, req, session_id, now_ms, uuid).state == s,
        handled(s, req, session_id, now_ms, uuid).effects.len() == 0,
{
    prompt_at_is_first(s.prompts, id);
}

/// A prompt that moves up changes places with the one before it; one that moves
/// down, with the one behind it. Each place keeps its rank, and everything else
/// stays. Only a prompt that waits moves, and none past an end.
pub proof fn moved_prompts_change_places(
    s: OrchestratorView,
    i: int,
    up: bool,
    session_id: usize,
    now_ms: u64,
    uuid: Seq<char>,
)
    requires
        placed(s, i),
    ensures
        ({
            let id = s.prompts[i].id;
            let req = if up {
                ClientRequest::MovePromptUp { prompt_id: id }
            } else {
                ClientRequest::MovePromptDown { prompt_id: id }
            };
            let j = if up {
                i - 1
            } else {
                i + 1
            };
            let step = handled(s, req, session_id, now_ms, uuid);
            let t = step.state;
            let moves = s.prompts[i].status == PromptStatus::Pending && 0 <= j < s.prompts.len();
            &&& !moves ==> t == s && step.effects.len() == 0
            &&& moves ==> {
                &&& t.prompts.len() == s.prompts.len()
                &&& t.prompts[j] == PromptView {
                    queue_rank: s.prompts[j].queue_rank,
                    ..s.prompts[i]
                }
                &&& t.prompts[i] == PromptView {
                    queue_rank: s.prompts[i].queue_rank,
                    ..s.prompts[j]
                }
                &&& forall|k: int|
                    0 <= k < s.prompts.len() && k != i && k != j ==> (#[trigger] t.prompts[k])
                        == s.prompts[k]
                &&& t == OrchestratorView { prompts: t.prompts, ..s }
                &&& step.effects.len() == 2 * saves(s) + 2
                &&& announced(
                    step.effects,
                    DaemonEventView::PromptUpdated(info_of(t, t.prompts[i], now_ms)),
                )
                &&& announced(
                    step.effects,
                    DaemonEventView::PromptUpdated(info_of(t, t.prompts[j], now_ms)),
                )
                &&& kept_on_file(s, step.effects, t.prompts[i])
                &&& kept_on_file(s, step.effects, t.prompts[j])
            }
        }),
{
    found_in_its_place(s, i);
    let j = if up {
        i - 1
    } else {
        i + 1
    };
    if 0 <= j < s.prompts.len() && s.prompts[i].status is Pending {
        let step = swapped(s, i, j, now_ms);
        let t = step.state;
        let n = step.effects.len();
        assert(step.effects[n - 2] == EffectView::Broadcast(
            DaemonEventView::PromptUpdated(info_of(t, t.prompts[i], now_ms)),
        ));
        assert(step.effects[n - 1] == EffectView::Broadcast(
            DaemonEventView::PromptUpdated(info_of(t, t.prompts[j], now_ms)),
        ));
        if s.prompts_dir is Some {
            assert(step.effects[0] == EffectView::Save(t.prompts[i]));
            assert(step.effects[1] == EffectView::Save(t.prompts[j]));
        }
    }
}

/// The mode of a prompt that waits is set as asked; one that does not wait
/// keeps its own.
pub proof fn mode_is_set_while_waiting(
    s: OrchestratorView,
    i: int,
    word: String,
    session_id: usize,
    now_ms: u64,
    uuid: Seq<char>,
)
    requires
        placed(s, i),
    ensures
        ({
            let req = ClientRequest::SetPromptMode { prompt_id: s.prompts[i].id, mode: word };
            let step = handled(s, req, session_id, now_ms, uuid);
            let p = step.state.prompts[i];
            &&& s.prompts[i].status != PromptStatus::Pending ==> step.state == s
                && step.effects.len() == 0
            &&& s.prompts[i].status == PromptStatus::Pending ==> {
                &&& step.effects.len() == saves(s) + 1
                &&& p == PromptView { mode: crate::prompt::mode_named(word@), ..s.prompts[i] }
                &&& others_kept(s, step.state, i)
                &&& step.state == OrchestratorView { prompts: step.state.prompts, ..s }
                &&& announced(
                    step.effects,
                    DaemonEventView::PromptUpdated(info_of(step.state, p, now_ms)),
                )
                &&& kept_on_file(s, step.effects, p)
            }
        }),
{
    found_in_its_place(s, i);
    let req = ClientRequest::SetPromptMode { prompt_id: s.prompts[i].id, mode: word };
    let step = handled(s, req, session_id, now_ms, uuid);
    let p = step.state.prompts[i];
    if s.prompts[i].status == PromptStatus::Pending {
        assert(step.effects.last() == EffectView::Broadcast(
            DaemonEventView::PromptUpdated(info_of(step.state, p, now_ms)),
        ));
        if s.prompts_dir is Some {
            assert(step.effects[0] == EffectView::Save(p));
        }
    }
}

// ---------------------------------------------------------------------
// Workers
// ---------------------------------------------------------------------

/// The number of workers is set as asked, but never below one or above twenty;
/// all clients are told, and workers are started if there is room. The default
/// mode is set as asked. Neither changes anything else.
pub proof fn settings_are_set(
    s: OrchestratorView,
    n: usize,
    word: String,
    session_id: usize,
    now_ms: u64,
    uuid: Seq<char>,
)
    ensures
        ({
            let step = handled(s, ClientRequest::SetMaxWorkers(n), session_id, now_ms, uuid);
            let count = step.state.max_workers;
            &&& 1 <= count <= 20
            &&& 1 <= n <= 20 ==> count == n
            &&& n < 1 ==> count == 1
            &&& n > 20 ==> count == 20
            &&& step.state == OrchestratorView { max_workers: count, ..s }
            &&& step.effects.len() == 2
            &&& announced(step.effects, DaemonEventView::MaxWorkersChanged { count })
            &&& step.effects.contains(EffectView::Dispatch)
        }),
        ({
            let req = ClientRequest::SetDefaultMode { mode: word };
            let step = handled(s, req, session_id, now_ms, uuid);
            &&& step.state == OrchestratorView {
                default_mode: crate::prompt::mode_named(word@),
                ..s
            }
            &&& step.effects.len() == 0
        }),
{
    let step = handled(s, ClientRequest::SetMaxWorkers(n), session_id, now_ms, uuid);
    assert(step.effects[0] == EffectView::Broadcast(
        DaemonEventView::MaxWorkersChanged { count: step.state.max_workers },
    ));
    assert(step.effects[1] == EffectView::Dispatch);
}

/// Input for a worker that takes it is sent on with its line ended, and shown,
/// marked as input, in the output of the prompt. For one that takes none, the
/// client alone is told so.
pub proof fn input_is_sent_and_shown(
    s: OrchestratorView,
    i: int,
    words: String,
    session_id: usize,
    now_ms: u64,
    uuid: Seq<char>,
)
    requires
        placed(s, i),
    ensures
        ({
            let id = s.prompts[i].id;
            let req = ClientRequest::SendInput { prompt_id: id, text: words };
            let step = handled(s, req, session_id, now_ms, uuid);
            let shown = "\n\n> "@ + words@ + "\n\n"@;
            let p = step.state.prompts[i];
            &&& s.worker_inputs.contains(id) ==> {
                &&& s.prompts[i].output is None ==> p.output == Some(shown)
                &&& s.prompts[i].output matches Some(o) ==> p.output == Some(o + shown)
                &&& step.effects.len() == 2
                &&& p == PromptView { output: p.output, ..s.prompts[i] }
                &&& others_kept(s, step.state, i)
                &&& step.state == OrchestratorView { prompts: step.state.prompts, ..s }
                &&& announced(
                    step.effects,
                    DaemonEventView::OutputChunk { prompt_id: id, text: shown },
                )
                &&& step.effects.contains(
                    EffectView::Input {
                        prompt_id: id,
                        input: WorkerInputView::SendInput(words@.push('\n')),
                    },
                )
            }
            &&& !s.worker_inputs.contains(id) ==> step.state == s && answered(
                step.effects,
                session_id,
                DaemonEventView::Error {
                    message: "Cannot send input to prompt "@ + text::decimal(id as nat)
                        + ": no input channel (one-shot worker?)"@,
                },
            )
        }),
{
    found_in_its_place(s, i);
    let id = s.prompts[i].id;
    let req = ClientRequest::SendInput { prompt_id: id, text: words };
    let step = handled(s, req, session_id, now_ms, uuid);
    let shown = "\n\n> "@ + words@ + "\n\n"@;
    if s.worker_inputs.contains(id) {
        assert(step.effects[0] == EffectView::Broadcast(
            DaemonEventView::OutputChunk { prompt_id: id, text: shown },
        ));
        assert(step.effects[1] == EffectView::Input {
            prompt_id: id,
            input: WorkerInputView::SendInput(words@.push('\n')),
        });
    }
}

/// Bytes reach a worker that takes input as they are, a new size reaches a
/// terminal that is there, and neither changes anything here.
pub proof fn bytes_and_sizes_are_passed_on(
    s: OrchestratorView,
    id: usize,
    data: Vec<u8>,
    cols: u16,
    rows: u16,
    session_id: usize,
    now_ms: u64,
    uuid: Seq<char>,
)
    ensures
        ({
            let req = ClientRequest::SendBytes { prompt_id: id, data };
            let step = handled(s, req, session_id, now_ms, uuid);
            &&& step.state == s
            &&& s.worker_inputs.contains(id) ==> step.effects.len() == 1 && step.effects[0]
                == EffectView::Input { prompt_id: id, input: WorkerInputView::SendBytes(data@) }
            &&& !s.worker_inputs.contains(id) ==> step.effects.len() == 0
        }),
        ({
            let req = ClientRequest::ResizePty { prompt_id: id, cols, rows };
            let step = handled(s, req, session_id, now_ms, uuid);
            &&& step.state == s
            &&& s.pty_handles.contains_key(id) ==> step.effects.len() == 1 && step.effects[0]
                == EffectView::Resize { prompt_id: id, cols, rows }
            &&& !s.pty_handles.contains_key(id) ==> step.effects.len() == 0
        }),
{
}

/// A worker that is killed is told to stop where it takes input, and its
/// process is killed where it has one. Its terminal is forgotten; the prompt
/// waits for the report of its end.
pub proof fn killed_worker_is_stopped(
    s: OrchestratorView,
    id: usize,
    session_id: usize,
    now_ms: u64,
    uuid: Seq<char>,
)
    ensures
        ({
            let req = ClientRequest::KillWorker { prompt_id: id };
            let step = handled(s, req, session_id, now_ms, uuid);
            let stop = EffectView::Input { prompt_id: id, input: WorkerInputView::Kill };
            let kill = EffectView::KillChild { prompt_id: id };
            let process = s.pty_handles.contains_key(id) && s.pty_handles[id];
            &&& step.state == OrchestratorView { pty_handles: s.pty_handles.remove(id), ..s }
            &&& step.effects.contains(stop) <==> s.worker_inputs.contains(id)
            &&& step.effects.contains(kill) <==> process
            &&& forall|k: int|
                0 <= k < step.effects.len() ==> (#[trigger] step.effects[k]) == stop
                    || step.effects[k] == kill
        }),
{
    let step = handled(s, ClientRequest::KillWorker { prompt_id: id }, session_id, now_ms, uuid);
    let first = s.worker_inputs.contains(id);
    if first {
        assert(step.effects[0] == EffectView::Input {
            prompt_id: id,
            input: WorkerInputView::Kill,
        });
    }
    if s.pty_handles.contains_key(id) && s.pty_handles[id] {
        assert(step.effects[if first {
            1
        } else {
            0int
        }] == EffectView::KillChild { prompt_id: id });
    }
}

// ---------------------------------------------------------------------
// Questions
// ---------------------------------------------------------------------

/// The state is told to the client that asked, and to it alone: every prompt in
/// its place, and the limits. Nothing changes by it.
pub proof fn state_is_told(
    s: OrchestratorView,
    session_id: usize,
    now_ms: u64,
    uuid: Seq<char>,
)
    ensures
        ({
            let step = handled(s, ClientRequest::GetState, session_id, now_ms, uuid);
            let d = super::model::snapshot_of(s, now_ms);
            &&& step.state == s
            &&& answered(step.effects, session_id, DaemonEventView::StateSnapshot(d))
            &&& d.max_workers == s.max_workers
            &&& d.active_workers == s.active_workers
            &&& d.default_mode == (if s.default_mode == PromptMode::Interactive {
                "interactive"@
            } else {
                "one-shot"@
            })
            &&& d.protocol_version == PROTOCOL_VERSION
            &&& d.prompts.len() == s.prompts.len()
            &&& forall|k: int|
                0 <= k < s.prompts.len() ==> (#[trigger] d.prompts[k]) == info_of(
                    s,
                    s.prompts[k],
                    now_ms,
                )
        }),
{
}

/// The list of the store is every prompt in its place, told to the client that
/// asked, and to it alone. Nothing changes by it.
pub proof fn store_is_listed(
    s: OrchestratorView,
    session_id: usize,
    now_ms: u64,
    uuid: Seq<char>,
)
    ensures
        ({
            let step = handled(s, ClientRequest::StoreList, session_id, now_ms, uuid);
            let prompts = super::model::infos_of(s, now_ms);
            &&& step.state == s
            &&& answered(step.effects, session_id, DaemonEventView::StoreListResult { prompts })
            &&& prompts.len() == s.prompts.len()
            &&& forall|k: int|
                0 <= k < s.prompts.len() ==> (#[trigger] prompts[k]) == info_of(
                    s,
                    s.prompts[k],
                    now_ms,
                )
        }),
{
}

/// The directory of the files, a sign of life and the notice of a shutdown are
/// told to the client that asked, and to it alone. Nothing changes by it.
pub proof fn questions_are_answered(
    s: OrchestratorView,
    session_id: usize,
    now_ms: u64,
    uuid: Seq<char>,
)
    ensures
        ({
            let step = handled(s, ClientRequest::StorePath, session_id, now_ms, uuid);
            &&& step.state == s
            &&& s.prompts_dir matches Some(d) ==> answered(
                step.effects,
                session_id,
                DaemonEventView::StorePathResult { path: d },
            )
            &&& s.prompts_dir is None ==> answered(
                step.effects,
                session_id,
                DaemonEventView::StorePathResult { path: Seq::empty() },
            )
        }),
        ({
            let step = handled(s, ClientRequest::Ping, session_id, now_ms, uuid);
            step.state == s && answered(step.effects, session_id, DaemonEventView::Pong)
        }),
        ({
            let step = handled(s, ClientRequest::Shutdown, session_id, now_ms, uuid);
            step.state == s && answered(
                step.effects,
                session_id,
                DaemonEventView::StoreOpComplete { message: "Shutdown initiated"@ },
            )
        }),
{
}

/// The output of a prompt is given back whole; there is none of a prompt that
/// put out nothing, or that is not there.
pub proof fn output_is_given_back(
    s: OrchestratorView,
    i: int,
    id: usize,
    session_id: usize,
    now_ms: u64,
    uuid: Seq<char>,
)
    requires
        placed(s, i),
        forall|k: int| 0 <= k < s.prompts.len() ==> (#[trigger] s.prompts[k]).id != id,
    ensures
        ({
            let its = s.prompts[i].id;
            let req = ClientRequest::GetPromptOutput { prompt_id: its };
            let step = handled(s, req, session_id, now_ms, uuid);
            &&& step.state == s
            &&& s.prompts[i].output matches Some(o) ==> answered(
                step.effects,
                session_id,
                DaemonEventView::PromptOutput { prompt_id: its, full_text: o },
            )
            &&& s.prompts[i].output is None ==> answered(
                step.effects,
                session_id,
                DaemonEventView::PromptOutput { prompt_id: its, full_text: Seq::empty() },
            )
        }),
        ({
            let req = ClientRequest::GetPromptOutput { prompt_id: id };
            let step = handled(s, req, session_id, now_ms, uuid);
            step.state == s && answered(
                step.effects,
                session_id,
                DaemonEventView::PromptOutput { prompt_id: id, full_text: Seq::empty() },
            )
        }),
{
    found_in_its_place(s, i);
    prompt_at_is_first(s.prompts, id);
}

/// A client that subscribes listens from then on, is sent the recent output of
/// every terminal first and then told so; one that unsubscribes listens no
/// more. The other clients go on as before.
pub proof fn subscribing_is_noted(
    s: OrchestratorView,
    j: int,
    on: bool,
    now_ms: u64,
    uuid: Seq<char>,
)
    requires
        0 <= j < s.sessions.len(),
        forall|a: int, b: int|
            0 <= a < b < s.sessions.len() ==> (#[trigger] s.sessions[a]).id != (
            #[trigger] s.sessions[b]).id,
    ensures
        ({
            let id = s.sessions[j].id;
            let req = if on {
                ClientRequest::Subscribe
            } else {
                ClientRequest::Unsubscribe
            };
            let step = handled(s, req, id, now_ms, uuid);
            let t = step.state;
            &&& t.sessions.len() == s.sessions.len()
            &&& t.sessions[j].id == id
            &&& t.sessions[j].subscribed == on
            &&& forall|k: int|
                0 <= k < s.sessions.len() && k != j ==> (#[trigger] t.sessions[k]) == s.sessions[k]
            &&& t == OrchestratorView { sessions: t.sessions, ..s }
            &&& on ==> step.effects.len() == 2 && step.effects[0] == EffectView::ReplayPty {
                session_id: id,
            } && step.effects[1] == EffectView::SendTo {
                session_id: id,
                event: DaemonEventView::Subscribed,
            }
            &&& !on ==> answered(step.effects, id, DaemonEventView::Unsubscribed)
        }),
{
    let id = s.sessions[j].id;
    session_at_is_first(s.sessions, id);
    let k = session_at(s.sessions, id)->0;
    if k < j {
        assert(s.sessions[k].id != s.sessions[j].id);
    }
}

// ---------------------------------------------------------------------
// The store
// ---------------------------------------------------------------------

/// The counts are how many prompts wait, how many have a worker at them, how
/// many completed, and how many failed.
pub proof fn prompts_are_counted(
    s: OrchestratorView,
    session_id: usize,
    now_ms: u64,
    uuid: Seq<char>,
)
    ensures
        ({
            let step = handled(s, ClientRequest::StoreCount, session_id, now_ms, uuid);
            &&& step.state == s
            &&& answered(
                step.effects,
                session_id,
                DaemonEventView::StoreCountResult {
                    pending: s.prompts.filter(
                        |p: PromptView| p.status == PromptStatus::Pending,
                    ).len() as int,
                    running: s.prompts.filter(
                        |p: PromptView|
                            p.status == PromptStatus::Running || p.status == PromptStatus::Idle,
                    ).len() as int,
                    completed: s.prompts.filter(
                        |p: PromptView| p.status == PromptStatus::Completed,
                    ).len() as int,
                    failed: s.prompts.filter(
                        |p: PromptView| p.status == PromptStatus::Failed,
                    ).len() as int,
                },
            )
        }),
{
    let step = handled(s, ClientRequest::StoreCount, session_id, now_ms, uuid);
    selected_are_counted(
        s.prompts,
        |x: PromptStatus| x is Pending,
        |p: PromptView| p.status == PromptStatus::Pending,
    );
    selected_are_counted(
        s.prompts,
        |x: PromptStatus| super::model::at_work(x),
        |p: PromptView| p.status == PromptStatus::Running || p.status == PromptStatus::Idle,
    );
    selected_are_counted(
        s.prompts,
        |x: PromptStatus| x is Completed,
        |p: PromptView| p.status == PromptStatus::Completed,
    );
    selected_are_counted(
        s.prompts,
        |x: PromptStatus| x is Failed,
        |p: PromptView| p.status == PromptStatus::Failed,
    );
}

/// There are as many numbers of prompts as there are prompts selected.
proof fn selected_are_counted(
    ps: Seq<PromptView>,
    f: spec_fn(PromptStatus) -> bool,
    g: spec_fn(PromptView) -> bool,
)
    requires
        forall|p: PromptView| #[trigger] g(p) == f(p.status),
    ensures
        ids_where(ps, f).len() == ps.filter(g).len(),
    decreases ps.len(),
{
    reveal(Seq::filter);
    if ps.len() > 0 {
        selected_are_counted(ps.drop_last(), f, g);
        assert(g(ps.last()) == f(ps.last().status));
    }
}

/// Whether a prompt of this status is meant by the word of a store request.
pub open spec fn meant(word: Seq<char>, status: PromptStatus) -> bool {
    ||| word == "completed"@ && status == PromptStatus::Completed
    ||| word == "failed"@ && status == PromptStatus::Failed
    ||| word == "pending"@ && status == PromptStatus::Pending
    ||| word == "running"@ && (status == PromptStatus::Running || status == PromptStatus::Idle)
}

/// Dropping leaves exactly the prompts that the word does not mean, where `all`
/// means every prompt; keeping leaves exactly those that it means and those
/// that a worker is at. What is left keeps its order, and the client is told
/// how many went.
pub proof fn store_keeps_and_drops(
    s: OrchestratorView,
    word: String,
    session_id: usize,
    now_ms: u64,
    uuid: Seq<char>,
)
    requires
        numbered(s),
    ensures
        ({
            let step = handled(
                s,
                ClientRequest::StoreDrop { filter: word },
                session_id,
                now_ms,
                uuid,
            );
            &&& step.state.prompts == s.prompts.filter(
                |p: PromptView| word@ != "all"@ && !meant(word@, p.status),
            )
            &&& step.effects.last() == EffectView::SendTo {
                session_id,
                event: DaemonEventView::StoreOpComplete {
                    message: "Dropped "@ + text::decimal(
                        s.prompts.filter(
                            |p: PromptView| word@ == "all"@ || meant(word@, p.status),
                        ).len(),
                    ) + " prompts"@,
                },
            }
        }),
        ({
            let step = handled(
                s,
                ClientRequest::StoreKeep { filter: word },
                session_id,
                now_ms,
                uuid,
            );
            &&& step.state.prompts == s.prompts.filter(
                |p: PromptView|
                    meant(word@, p.status) || p.status == PromptStatus::Running || p.status
                        == PromptStatus::Idle,
            )
            &&& step.effects.last() == EffectView::SendTo {
                session_id,
                event: DaemonEventView::StoreOpComplete {
                    message: "Kept matching, dropped "@ + text::decimal(
                        s.prompts.filter(
                            |p: PromptView|
                                !meant(word@, p.status) && p.status != PromptStatus::Running
                                    && p.status != PromptStatus::Idle,
                        ).len(),
                    ) + " prompts"@,
                },
            }
        }),
{
    words_differ();
    store_filters_prompts(s, word, session_id, now_ms, uuid);
    filters_agree(
        s.prompts,
        |p: PromptView| !super::model::dropped(word@, p.status),
        |p: PromptView| word@ != "all"@ && !meant(word@, p.status),
    );
    filters_agree(
        s.prompts,
        |p: PromptView| super::model::selects(word@, p.status) || super::model::at_work(p.status),
        |p: PromptView|
            meant(word@, p.status) || p.status == PromptStatus::Running || p.status
                == PromptStatus::Idle,
    );
    selected_are_counted(
        s.prompts,
        |x: PromptStatus| super::model::dropped(word@, x),
        |p: PromptView| word@ == "all"@ || meant(word@, p.status),
    );
    selected_are_counted(
        s.prompts,
        |x: PromptStatus| super::model::not_kept(word@, x),
        |p: PromptView|
            !meant(word@, p.status) && p.status != PromptStatus::Running && p.status
                != PromptStatus::Idle,
    );
}

/// The words of store requests are different words.
proof fn words_differ()
    ensures
        "completed"@ != "failed"@,
        "completed"@ != "pending"@,
        "completed"@ != "running"@,
        "failed"@ != "pending"@,
        "failed"@ != "running"@,
        "pending"@ != "running"@,
{
    reveal_strlit("completed");
    reveal_strlit("failed");
    reveal_strlit("pending");
    reveal_strlit("running");
    assert("completed"@[0] == 'c');
    assert("failed"@[0] == 'f');
    assert("pending"@[0] == 'p');
    assert("running"@[0] == 'r');
}

/// The worktrees that are cleaned up are those of completed and failed prompts,
/// and no others; nothing is forgotten before they are gone.
pub proof fn only_finished_worktrees_are_cleaned(
    s: OrchestratorView,
    session_id: usize,
    now_ms: u64,
    uuid: Seq<char>,
)
    ensures
        ({
            let step = handled(s, ClientRequest::CleanWorktrees, session_id, now_ms, uuid);
            &&& step.state == s
            &&& step.effects.len() == 1
            &&& step.effects[0] matches EffectView::CleanWorktrees { session_id: to, paths } && to
                == session_id && forall|path: Seq<char>| #[trigger]
                paths.contains(path) <==> exists|k: int|
                    0 <= k < s.prompts.len() && (#[trigger] s.prompts[k]).worktree_path == Some(
                        path,
                    ) && (s.prompts[k].status == PromptStatus::Completed || s.prompts[k].status
                        == PromptStatus::Failed)
        }),
{
    worktrees_left_are(s.prompts);
}

/// The worktrees that are left are those of the prompts at their end.
proof fn worktrees_left_are(ps: Seq<PromptView>)
    ensures
        forall|path: Seq<char>| #[trigger]
            worktrees_left(ps).contains(path) <==> exists|k: int|
                0 <= k < ps.len() && (#[trigger] ps[k]).worktree_path == Some(path) && (ps[k].status
                    == PromptStatus::Completed || ps[k].status == PromptStatus::Failed),
    decreases ps.len(),
{
    if ps.len() > 0 {
        let t = ps.drop_last();
        let before = worktrees_left(t);
        let all = worktrees_left(ps);
        worktrees_left_are(t);
        assert forall|path: Seq<char>| #[trigger] all.contains(path) <==> exists|k: int|
            0 <= k < ps.len() && (#[trigger] ps[k]).worktree_path == Some(path) && (ps[k].status
                == PromptStatus::Completed || ps[k].status == PromptStatus::Failed) by {
            if all.contains(path) {
                let m = all.index_of(path);
                if m < before.len() {
                    assert(before[m] == path);
                    assert(before.contains(path));
                    let k = choose|k: int|
                        0 <= k < t.len() && (#[trigger] t[k]).worktree_path == Some(path) && (
                        t[k].status == PromptStatus::Completed || t[k].status
                            == PromptStatus::Failed);
                    assert(ps[k] == t[k]);
                } else {
                    assert(ps[ps.len() - 1].worktree_path == Some(path));
                }
            }
            if exists|k: int|
                0 <= k < ps.len() && (#[trigger] ps[k]).worktree_path == Some(path) && (ps[k].status
                    == PromptStatus::Completed || ps[k].status == PromptStatus::Failed) {
                let k = choose|k: int|
                    0 <= k < ps.len() && (#[trigger] ps[k]).worktree_path == Some(path) && (
                    ps[k].status == PromptStatus::Completed || ps[k].status
                        == PromptStatus::Failed);
                if k < t.len() {
                    assert(t[k] == ps[k]);
                    assert(before.contains(path));
                    let m = before.index_of(path);
                    assert(all[m] == path);
                } else {
                    assert(all.last() == path);
                }
            }
        }
    }
}

} // verus!
