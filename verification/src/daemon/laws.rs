//! What holds of the daemon whatever it is asked and whatever its workers
//! report.

use vstd::prelude::*;

use super::effect::EffectView;
use super::model::{about_prompt, about_session, about_store, about_worker, applied, at_end, at_work, count_where, dropped, handled, ids_where, max_rank, moved_down, moved_up, not_kept, prompt_added, prompt_at, prompt_at_is_first, prompt_deleted, prompts_deleted, queued_prompt, resumed, selects, spawn_outcome, swapped, with_prompt, worker_started, worktree_cleaned, OrchestratorView};
use super::restore::{restored, started, SavedPrompt};
use super::worker::{SpawnResult, WorkerMessage};
use crate::keymap::TomlSettings;
use crate::prompt::{PromptMode, PromptStatus, PromptView};
use crate::protocol::ClientRequest;

verus! {

/// No two prompts have the same number, and none has a number that is yet to
/// be given out.
pub open spec fn numbered(s: OrchestratorView) -> bool {
    &&& forall|i: int, j: int|
        0 <= i < j < s.prompts.len() ==> (#[trigger] s.prompts[i]).id != (#[trigger] s.prompts[j]).id
    &&& forall|i: int| 0 <= i < s.prompts.len() ==> (#[trigger] s.prompts[i]).id < s.next_id
}

/// The number of workers is one that a client may set.
pub open spec fn limited(s: OrchestratorView) -> bool {
    1 <= s.max_workers <= 20
}

/// Prompts with the same numbers in the same places are as well numbered.
proof fn same_numbers(s: OrchestratorView, t: OrchestratorView)
    requires
        numbered(s),
        t.next_id >= s.next_id,
        t.prompts.len() == s.prompts.len(),
        forall|i: int| 0 <= i < s.prompts.len() ==> (#[trigger] t.prompts[i]).id == s.prompts[i].id,
    ensures
        numbered(t),
{
    assert forall|i: int, j: int| 0 <= i < j < t.prompts.len() implies (#[trigger] t.prompts[i]).id
        != (#[trigger] t.prompts[j]).id by {
        assert(t.prompts[i].id == s.prompts[i].id);
        assert(t.prompts[j].id == s.prompts[j].id);
        assert(s.prompts[i].id != s.prompts[j].id);
    }
    assert forall|i: int| 0 <= i < t.prompts.len() implies (#[trigger] t.prompts[i]).id
        < t.next_id by {
        assert(s.prompts[i].id < s.next_id);
    }
}

/// A new prompt takes the next number.
proof fn added_prompt_keeps_numbers(s: OrchestratorView, p: PromptView, now_ms: u64)
    requires
        numbered(s),
        s.next_id < usize::MAX,
        p.id == s.next_id,
    ensures
        numbered(prompt_added(s, p, now_ms).state),
        prompt_added(s, p, now_ms).state.next_id == s.next_id + 1,
{
    let t = prompt_added(s, p, now_ms).state;
    assert(t.prompts == s.prompts.push(p));
    assert forall|i: int, j: int| 0 <= i < j < t.prompts.len() implies (#[trigger] t.prompts[i]).id
        != (#[trigger] t.prompts[j]).id by {
        assert(t.prompts[i] == s.prompts[i]);
        if j < s.prompts.len() {
            assert(t.prompts[j] == s.prompts[j]);
        }
    }
    assert forall|i: int| 0 <= i < t.prompts.len() implies (#[trigger] t.prompts[i]).id
        < t.next_id by {
        if i < s.prompts.len() {
            assert(t.prompts[i] == s.prompts[i]);
        }
    }
}

/// Deleting a prompt leaves the others in their order.
proof fn deleted_prompt_is_gone(s: OrchestratorView, id: usize)
    requires
        numbered(s),
    ensures
        numbered(prompt_deleted(s, id).state),
        prompt_deleted(s, id).state.next_id == s.next_id,
        prompt_deleted(s, id).state.max_workers == s.max_workers,
        prompt_deleted(s, id).state.active_workers <= s.active_workers,
        prompt_deleted(s, id).state.prompts_dir == s.prompts_dir,
        prompt_deleted(s, id).state.prompts == s.prompts.filter(|p: PromptView| p.id != id),
{
    let t = prompt_deleted(s, id).state;
    prompt_at_is_first(s.prompts, id);
    match prompt_at(s.prompts, id) {
        None => {
            filter_of_all(s.prompts, |p: PromptView| p.id != id);
        },
        Some(i) => {
            assert(t.prompts == s.prompts.remove(i));
            assert forall|j: int| 0 <= j < t.prompts.len() implies (#[trigger] t.prompts[j])
                == s.prompts[if j < i {
                j
            } else {
                j + 1
            }] by {}
            assert forall|j: int, k: int|
                0 <= j < k < t.prompts.len() implies (#[trigger] t.prompts[j]).id != (
            #[trigger] t.prompts[k]).id by {
                let j1 = if j < i {
                    j
                } else {
                    j + 1
                };
                let k1 = if k < i {
                    k
                } else {
                    k + 1
                };
                assert(s.prompts[j1].id != s.prompts[k1].id);
            }
            assert forall|j: int| 0 <= j < s.prompts.len() && j != i implies (
            #[trigger] s.prompts[j]).id != id by {
                if j < i {
                    assert(s.prompts[j].id != s.prompts[i].id);
                } else {
                    assert(s.prompts[i].id != s.prompts[j].id);
                }
            }
            filter_of_all_but_one(s.prompts, i, |p: PromptView| p.id != id);
        },
    }
}

/// Filtering by what holds of everything changes nothing.
proof fn filter_of_all(ps: Seq<PromptView>, f: spec_fn(PromptView) -> bool)
    requires
        forall|j: int| 0 <= j < ps.len() ==> f(#[trigger] ps[j]),
    ensures
        ps.filter(f) == ps,
    decreases ps.len(),
{
    reveal(Seq::filter);
    if ps.len() > 0 {
        let t = ps.drop_last();
        assert forall|j: int| 0 <= j < t.len() implies f(#[trigger] t[j]) by {
            assert(t[j] == ps[j]);
        }
        filter_of_all(t, f);
        assert(f(ps[ps.len() - 1]));
        assert(t.push(ps.last()) =~= ps);
    }
}

/// Filtering by what holds of everything but one removes that one.
proof fn filter_of_all_but_one(ps: Seq<PromptView>, i: int, f: spec_fn(PromptView) -> bool)
    requires
        0 <= i < ps.len(),
        !f(ps[i]),
        forall|j: int| 0 <= j < ps.len() && j != i ==> f(#[trigger] ps[j]),
    ensures
        ps.filter(f) == ps.remove(i),
    decreases ps.len(),
{
    reveal(Seq::filter);
    let t = ps.drop_last();
    assert forall|j: int| 0 <= j < t.len() && j != i implies f(#[trigger] t[j]) by {
        assert(t[j] == ps[j]);
    }
    if i == ps.len() - 1 {
        filter_of_all(t, f);
        assert(ps.remove(i) =~= t);
    } else {
        filter_of_all_but_one(t, i, f);
        assert(f(ps[ps.len() - 1]));
        assert(t.remove(i).push(ps.last()) =~= ps.remove(i));
    }
}

/// Filtering twice is filtering by both.
proof fn filter_of_filter(
    ps: Seq<PromptView>,
    f: spec_fn(PromptView) -> bool,
    g: spec_fn(PromptView) -> bool,
    h: spec_fn(PromptView) -> bool,
)
    requires
        forall|j: int| #![trigger ps[j]] 0 <= j < ps.len() ==> h(ps[j]) == (f(ps[j]) && g(ps[j])),
    ensures
        ps.filter(f).filter(g) == ps.filter(h),
    decreases ps.len(),
{
    reveal(Seq::filter);
    if ps.len() > 0 {
        let t = ps.drop_last();
        assert forall|j: int| #![trigger t[j]] 0 <= j < t.len() implies h(t[j]) == (f(t[j])
            && g(t[j])) by {
            assert(t[j] == ps[j]);
        }
        filter_of_filter(t, f, g, h);
        assert(h(ps[ps.len() - 1]) == (f(ps[ps.len() - 1]) && g(ps[ps.len() - 1])));
        if f(ps.last()) {
            assert(t.filter(f).push(ps.last()).drop_last() =~= t.filter(f));
        }
    }
}

/// Deleting prompts one after the other leaves the others in their order.
proof fn deleted_prompts_are_gone(s: OrchestratorView, ids: Seq<usize>)
    requires
        numbered(s),
    ensures
        numbered(prompts_deleted(s, ids).state),
        prompts_deleted(s, ids).state.next_id == s.next_id,
        prompts_deleted(s, ids).state.max_workers == s.max_workers,
        prompts_deleted(s, ids).state.active_workers <= s.active_workers,
        prompts_deleted(s, ids).state.prompts_dir == s.prompts_dir,
        prompts_deleted(s, ids).state.prompts == s.prompts.filter(
            |p: PromptView| !ids.contains(p.id),
        ),
    decreases ids.len(),
{
    let h = |p: PromptView| !ids.contains(p.id);
    if ids.len() == 0 {
        filter_of_all(s.prompts, h);
    } else {
        let front = ids.drop_last();
        let b = prompts_deleted(s, front).state;
        let f = |p: PromptView| !front.contains(p.id);
        let g = |p: PromptView| p.id != ids.last();
        deleted_prompts_are_gone(s, front);
        deleted_prompt_is_gone(b, ids.last());
        assert forall|j: int| #![trigger s.prompts[j]] 0 <= j < s.prompts.len() implies h(
            s.prompts[j],
        ) == (f(s.prompts[j]) && g(s.prompts[j])) by {
            let id = s.prompts[j].id;
            if ids.contains(id) {
                let k = choose|k: int| 0 <= k < ids.len() && ids[k] == id;
                if k < ids.len() - 1 {
                    assert(front[k] == id);
                }
            }
            if front.contains(id) {
                let k = choose|k: int| 0 <= k < front.len() && front[k] == id;
                assert(ids[k] == id);
            }
            assert(ids[ids.len() - 1] == ids.last());
        }
        filter_of_filter(s.prompts, f, g, h);
    }
}

/// The numbers of the prompts that a word selects are those of no others.
proof fn ids_where_are_theirs(ps: Seq<PromptView>, f: spec_fn(PromptStatus) -> bool)
    ensures
        forall|id: usize|
            #![trigger ids_where(ps, f).contains(id)]
            ids_where(ps, f).contains(id) <==> exists|j: int|
                0 <= j < ps.len() && (#[trigger] ps[j]).id == id && f(ps[j].status),
        ids_where(ps, f).len() <= ps.len(),
    decreases ps.len(),
{
    if ps.len() > 0 {
        let t = ps.drop_last();
        let before = ids_where(t, f);
        let all = ids_where(ps, f);
        ids_where_are_theirs(t, f);
        assert forall|id: usize| #![trigger all.contains(id)] all.contains(id) <==> exists|j: int|
            0 <= j < ps.len() && (#[trigger] ps[j]).id == id && f(ps[j].status) by {
            if all.contains(id) {
                let k = choose|k: int| 0 <= k < all.len() && all[k] == id;
                if k < before.len() {
                    assert(before[k] == id);
                    assert(before.contains(id));
                    let j = choose|j: int|
                        0 <= j < t.len() && (#[trigger] t[j]).id == id && f(t[j].status);
                    assert(ps[j] == t[j]);
                } else {
                    assert(ps[ps.len() - 1].id == id);
                }
            }
            if exists|j: int| 0 <= j < ps.len() && (#[trigger] ps[j]).id == id && f(ps[j].status) {
                let j = choose|j: int|
                    0 <= j < ps.len() && (#[trigger] ps[j]).id == id && f(ps[j].status);
                if j < t.len() {
                    assert(t[j] == ps[j]);
                    assert(before.contains(id));
                    let k = choose|k: int| 0 <= k < before.len() && before[k] == id;
                    assert(all[k] == id);
                } else {
                    assert(all.last() == id);
                }
            }
        }
    }
}

// ---------------------------------------------------------------------
// Numbers
// ---------------------------------------------------------------------

/// A daemon that just started has its prompts numbered and may run workers.
pub proof fn start_is_sound(
    settings: TomlSettings,
    dir: Option<Seq<char>>,
    saved: Seq<SavedPrompt>,
)
    requires
        saved.len() < usize::MAX,
    ensures
        numbered(started(settings, dir, saved)),
        limited(started(settings, dir, saved)),
{
    let s = started(settings, dir, saved);
    assert forall|i: int| 0 <= i < s.prompts.len() implies (#[trigger] s.prompts[i]).id == i + 1 by {
        assert(s.prompts[i] == restored(saved[i], (i + 1) as usize));
    }
}

/// Whatever a client asks, no two prompts come to have the same number, no
/// number is given out twice, and the number of workers stays in its range.
pub proof fn request_keeps_numbers(
    s: OrchestratorView,
    req: ClientRequest,
    session_id: usize,
    now_ms: u64,
    uuid: Seq<char>,
)
    requires
        numbered(s),
        limited(s),
        (req is SubmitPrompt || req is RetryPrompt) ==> s.next_id < usize::MAX,
    ensures
        numbered(handled(s, req, session_id, now_ms, uuid).state),
        limited(handled(s, req, session_id, now_ms, uuid).state),
        s.next_id <= handled(s, req, session_id, now_ms, uuid).state.next_id,
{
    let t = handled(s, req, session_id, now_ms, uuid).state;
    match req {
        ClientRequest::SubmitPrompt { text, cwd, mode, worktree, tags, .. } => {
            let p = t.prompts.last();
            added_prompt_keeps_numbers(s, p, now_ms);
        },
        ClientRequest::RetryPrompt { prompt_id } => {
            prompt_at_is_first(s.prompts, prompt_id);
            if t.prompts.len() > s.prompts.len() {
                let p = t.prompts.last();
                added_prompt_keeps_numbers(s, p, now_ms);
            }
        },
        ClientRequest::SendInput { prompt_id, .. } => {
            prompt_at_is_first(s.prompts, prompt_id);
            same_numbers(s, t);
        },
        ClientRequest::ResumePrompt { prompt_id } => {
            prompt_at_is_first(s.prompts, prompt_id);
            same_numbers(s, t);
        },
        ClientRequest::SetPromptMode { prompt_id, .. } => {
            prompt_at_is_first(s.prompts, prompt_id);
            same_numbers(s, t);
        },
        ClientRequest::DeletePrompt { prompt_id } => {
            deleted_prompt_is_gone(s, prompt_id);
        },
        ClientRequest::MovePromptUp { prompt_id } => {
            prompt_at_is_first(s.prompts, prompt_id);
            if prompt_at(s.prompts, prompt_id) is Some {
                moving_keeps_numbers(s, prompt_at(s.prompts, prompt_id)->0, now_ms);
            }
        },
        ClientRequest::MovePromptDown { prompt_id } => {
            prompt_at_is_first(s.prompts, prompt_id);
            if prompt_at(s.prompts, prompt_id) is Some {
                moving_keeps_numbers(s, prompt_at(s.prompts, prompt_id)->0, now_ms);
            }
        },
        ClientRequest::StoreDrop { filter } => {
            deleted_prompts_are_gone(
                s,
                ids_where(s.prompts, |x: PromptStatus| dropped(filter@, x)),
            );
        },
        ClientRequest::StoreKeep { filter } => {
            deleted_prompts_are_gone(
                s,
                ids_where(s.prompts, |x: PromptStatus| not_kept(filter@, x)),
            );
        },
        _ => {
            assert(t.prompts == s.prompts);
        },
    }
}

/// Prompts that change places keep their numbers.
proof fn moving_keeps_numbers(s: OrchestratorView, i: int, now_ms: u64)
    requires
        numbered(s),
        0 <= i < s.prompts.len(),
    ensures
        numbered(moved_up(s, i, now_ms).state),
        numbered(moved_down(s, i, now_ms).state),
{
    if i > 0 {
        swapping_keeps_numbers(s, i, i - 1, now_ms);
    }
    if i < s.prompts.len() - 1 {
        swapping_keeps_numbers(s, i, i + 1, now_ms);
    }
}

/// Prompts that change places keep their numbers.
proof fn swapping_keeps_numbers(s: OrchestratorView, i: int, j: int, now_ms: u64)
    requires
        numbered(s),
        0 <= i < s.prompts.len(),
        0 <= j < s.prompts.len(),
        i != j,
    ensures
        numbered(swapped(s, i, j, now_ms).state),
{
    let t = swapped(s, i, j, now_ms).state;
    let from = |k: int|
        if k == i {
            j
        } else if k == j {
            i
        } else {
            k
        };
    assert forall|k: int| 0 <= k < t.prompts.len() implies (#[trigger] t.prompts[k]).id
        == s.prompts[from(k)].id by {}
    assert forall|k: int, m: int| 0 <= k < m < t.prompts.len() implies (#[trigger] t.prompts[k]).id
        != (#[trigger] t.prompts[m]).id by {
        let a = from(k);
        let b = from(m);
        if a < b {
            assert(s.prompts[a].id != s.prompts[b].id);
        } else {
            assert(s.prompts[b].id != s.prompts[a].id);
        }
    }
}

/// Whatever a worker reports, no two prompts come to have the same number, and
/// no worker is counted that was not started.
pub proof fn message_keeps_numbers(
    s: OrchestratorView,
    msg: WorkerMessage,
    now_ms: u64,
    screen: Seq<char>,
)
    requires
        numbered(s),
        limited(s),
    ensures
        numbered(applied(s, msg, now_ms, screen).state),
        limited(applied(s, msg, now_ms, screen).state),
        applied(s, msg, now_ms, screen).state.next_id == s.next_id,
        applied(s, msg, now_ms, screen).state.active_workers <= s.active_workers,
{
    let t = applied(s, msg, now_ms, screen).state;
    let id = match msg {
        WorkerMessage::OutputChunk { prompt_id, .. } => prompt_id,
        WorkerMessage::TurnComplete { prompt_id } => prompt_id,
        WorkerMessage::Finished { prompt_id, .. } => prompt_id,
        WorkerMessage::SpawnError { prompt_id, .. } => prompt_id,
        WorkerMessage::PtyUpdate { prompt_id } => prompt_id,
        WorkerMessage::SessionId { prompt_id, .. } => prompt_id,
        WorkerMessage::PtyEof { prompt_id } => prompt_id,
        WorkerMessage::WorktreeCreated { prompt_id, .. } => prompt_id,
    };
    prompt_at_is_first(s.prompts, id);
    match msg {
        WorkerMessage::Finished { .. } | WorkerMessage::SpawnError { .. } => {
            if prompt_at(s.prompts, id) is Some {
                let i = prompt_at(s.prompts, id)->0;
                assert forall|p: PromptView|
                    p.id == s.prompts[i].id implies #[trigger] worktree_cleaned(
                    with_prompt(s, i, p),
                    id,
                ).state.prompts.len() == s.prompts.len() && forall|k: int|
                    0 <= k < s.prompts.len() ==> (#[trigger] worktree_cleaned(
                        with_prompt(s, i, p),
                        id,
                    ).state.prompts[k]).id == s.prompts[k].id by {
                    prompt_at_is_first(with_prompt(s, i, p).prompts, id);
                }
            }
            same_numbers(s, t);
        },
        _ => {
            same_numbers(s, t);
        },
    }
}

/// Starting a worker, and what comes of it, changes no number.
pub proof fn spawning_keeps_numbers(
    s: OrchestratorView,
    i: int,
    id: usize,
    result: SpawnResult,
    now_ms: u64,
)
    requires
        numbered(s),
        0 <= i < s.prompts.len(),
    ensures
        numbered(worker_started(s, i, now_ms).state),
        numbered(spawn_outcome(s, id, result, now_ms).state),
{
    prompt_at_is_first(s.prompts, id);
    same_numbers(s, worker_started(s, i, now_ms).state);
    same_numbers(s, spawn_outcome(s, id, result, now_ms).state);
}

// ---------------------------------------------------------------------
// Workers
// ---------------------------------------------------------------------

/// A worker that is started where there is room leaves the limit kept, and
/// nothing that a client asks adds a worker.
pub proof fn only_starting_adds_a_worker(
    s: OrchestratorView,
    i: int,
    req: ClientRequest,
    session_id: usize,
    now_ms: u64,
    uuid: Seq<char>,
)
    requires
        numbered(s),
    ensures
        s.active_workers < s.max_workers ==> worker_started(s, i, now_ms).state.active_workers
            == s.active_workers + 1 && worker_started(s, i, now_ms).state.active_workers
            <= worker_started(s, i, now_ms).state.max_workers,
        handled(s, req, session_id, now_ms, uuid).state.active_workers <= s.active_workers,
{
    match req {
        ClientRequest::DeletePrompt { prompt_id } => {
            deleted_prompt_is_gone(s, prompt_id);
        },
        ClientRequest::StoreDrop { filter } => {
            deleted_prompts_are_gone(
                s,
                ids_where(s.prompts, |x: PromptStatus| dropped(filter@, x)),
            );
        },
        ClientRequest::StoreKeep { filter } => {
            deleted_prompts_are_gone(
                s,
                ids_where(s.prompts, |x: PromptStatus| not_kept(filter@, x)),
            );
        },
        _ => {},
    }
}

/// A worker that has finished, or that did not start, takes no more input and
/// has no terminal.
pub proof fn gone_worker_leaves_nothing(
    s: OrchestratorView,
    msg: WorkerMessage,
    now_ms: u64,
    screen: Seq<char>,
)
    ensures
        ({
            let t = applied(s, msg, now_ms, screen).state;
            let gone = |id: usize| !t.worker_inputs.contains(id) && !t.pty_handles.contains_key(id);
            &&& msg matches WorkerMessage::Finished { prompt_id, .. } ==> gone(prompt_id)
            &&& msg matches WorkerMessage::SpawnError { prompt_id, .. } ==> gone(prompt_id)
        }),
{
}

/// A deleted prompt is in the queue no more, and if a worker was at work on it,
/// that worker takes no more input and has no terminal.
pub proof fn deleting_deletes(s: OrchestratorView, id: usize)
    requires
        numbered(s),
    ensures
        forall|j: int|
            0 <= j < prompt_deleted(s, id).state.prompts.len() ==> (#[trigger] prompt_deleted(
                s,
                id,
            ).state.prompts[j]).id != id,
        (exists|i: int|
            0 <= i < s.prompts.len() && (#[trigger] s.prompts[i]).id == id && at_work(
                s.prompts[i].status,
            )) ==> !prompt_deleted(s, id).state.worker_inputs.contains(id) && !prompt_deleted(
            s,
            id,
        ).state.pty_handles.contains_key(id),
{
    prompt_at_is_first(s.prompts, id);
    let t = prompt_deleted(s, id).state;
    if exists|i: int|
        0 <= i < s.prompts.len() && (#[trigger] s.prompts[i]).id == id && at_work(
            s.prompts[i].status,
        ) {
        let i = choose|i: int|
            0 <= i < s.prompts.len() && (#[trigger] s.prompts[i]).id == id && at_work(
                s.prompts[i].status,
            );
        let k = prompt_at(s.prompts, id)->0;
        if k < i {
            assert(s.prompts[k].id != s.prompts[i].id);
        }
    }
    if prompt_at(s.prompts, id) is Some {
        let k = prompt_at(s.prompts, id)->0;
        assert forall|j: int| 0 <= j < t.prompts.len() implies (#[trigger] t.prompts[j]).id
            != id by {
            if j < k {
                assert(t.prompts[j] == s.prompts[j]);
            } else {
                assert(t.prompts[j] == s.prompts[j + 1]);
                assert(s.prompts[k].id != s.prompts[j + 1].id);
            }
        }
    }
}

// ---------------------------------------------------------------------
// The queue
// ---------------------------------------------------------------------

/// Dropping by a word leaves exactly the prompts that it does not select, in
/// their order; keeping by a word leaves exactly those that it selects and
/// those that a worker is at work on.
pub proof fn store_filters_prompts(
    s: OrchestratorView,
    word: String,
    session_id: usize,
    now_ms: u64,
    uuid: Seq<char>,
)
    requires
        numbered(s),
    ensures
        handled(s, ClientRequest::StoreDrop { filter: word }, session_id, now_ms, uuid).state.prompts
            == s.prompts.filter(|p: PromptView| !dropped(word@, p.status)),
        handled(s, ClientRequest::StoreKeep { filter: word }, session_id, now_ms, uuid).state.prompts
            == s.prompts.filter(|p: PromptView| selects(word@, p.status) || at_work(p.status)),
{
    let d = |x: PromptStatus| dropped(word@, x);
    let k = |x: PromptStatus| not_kept(word@, x);
    deleting_filters(s, d, |p: PromptView| !dropped(word@, p.status));
    deleting_filters(s, k, |p: PromptView| selects(word@, p.status) || at_work(p.status));
}

/// Deleting the prompts that `f` holds of leaves those that it does not hold
/// of.
proof fn deleting_filters(
    s: OrchestratorView,
    f: spec_fn(PromptStatus) -> bool,
    keep: spec_fn(PromptView) -> bool,
)
    requires
        numbered(s),
        forall|p: PromptView| #[trigger] keep(p) == !f(p.status),
    ensures
        prompts_deleted(s, ids_where(s.prompts, f)).state.prompts == s.prompts.filter(keep),
{
    let ids = ids_where(s.prompts, f);
    let other = |p: PromptView| !ids.contains(p.id);
    deleted_prompts_are_gone(s, ids);
    ids_where_are_theirs(s.prompts, f);
    assert forall|j: int| 0 <= j < s.prompts.len() implies other(#[trigger] s.prompts[j]) == keep(
        s.prompts[j],
    ) by {
        let id = s.prompts[j].id;
        if ids.contains(id) {
            let k = choose|k: int|
                0 <= k < s.prompts.len() && (#[trigger] s.prompts[k]).id == id && f(
                    s.prompts[k].status,
                );
            if k < j {
                assert(s.prompts[k].id != s.prompts[j].id);
            } else if j < k {
                assert(s.prompts[j].id != s.prompts[k].id);
            }
        }
    }
    filters_agree(s.prompts, other, keep);
}

/// Two filters that agree on every element give the same.
pub proof fn filters_agree(
    ps: Seq<PromptView>,
    f: spec_fn(PromptView) -> bool,
    g: spec_fn(PromptView) -> bool,
)
    requires
        forall|j: int| 0 <= j < ps.len() ==> f(#[trigger] ps[j]) == g(ps[j]),
    ensures
        ps.filter(f) == ps.filter(g),
    decreases ps.len(),
{
    reveal(Seq::filter);
    if ps.len() > 0 {
        let t = ps.drop_last();
        assert forall|j: int| 0 <= j < t.len() implies f(#[trigger] t[j]) == g(t[j]) by {
            assert(t[j] == ps[j]);
        }
        filters_agree(t, f, g);
        assert(f(ps[ps.len() - 1]) == g(ps[ps.len() - 1]));
    }
}

/// The counts of the store add up to the number of prompts.
pub proof fn counts_add_up(ps: Seq<PromptView>)
    ensures
        count_where(ps, |x: PromptStatus| x is Pending) + count_where(
            ps,
            |x: PromptStatus| at_work(x),
        ) + count_where(ps, |x: PromptStatus| x is Completed) + count_where(
            ps,
            |x: PromptStatus| x is Failed,
        ) == ps.len(),
    decreases ps.len(),
{
    if ps.len() > 0 {
        counts_add_up(ps.drop_last());
    }
}

/// A prompt that moves up and then down again leaves the queue as it was.
pub proof fn up_and_down_again(s: OrchestratorView, i: int, now_ms: u64)
    requires
        0 < i < s.prompts.len(),
        s.prompts[i].status is Pending,
    ensures
        moved_down(moved_up(s, i, now_ms).state, i - 1, now_ms).state == s,
        forall|k: int|
            0 <= k < s.prompts.len() ==> (#[trigger] moved_up(
                s,
                i,
                now_ms,
            ).state.prompts[k]).queue_rank == s.prompts[k].queue_rank,
{
    let u = moved_up(s, i, now_ms).state;
    let d = moved_down(u, i - 1, now_ms).state;
    assert(d.prompts =~= s.prompts);
}

/// A new prompt ranks behind every prompt that there is.
pub proof fn new_prompt_ranks_last(
    s: OrchestratorView,
    words: Seq<char>,
    cwd: Option<Seq<char>>,
    mode: PromptMode,
    worktree: bool,
    tags: Seq<Seq<char>>,
    uuid: Seq<char>,
)
    ensures
        forall|k: int|
            0 <= k < s.prompts.len() ==> {
                &&& (#[trigger] s.prompts[k]).queue_rank <= queued_prompt(
                    s,
                    words,
                    cwd,
                    mode,
                    worktree,
                    tags,
                    uuid,
                ).queue_rank
                &&& max_rank(s.prompts) < u64::MAX ==> s.prompts[k].queue_rank < queued_prompt(
                    s,
                    words,
                    cwd,
                    mode,
                    worktree,
                    tags,
                    uuid,
                ).queue_rank
            },
{
    max_rank_bounds(s.prompts);
}

/// No prompt ranks above the largest rank.
proof fn max_rank_bounds(ps: Seq<PromptView>)
    ensures
        forall|k: int| 0 <= k < ps.len() ==> (#[trigger] ps[k]).queue_rank <= max_rank(ps),
    decreases ps.len(),
{
    if ps.len() > 0 {
        let t = ps.drop_last();
        max_rank_bounds(t);
        assert forall|k: int| 0 <= k < ps.len() implies (#[trigger] ps[k]).queue_rank <= max_rank(
            ps,
        ) by {
            if k < t.len() {
                assert(t[k] == ps[k]);
            }
        }
    }
}

/// Trying a prompt again leaves it as it is and puts a copy of what was asked
/// behind all others.
pub proof fn retrying_keeps_the_first_try(
    s: OrchestratorView,
    i: int,
    session_id: usize,
    now_ms: u64,
    uuid: Seq<char>,
)
    requires
        numbered(s),
        0 <= i < s.prompts.len(),
        at_end(s.prompts[i].status),
        s.next_id < usize::MAX,
    ensures
        ({
            let req = ClientRequest::RetryPrompt { prompt_id: s.prompts[i].id };
            let t = handled(s, req, session_id, now_ms, uuid).state;
            &&& t.prompts.drop_last() == s.prompts
            &&& t.prompts.last().id == s.next_id
            &&& t.prompts.last().status is Pending
            &&& t.prompts.last().text == s.prompts[i].text
            &&& t.prompts.last().cwd == s.prompts[i].cwd
            &&& t.prompts.last().mode == s.prompts[i].mode
            &&& t.prompts.last().worktree == s.prompts[i].worktree
            &&& t.prompts.last().tags == s.prompts[i].tags
        }),
{
    let id = s.prompts[i].id;
    prompt_at_is_first(s.prompts, id);
    let k = prompt_at(s.prompts, id)->0;
    if k < i {
        assert(s.prompts[k].id != s.prompts[i].id);
    }
    let t = handled(s, ClientRequest::RetryPrompt { prompt_id: id }, session_id, now_ms, uuid).state;
    assert(t.prompts.drop_last() =~= s.prompts);
}

/// A prompt that is resumed keeps its session.
pub proof fn resuming_keeps_the_session(s: OrchestratorView, i: int, now_ms: u64)
    requires
        0 <= i < s.prompts.len(),
        at_end(s.prompts[i].status),
    ensures
        resumed(s, i, now_ms).state.prompts[i].session_id == s.prompts[i].session_id,
        resumed(s, i, now_ms).state.prompts[i].resume,
        resumed(s, i, now_ms).state.prompts[i].status is Pending,
        forall|k: int|
            0 <= k < s.prompts.len() && k != i ==> (#[trigger] resumed(
                s,
                i,
                now_ms,
            ).state.prompts[k]) == s.prompts[k],
{
}

// ---------------------------------------------------------------------
// Effects
// ---------------------------------------------------------------------

/// A request that only asks something leaves everything as it is.
pub proof fn asking_changes_nothing(
    s: OrchestratorView,
    req: ClientRequest,
    session_id: usize,
    now_ms: u64,
    uuid: Seq<char>,
)
    requires
        req is GetState || req is GetPromptOutput || req is Ping || req is StoreList || req
            is StoreCount || req is StorePath || req is CleanWorktrees || req is Shutdown || req
            is SendBytes || req is ResizePty,
    ensures
        handled(s, req, session_id, now_ms, uuid).state == s,
{
}

/// An effect on the files of saved prompts.
pub open spec fn on_files(e: EffectView) -> bool {
    e is Save || e is Prune || e is DeleteFile
}

/// None of these effects is on a file.
pub open spec fn off_files(es: Seq<EffectView>) -> bool {
    forall|k: int| 0 <= k < es.len() ==> !on_files(#[trigger] es[k])
}

/// Where prompts are not saved, no request touches a file.
pub proof fn request_saves_nothing_nowhere(
    s: OrchestratorView,
    req: ClientRequest,
    session_id: usize,
    now_ms: u64,
    uuid: Seq<char>,
)
    requires
        s.prompts_dir is None,
    ensures
        off_files(handled(s, req, session_id, now_ms, uuid).effects),
{
    if about_prompt(req) {
        prompt_request_off_files(s, req, session_id, now_ms, uuid);
    } else if about_worker(req) {
        worker_request_off_files(s, req, session_id, now_ms, uuid);
    } else if about_session(req) {
        session_request_off_files(s, req, session_id, now_ms, uuid);
    } else {
        store_request_off_files(s, req, session_id, now_ms, uuid);
    }
}

/// Where prompts are not saved, no request about a prompt touches a file.
proof fn prompt_request_off_files(
    s: OrchestratorView,
    req: ClientRequest,
    session_id: usize,
    now_ms: u64,
    uuid: Seq<char>,
)
    requires
        s.prompts_dir is None,
        about_prompt(req),
    ensures
        off_files(handled(s, req, session_id, now_ms, uuid).effects),
{
}

/// Where prompts are not saved, no request about workers touches a file.
proof fn worker_request_off_files(
    s: OrchestratorView,
    req: ClientRequest,
    session_id: usize,
    now_ms: u64,
    uuid: Seq<char>,
)
    requires
        s.prompts_dir is None,
        about_worker(req),
    ensures
        off_files(handled(s, req, session_id, now_ms, uuid).effects),
{
}

/// No request of a client about itself touches a file.
proof fn session_request_off_files(
    s: OrchestratorView,
    req: ClientRequest,
    session_id: usize,
    now_ms: u64,
    uuid: Seq<char>,
)
    requires
        s.prompts_dir is None,
        about_session(req),
    ensures
        off_files(handled(s, req, session_id, now_ms, uuid).effects),
{
}

/// Where prompts are not saved, no request about all of them touches a file.
proof fn store_request_off_files(
    s: OrchestratorView,
    req: ClientRequest,
    session_id: usize,
    now_ms: u64,
    uuid: Seq<char>,
)
    requires
        s.prompts_dir is None,
        about_store(req),
    ensures
        off_files(handled(s, req, session_id, now_ms, uuid).effects),
{
    match req {
        ClientRequest::StoreDrop { filter } => {
            deletions_off_files(s, ids_where(s.prompts, |x: PromptStatus| dropped(filter@, x)));
        },
        ClientRequest::StoreKeep { filter } => {
            deletions_off_files(s, ids_where(s.prompts, |x: PromptStatus| not_kept(filter@, x)));
        },
        _ => {},
    }
}

/// Where prompts are not saved, no message of a worker touches a file.
#[verifier::rlimit(60)]
pub proof fn message_saves_nothing_nowhere(
    s: OrchestratorView,
    msg: WorkerMessage,
    now_ms: u64,
    screen: Seq<char>,
)
    requires
        s.prompts_dir is None,
    ensures
        off_files(applied(s, msg, now_ms, screen).effects),
{
}

/// Where prompts are not saved, deleting some touches no file.
proof fn deletions_off_files(s: OrchestratorView, ids: Seq<usize>)
    requires
        s.prompts_dir is None,
    ensures
        off_files(prompts_deleted(s, ids).effects),
        prompts_deleted(s, ids).state.prompts_dir is None,
    decreases ids.len(),
{
    if ids.len() > 0 {
        deletions_off_files(s, ids.drop_last());
    }
}

/// Deleting prompts gives out no session id.
proof fn deleting_keeps_session_ids(s: OrchestratorView, ids: Seq<usize>)
    ensures
        prompts_deleted(s, ids).state.next_session == s.next_session,
    decreases ids.len(),
{
    if ids.len() > 0 {
        deleting_keeps_session_ids(s, ids.drop_last());
    }
}

/// No request and no message of a worker gives out a session id.
pub proof fn session_ids_are_kept(
    s: OrchestratorView,
    req: ClientRequest,
    session_id: usize,
    msg: WorkerMessage,
    now_ms: u64,
    uuid: Seq<char>,
    screen: Seq<char>,
)
    ensures
        handled(s, req, session_id, now_ms, uuid).state.next_session == s.next_session,
        applied(s, msg, now_ms, screen).state.next_session == s.next_session,
{
    if let ClientRequest::StoreDrop { filter } = req {
        deleting_keeps_session_ids(
            s,
            ids_where(s.prompts, |x: PromptStatus| dropped(filter@, x)),
        );
    }
    if let ClientRequest::StoreKeep { filter } = req {
        deleting_keeps_session_ids(
            s,
            ids_where(s.prompts, |x: PromptStatus| not_kept(filter@, x)),
        );
    }
}

/// Deleting several prompts is deleting them one after the other, and asks for
/// all that deleting each of them asks for.
pub proof fn deletions_add_up(s: OrchestratorView, ids: Seq<usize>, id: usize)
    ensures
        ({
            let before = prompts_deleted(s, ids);
            let last = prompt_deleted(before.state, id);
            let all = prompts_deleted(s, ids.push(id));
            &&& all.state == last.state
            &&& all.effects == before.effects + last.effects
            &&& prompts_deleted(s, Seq::<usize>::empty()).state == s
            &&& prompts_deleted(s, Seq::<usize>::empty()).effects.len() == 0
        }),
{
    assert(ids.push(id).drop_last() =~= ids);
}

} // verus!
