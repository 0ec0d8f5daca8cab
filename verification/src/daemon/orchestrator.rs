//! The daemon's state: its prompts, the workers that run them, and the clients
//! that watch.
//!
//! Nothing here touches the outside. A request of a client or a message of a
//! worker changes the state and asks, in order, for [`Effect`]s that the
//! caller carries out. What the caller has from outside (the time, a fresh
//! file name, what a terminal shows) it hands in.

use std::collections::{HashMap, HashSet};

use vstd::prelude::*;
use vstd::string::*;

use super::effect::{effect_views, Effect, EffectView};
use super::model::{about_prompt, about_session, about_store, about_worker, all_stopped, appended, applied, at_work, count_where, dropped, finished_prompt, handled, ids_where, info_of, infos_of, kill_effects, max_rank, moved_down, moved_up, next_rank, next_waiting, not_kept, prompt_added, prompt_at, prompt_at_is_first, prompt_deleted, prompts_deleted, queued_prompt, resumed, saved, selects, snapshot_of, spawn_outcome, stop_effects, store_answer, swapped, updated, with_prompt, worker_cwd, worker_gone, worker_killed, worker_session, worker_started, worktree_awaited, worktree_cleaned, worktrees_left, OrchestratorView};
use super::session::SessionManager;
use super::worker::{SpawnResult, WorkerInput, WorkerMessage};
use crate::config::WorktreeCleanup;
use crate::prompt::{prompt_views, Prompt, PromptMode, PromptStatus, PromptView};
use crate::protocol::{info_views, ClientRequest, DaemonEvent, DaemonState, PromptInfo, PROTOCOL_VERSION};
use crate::text;

verus! {

broadcast use vstd::std_specs::hash::group_hash_axioms;

/// Daemon orchestrator: manages prompts and workers, and says what clients are
/// told.
pub struct Orchestrator {
    pub prompts: Vec<Prompt>,
    pub next_id: usize,
    pub max_workers: usize,
    pub active_workers: usize,
    pub default_mode: PromptMode,
    /// Prompts whose workers take input.
    pub worker_inputs: HashSet<usize>,
    /// Prompts whose workers have a terminal; `true` while the process behind
    /// it has not been handed over to be waited for.
    pub pty_handles: HashMap<usize, bool>,
    pub sessions: SessionManager,
    /// Prompts whose worktree is being made.
    pub worktree_creating: HashSet<usize>,
    pub max_saved_prompts: usize,
    /// Where prompts are saved, if anywhere.
    pub prompts_dir: Option<String>,
    pub worktree_cleanup: WorktreeCleanup,
}

impl View for Orchestrator {
    type V = OrchestratorView;

    open spec fn view(&self) -> OrchestratorView {
        OrchestratorView {
            prompts: prompt_views(self.prompts@),
            next_id: self.next_id,
            max_workers: self.max_workers,
            active_workers: self.active_workers,
            default_mode: self.default_mode,
            worker_inputs: self.worker_inputs@,
            pty_handles: self.pty_handles@,
            sessions: self.sessions@,
            next_session: self.sessions.next_id(),
            worktree_creating: self.worktree_creating@,
            max_saved_prompts: self.max_saved_prompts,
            prompts_dir: text::text_option(self.prompts_dir),
            worktree_cleanup: self.worktree_cleanup,
        }
    }
}

// ---------------------------------------------------------------------
// The orchestrator
// ---------------------------------------------------------------------

/// Ask for one more effect.
fn emit(out: &mut Vec<Effect>, e: Effect)
    ensures
        effect_views(final(out)@) == effect_views(old(out)@).push(e@),
{
    let ghost before = effect_views(out@);
    let ghost added = e@;
    out.push(e);
    proof {
        assert(effect_views(out@) =~= before.push(added));
    }
}

impl Orchestrator {
    /// The first index of the prompt with this id.
    pub fn position(&self, id: usize) -> (r: Option<usize>)
        ensures
            match prompt_at(self@.prompts, id) {
                Some(i) => r matches Some(k) && k == i,
                None => r is None,
            },
            r matches Some(k) ==> k < self.prompts.len() && self.prompts@[k as int].id == id,
    {
        let mut i: usize = 0;
        let ghost ps = self@.prompts;
        proof {
            prompt_at_is_first(ps, id);
        }
        while i < self.prompts.len()
            invariant
                ps == prompt_views(self.prompts@),
                i <= self.prompts.len(),
                forall|j: int| 0 <= j < i ==> (#[trigger] ps[j]).id != id,
            decreases self.prompts.len() - i,
        {
            proof {
                assert(ps[i as int].id == self.prompts@[i as int].id);
            }
            if self.prompts[i].id == id {
                proof {
                    prompt_at_is_first(ps, id);
                }
                return Some(i);
            }
            i = i + 1;
        }
        None
    }

    /// A prompt as clients see it.
    pub fn to_prompt_info(&self, prompt: &Prompt, now_ms: u64) -> (r: PromptInfo)
        ensures
            r@ == info_of(self@, prompt@, now_ms),
    {
        PromptInfo {
            id: prompt.id,
            text: prompt.text.clone(),
            cwd: prompt.cwd.clone(),
            mode: text::owned(prompt.mode.label()),
            status: text::owned(prompt.status.name()),
            output: prompt.output.clone(),
            error: prompt.error.clone(),
            worktree: prompt.worktree,
            worktree_path: prompt.worktree_path.clone(),
            session_id: prompt.session_id.clone(),
            tags: text::owned_list(&prompt.tags),
            queue_rank: prompt.queue_rank,
            seen: prompt.seen,
            resume: prompt.resume,
            output_len: match &prompt.output {
                Some(o) => o.as_str().len(),
                None => 0,
            },
            elapsed_ms: prompt.elapsed_ms(now_ms),
            uuid: prompt.uuid.clone(),
            has_pty: self.pty_handles.contains_key(&prompt.id),
        }
    }

    /// All prompts as clients see them.
    fn prompt_infos(&self, now_ms: u64) -> (r: Vec<PromptInfo>)
        ensures
            info_views(r@) == infos_of(self@, now_ms),
    {
        let mut out: Vec<PromptInfo> = Vec::new();
        let mut i: usize = 0;
        while i < self.prompts.len()
            invariant
                i <= self.prompts.len(),
                out@.len() == i,
                forall|k: int|
                    0 <= k < i ==> (#[trigger] out@[k])@ == info_of(
                        self@,
                        self.prompts@[k]@,
                        now_ms,
                    ),
            decreases self.prompts.len() - i,
        {
            out.push(self.to_prompt_info(&self.prompts[i], now_ms));
            i = i + 1;
        }
        proof {
            assert(info_views(out@) =~= infos_of(self@, now_ms));
        }
        out
    }

    /// The state as clients see it.
    pub fn to_daemon_state(&self, now_ms: u64) -> (r: DaemonState)
        ensures
            r@ == snapshot_of(self@, now_ms),
    {
        DaemonState {
            prompts: self.prompt_infos(now_ms),
            max_workers: self.max_workers,
            active_workers: self.active_workers,
            default_mode: text::owned(self.default_mode.label()),
            protocol_version: PROTOCOL_VERSION,
        }
    }

    /// Write a prompt to its file, where prompts are saved at all.
    fn persist_prompt(&self, i: usize, out: &mut Vec<Effect>)
        requires
            i < self.prompts.len(),
        ensures
            effect_views(final(out)@) == effect_views(old(out)@) + saved(
                self@,
                self@.prompts[i as int],
            ),
    {
        let ghost before = effect_views(out@);
        if self.prompts_dir.is_some() {
            emit(out, Effect::Save(self.prompts[i].clone()));
        }
        proof {
            assert(effect_views(out@) =~= before + saved(self@, self@.prompts[i as int]));
        }
    }

    /// Tell the clients that a prompt changed.
    fn announce_update(&self, i: usize, now_ms: u64, out: &mut Vec<Effect>)
        requires
            i < self.prompts.len(),
        ensures
            effect_views(final(out)@) == effect_views(old(out)@).push(
                updated(self@, self@.prompts[i as int], now_ms),
            ),
    {
        let info: PromptInfo = self.to_prompt_info(&self.prompts[i], now_ms);
        emit(out, Effect::Broadcast(DaemonEvent::PromptUpdated(info)));
    }

    /// The rank behind all prompts.
    fn rank_behind(&self) -> (r: u64)
        ensures
            r == next_rank(self@.prompts),
    {
        let ghost ps = self@.prompts;
        let mut top: u64 = 0;
        let mut i: usize = 0;
        proof {
            assert(ps.take(0) =~= Seq::<PromptView>::empty());
        }
        while i < self.prompts.len()
            invariant
                ps == prompt_views(self.prompts@),
                i <= self.prompts.len(),
                top == max_rank(ps.take(i as int)),
            decreases self.prompts.len() - i,
        {
            proof {
                assert(ps.take(i + 1).drop_last() =~= ps.take(i as int));
                assert(ps.take(i + 1).last() == self.prompts@[i as int]@);
            }
            if self.prompts[i].queue_rank > top {
                top = self.prompts[i].queue_rank;
            }
            i = i + 1;
        }
        proof {
            assert(ps.take(ps.len() as int) =~= ps);
        }
        if top == u64::MAX {
            top
        } else {
            top + 1
        }
    }

    /// Put a new prompt at the end of the queue. `uuid` is a fresh name for
    /// its file.
    pub fn add_prompt(
        &mut self,
        text: String,
        cwd: Option<String>,
        mode: PromptMode,
        worktree: bool,
        tags: Vec<String>,
        now_ms: u64,
        uuid: String,
        out: &mut Vec<Effect>,
    )
        requires
            old(self).next_id < usize::MAX,
        ensures
            ({
                let p = queued_prompt(
                    old(self)@,
                    text@,
                    text::text_option(cwd),
                    mode,
                    worktree,
                    text::texts(tags@),
                    uuid@,
                );
                let step = prompt_added(old(self)@, p, now_ms);
                final(self)@ == step.state && effect_views(final(out)@) == effect_views(old(out)@)
                    + step.effects
            }),
    {
        let ghost s0 = self@;
        let ghost e0 = effect_views(out@);
        let mut prompt: Prompt = Prompt::new(self.next_id, text, cwd, mode, uuid);
        prompt.worktree = worktree;
        prompt.tags = tags;
        prompt.queue_rank = self.rank_behind();
        self.next_id = self.next_id + 1;
        let ghost p = prompt@;
        if self.prompts_dir.is_some() {
            emit(out, Effect::Save(prompt.clone()));
            emit(out, Effect::Prune { keep: self.max_saved_prompts });
        }
        let info: PromptInfo = self.to_prompt_info(&prompt, now_ms);
        self.prompts.push(prompt);
        emit(out, Effect::Broadcast(DaemonEvent::PromptAdded(info)));
        proof {
            assert(self@.prompts =~= s0.prompts.push(p));
            assert(self@ =~= prompt_added(s0, p, now_ms).state);
            assert(effect_views(out@) =~= e0 + prompt_added(s0, p, now_ms).effects);
        }
    }

    /// Tell a worker to stop, and kill its process.
    fn kill_worker(&mut self, id: usize, out: &mut Vec<Effect>)
        ensures
            final(self)@ == worker_killed(old(self)@, id).state,
            effect_views(final(out)@) == effect_views(old(out)@) + worker_killed(
                old(self)@,
                id,
            ).effects,
    {
        let ghost s0 = self@;
        let ghost e0 = effect_views(out@);
        if self.worker_inputs.contains(&id) {
            emit(out, Effect::Input { prompt_id: id, input: WorkerInput::Kill });
        }
        let child: bool = match self.pty_handles.get(&id) {
            Some(c) => *c,
            None => false,
        };
        if child {
            emit(out, Effect::KillChild { prompt_id: id });
        }
        self.pty_handles.remove(&id);
        proof {
            assert(self@ =~= worker_killed(s0, id).state);
            assert(effect_views(out@) =~= e0 + worker_killed(s0, id).effects);
        }
    }

    /// Put a prompt whose work is at an end back into the queue.
    fn resume_prompt(&mut self, i: usize, now_ms: u64, out: &mut Vec<Effect>)
        requires
            i < old(self).prompts.len(),
        ensures
            final(self)@ == resumed(old(self)@, i as int, now_ms).state,
            effect_views(final(out)@) == effect_views(old(out)@) + resumed(
                old(self)@,
                i as int,
                now_ms,
            ).effects,
    {
        let ghost s0 = self@;
        let ghost e0 = effect_views(out@);
        let status: PromptStatus = self.prompts[i].status;
        if status != PromptStatus::Completed && status != PromptStatus::Failed {
            proof {
                assert(effect_views(out@) =~= e0 + resumed(s0, i as int, now_ms).effects);
            }
            return;
        }
        let prompt: &mut Prompt = &mut self.prompts[i];
        prompt.status = PromptStatus::Pending;
        prompt.resume = true;
        prompt.output = None;
        prompt.error = None;
        prompt.started_at_ms = None;
        prompt.finished_at_ms = None;
        prompt.seen = false;
        proof {
            let t = resumed(s0, i as int, now_ms).state;
            assert(self@.prompts =~= t.prompts);
            assert(self@ =~= t);
        }
        self.persist_prompt(i, out);
        self.announce_update(i, now_ms, out);
        proof {
            assert(effect_views(out@) =~= e0 + resumed(s0, i as int, now_ms).effects);
        }
    }

    /// Delete a prompt, with its worker and its file.
    pub fn delete_prompt(&mut self, prompt_id: usize, out: &mut Vec<Effect>)
        ensures
            final(self)@ == prompt_deleted(old(self)@, prompt_id).state,
            effect_views(final(out)@) == effect_views(old(out)@) + prompt_deleted(
                old(self)@,
                prompt_id,
            ).effects,
    {
        let ghost s0 = self@;
        let ghost e0 = effect_views(out@);
        let ghost step = prompt_deleted(s0, prompt_id);
        match self.position(prompt_id) {
            None => {
                proof {
                    assert(effect_views(out@) =~= e0 + step.effects);
                }
            },
            Some(i) => {
                let status: PromptStatus = self.prompts[i].status;
                if status == PromptStatus::Running || status == PromptStatus::Idle {
                    self.kill_worker(prompt_id, out);
                    self.worker_inputs.remove(&prompt_id);
                    self.active_workers = self.active_workers.saturating_sub(1);
                }
                if self.prompts_dir.is_some() {
                    let uuid: String = self.prompts[i].uuid.clone();
                    emit(out, Effect::DeleteFile { uuid });
                }
                let ghost ps = self.prompts@;
                self.prompts.remove(i);
                emit(out, Effect::Broadcast(DaemonEvent::PromptRemoved { prompt_id }));
                proof {
                    assert(prompt_views(ps) == s0.prompts);
                    assert(self@.prompts =~= s0.prompts.remove(i as int));
                    assert(self@ =~= step.state);
                    assert(effect_views(out@) =~= e0 + step.effects);
                }
            },
        }
    }

    /// Two neighbours in the queue change places, and with them their ranks.
    fn swap_prompts(&mut self, i: usize, j: usize, now_ms: u64, out: &mut Vec<Effect>)
        requires
            i < old(self).prompts.len(),
            j < old(self).prompts.len(),
            i != j,
        ensures
            final(self)@ == swapped(old(self)@, i as int, j as int, now_ms).state,
            effect_views(final(out)@) == effect_views(old(out)@) + swapped(
                old(self)@,
                i as int,
                j as int,
                now_ms,
            ).effects,
    {
        let ghost s0 = self@;
        let ghost e0 = effect_views(out@);
        let ghost step = swapped(s0, i as int, j as int, now_ms);
        let rank_a: u64 = self.prompts[i].queue_rank;
        let rank_b: u64 = self.prompts[j].queue_rank;
        let mut a: Prompt = self.prompts[i].clone();
        let mut b: Prompt = self.prompts[j].clone();
        a.queue_rank = rank_b;
        b.queue_rank = rank_a;
        self.prompts.set(i, b);
        self.prompts.set(j, a);
        proof {
            assert(self@.prompts =~= step.state.prompts);
            assert(self@ =~= step.state);
        }
        self.persist_prompt(i, out);
        self.persist_prompt(j, out);
        self.announce_update(i, now_ms, out);
        self.announce_update(j, now_ms, out);
        proof {
            assert(effect_views(out@) =~= e0 + step.effects);
        }
    }

    /// Move a prompt that waits one place towards the front.
    pub fn move_prompt_up(&mut self, i: usize, now_ms: u64, out: &mut Vec<Effect>)
        requires
            i < old(self).prompts.len(),
        ensures
            final(self)@ == moved_up(old(self)@, i as int, now_ms).state,
            effect_views(final(out)@) == effect_views(old(out)@) + moved_up(
                old(self)@,
                i as int,
                now_ms,
            ).effects,
    {
        let ghost e0 = effect_views(out@);
        if i == 0 || self.prompts[i].status != PromptStatus::Pending {
            proof {
                assert(effect_views(out@) =~= e0 + Seq::<EffectView>::empty());
            }
            return;
        }
        self.swap_prompts(i, i - 1, now_ms, out);
    }

    /// Move a prompt that waits one place towards the end.
    pub fn move_prompt_down(&mut self, i: usize, now_ms: u64, out: &mut Vec<Effect>)
        requires
            i < old(self).prompts.len(),
        ensures
            final(self)@ == moved_down(old(self)@, i as int, now_ms).state,
            effect_views(final(out)@) == effect_views(old(out)@) + moved_down(
                old(self)@,
                i as int,
                now_ms,
            ).effects,
    {
        let ghost e0 = effect_views(out@);
        if i >= self.prompts.len() - 1 || self.prompts[i].status != PromptStatus::Pending {
            proof {
                assert(effect_views(out@) =~= e0 + Seq::<EffectView>::empty());
            }
            return;
        }
        self.swap_prompts(i, i + 1, now_ms, out);
    }

    /// Delete the prompts with these ids, one after the other.
    fn delete_prompts(&mut self, ids: &Vec<usize>, out: &mut Vec<Effect>)
        ensures
            final(self)@ == prompts_deleted(old(self)@, ids@).state,
            effect_views(final(out)@) == effect_views(old(out)@) + prompts_deleted(
                old(self)@,
                ids@,
            ).effects,
    {
        let ghost s0 = self@;
        let ghost e0 = effect_views(out@);
        let mut i: usize = 0;
        proof {
            assert(ids@.take(0) =~= Seq::<usize>::empty());
            assert(e0 + Seq::<EffectView>::empty() =~= e0);
        }
        while i < ids.len()
            invariant
                i <= ids.len(),
                self@ == prompts_deleted(s0, ids@.take(i as int)).state,
                effect_views(out@) == e0 + prompts_deleted(s0, ids@.take(i as int)).effects,
            decreases ids.len() - i,
        {
            let ghost before = prompts_deleted(s0, ids@.take(i as int));
            let ghost last = prompt_deleted(before.state, ids@[i as int]);
            self.delete_prompt(ids[i], out);
            proof {
                assert(ids@.take(i + 1).drop_last() =~= ids@.take(i as int));
                assert(ids@.take(i + 1).last() == ids@[i as int]);
                assert(e0 + before.effects + last.effects =~= e0 + (before.effects
                    + last.effects));
            }
            i = i + 1;
        }
        proof {
            assert(ids@.take(ids@.len() as int) =~= ids@);
        }
    }

    /// Delete the prompts that `filter` selects; returns how many.
    pub fn store_drop(&mut self, filter: &str, out: &mut Vec<Effect>) -> (r: usize)
        ensures
            ({
                let ids = ids_where(old(self)@.prompts, |x: PromptStatus| dropped(filter@, x));
                let step = prompts_deleted(old(self)@, ids);
                r == ids.len() && final(self)@ == step.state && effect_views(final(out)@)
                    == effect_views(old(out)@) + step.effects
            }),
    {
        let ghost ps = self@.prompts;
        let ghost f = |x: PromptStatus| dropped(filter@, x);
        let mut ids: Vec<usize> = Vec::new();
        let mut i: usize = 0;
        proof {
            assert(ps.take(0) =~= Seq::<PromptView>::empty());
        }
        while i < self.prompts.len()
            invariant
                self@ == old(self)@,
                ps == self@.prompts,
                f == (|x: PromptStatus| dropped(filter@, x)),
                i <= self.prompts.len(),
                ids@ == ids_where(ps.take(i as int), f),
            decreases self.prompts.len() - i,
        {
            proof {
                assert(ps.take(i + 1).drop_last() =~= ps.take(i as int));
                assert(ps.take(i + 1).last() == self.prompts@[i as int]@);
            }
            if text::same(filter, "all") || status_selected(filter, self.prompts[i].status) {
                ids.push(self.prompts[i].id);
            }
            i = i + 1;
        }
        proof {
            assert(ps.take(ps.len() as int) =~= ps);
        }
        self.delete_prompts(&ids, out);
        ids.len()
    }

    /// Delete the prompts that `filter` does not select, but for those that a
    /// worker is at work on; returns how many.
    pub fn store_keep(&mut self, filter: &str, out: &mut Vec<Effect>) -> (r: usize)
        ensures
            ({
                let ids = ids_where(old(self)@.prompts, |x: PromptStatus| not_kept(filter@, x));
                let step = prompts_deleted(old(self)@, ids);
                r == ids.len() && final(self)@ == step.state && effect_views(final(out)@)
                    == effect_views(old(out)@) + step.effects
            }),
    {
        let ghost ps = self@.prompts;
        let ghost f = |x: PromptStatus| not_kept(filter@, x);
        let mut ids: Vec<usize> = Vec::new();
        let mut i: usize = 0;
        proof {
            assert(ps.take(0) =~= Seq::<PromptView>::empty());
        }
        while i < self.prompts.len()
            invariant
                self@ == old(self)@,
                ps == self@.prompts,
                f == (|x: PromptStatus| not_kept(filter@, x)),
                i <= self.prompts.len(),
                ids@ == ids_where(ps.take(i as int), f),
            decreases self.prompts.len() - i,
        {
            let status: PromptStatus = self.prompts[i].status;
            proof {
                assert(ps.take(i + 1).drop_last() =~= ps.take(i as int));
                assert(ps.take(i + 1).last() == self.prompts@[i as int]@);
            }
            if !status_selected(filter, status) && status != PromptStatus::Running && status
                != PromptStatus::Idle {
                ids.push(self.prompts[i].id);
            }
            i = i + 1;
        }
        proof {
            assert(ps.take(ps.len() as int) =~= ps);
        }
        self.delete_prompts(&ids, out);
        ids.len()
    }

    /// How many prompts have each status: waiting, at work, completed, failed.
    fn count_prompts(&self) -> (r: (usize, usize, usize, usize))
        ensures
            r.0 == count_where(self@.prompts, |x: PromptStatus| x is Pending),
            r.1 == count_where(self@.prompts, |x: PromptStatus| at_work(x)),
            r.2 == count_where(self@.prompts, |x: PromptStatus| x is Completed),
            r.3 == count_where(self@.prompts, |x: PromptStatus| x is Failed),
    {
        let ghost ps = self@.prompts;
        let ghost f0 = |x: PromptStatus| x is Pending;
        let ghost f1 = |x: PromptStatus| at_work(x);
        let ghost f2 = |x: PromptStatus| x is Completed;
        let ghost f3 = |x: PromptStatus| x is Failed;
        let mut pending: usize = 0;
        let mut running: usize = 0;
        let mut completed: usize = 0;
        let mut failed: usize = 0;
        let mut i: usize = 0;
        proof {
            assert(ps.take(0) =~= Seq::<PromptView>::empty());
        }
        while i < self.prompts.len()
            invariant
                ps == self@.prompts,
                f0 == (|x: PromptStatus| x is Pending),
                f1 == (|x: PromptStatus| at_work(x)),
                f2 == (|x: PromptStatus| x is Completed),
                f3 == (|x: PromptStatus| x is Failed),
                i <= self.prompts.len(),
                pending == count_where(ps.take(i as int), f0) <= i,
                running == count_where(ps.take(i as int), f1) <= i,
                completed == count_where(ps.take(i as int), f2) <= i,
                failed == count_where(ps.take(i as int), f3) <= i,
            decreases self.prompts.len() - i,
        {
            proof {
                assert(ps.take(i + 1).drop_last() =~= ps.take(i as int));
                assert(ps.take(i + 1).last() == self.prompts@[i as int]@);
            }
            match self.prompts[i].status {
                PromptStatus::Pending => {
                    pending = pending + 1;
                },
                PromptStatus::Running => {
                    running = running + 1;
                },
                PromptStatus::Idle => {
                    running = running + 1;
                },
                PromptStatus::Completed => {
                    completed = completed + 1;
                },
                PromptStatus::Failed => {
                    failed = failed + 1;
                },
            }
            i = i + 1;
        }
        proof {
            assert(ps.take(ps.len() as int) =~= ps);
        }
        (pending, running, completed, failed)
    }

    /// The worktrees of the prompts whose work is at an end.
    pub fn clean_worktrees(&self) -> (r: Vec<String>)
        ensures
            text::texts(r@) == worktrees_left(self@.prompts),
    {
        let ghost ps = self@.prompts;
        let mut out: Vec<String> = Vec::new();
        let mut i: usize = 0;
        proof {
            assert(ps.take(0) =~= Seq::<PromptView>::empty());
            assert(text::texts(out@) =~= Seq::<Seq<char>>::empty());
        }
        while i < self.prompts.len()
            invariant
                ps == self@.prompts,
                i <= self.prompts.len(),
                text::texts(out@) == worktrees_left(ps.take(i as int)),
            decreases self.prompts.len() - i,
        {
            let ghost before = text::texts(out@);
            let status: PromptStatus = self.prompts[i].status;
            proof {
                assert(ps.take(i + 1).drop_last() =~= ps.take(i as int));
                assert(ps.take(i + 1).last() == self.prompts@[i as int]@);
            }
            if status == PromptStatus::Completed || status == PromptStatus::Failed {
                match &self.prompts[i].worktree_path {
                    Some(path) => {
                        out.push(path.clone());
                        proof {
                            assert(text::texts(out@) =~= before.push(path@));
                        }
                    },
                    None => {},
                }
            }
            i = i + 1;
        }
        proof {
            assert(ps.take(ps.len() as int) =~= ps);
        }
        out
    }

    /// Put `more` behind the output of a prompt.
    fn append_output(&mut self, i: usize, more: &str)
        requires
            i < old(self).prompts.len(),
        ensures
            final(self)@ == with_prompt(
                old(self)@,
                i as int,
                PromptView {
                    output: appended(old(self)@.prompts[i as int].output, more@),
                    ..old(self)@.prompts[i as int]
                },
            ),
    {
        let ghost s0 = self@;
        let prompt: &mut Prompt = &mut self.prompts[i];
        match &mut prompt.output {
            Some(existing) => {
                existing.append(more);
            },
            None => {
                prompt.output = Some(text::owned(more));
            },
        }
        proof {
            let t = with_prompt(
                s0,
                i as int,
                PromptView {
                    output: appended(s0.prompts[i as int].output, more@),
                    ..s0.prompts[i as int]
                },
            );
            assert(self@.prompts =~= t.prompts);
            assert(self@ =~= t);
        }
    }

    /// Take input for a worker, or say that it takes none.
    fn send_input(
        &mut self,
        prompt_id: usize,
        text: String,
        session_id: usize,
        now_ms: u64,
        uuid: Ghost<Seq<char>>,
        out: &mut Vec<Effect>,
    )
        ensures
            ({
                let step = handled(
                    old(self)@,
                    ClientRequest::SendInput { prompt_id, text },
                    session_id,
                    now_ms,
                    uuid@,
                );
                final(self)@ == step.state && effect_views(final(out)@) == effect_views(old(out)@)
                    + step.effects
            }),
    {
        let ghost e0 = effect_views(out@);
        let ghost step = handled(
            self@,
            ClientRequest::SendInput { prompt_id, text },
            session_id,
            now_ms,
            uuid@,
        );
        if self.worker_inputs.contains(&prompt_id) {
            let mut echo: String = text::owned("\n\n> ");
            echo.append(text.as_str());
            echo.append("\n\n");
            match self.position(prompt_id) {
                Some(i) => {
                    self.append_output(i, echo.as_str());
                },
                None => {},
            }
            emit(out, Effect::Broadcast(DaemonEvent::OutputChunk { prompt_id, text: echo }));
            let mut line: String = text;
            line.push('\n');
            emit(out, Effect::Input { prompt_id, input: WorkerInput::SendInput(line) });
        } else {
            let mut message: String = text::owned("Cannot send input to prompt ");
            message.append(text::number(prompt_id as u128).as_str());
            message.append(": no input channel (one-shot worker?)");
            emit(out, Effect::SendTo { session_id, event: DaemonEvent::Error { message } });
        }
        proof {
            assert(effect_views(out@) =~= e0 + step.effects);
        }
    }
}

impl Orchestrator {
    /// A request that is about one prompt of the queue.
    fn prompt_request(
        &mut self,
        req: ClientRequest,
        session_id: usize,
        now_ms: u64,
        uuid: String,
        out: &mut Vec<Effect>,
    )
        requires
            about_prompt(req),
            (req is SubmitPrompt || req is RetryPrompt) ==> old(self).next_id < usize::MAX,
        ensures
            final(self)@ == handled(old(self)@, req, session_id, now_ms, uuid@).state,
            effect_views(final(out)@) == effect_views(old(out)@) + handled(
                old(self)@,
                req,
                session_id,
                now_ms,
                uuid@,
            ).effects,
    {
        let ghost s0 = self@;
        let ghost e0 = effect_views(out@);
        let ghost step = handled(s0, req, session_id, now_ms, uuid@);
        match req {
            ClientRequest::SubmitPrompt {
                text,
                cwd,
                mode,
                worktree,
                tags,
                depends_on: _,
                worktree_id: _,
            } => {
                let prompt_mode: PromptMode = PromptMode::from_mode_str(mode.as_str());
                self.add_prompt(text, cwd, prompt_mode, worktree, tags, now_ms, uuid, out);
                emit(out, Effect::Dispatch);
            },
            ClientRequest::RetryPrompt { prompt_id } => {
                match self.position(prompt_id) {
                    Some(i) => {
                        let p: Prompt = self.prompts[i].clone();
                        if p.status == PromptStatus::Completed || p.status == PromptStatus::Failed {
                            self.add_prompt(
                                p.text,
                                p.cwd,
                                p.mode,
                                p.worktree,
                                p.tags,
                                now_ms,
                                uuid,
                                out,
                            );
                            emit(out, Effect::Dispatch);
                        }
                    },
                    None => {},
                }
            },
            ClientRequest::ResumePrompt { prompt_id } => {
                match self.position(prompt_id) {
                    Some(i) => {
                        self.resume_prompt(i, now_ms, out);
                        emit(out, Effect::Dispatch);
                    },
                    None => {},
                }
            },
            ClientRequest::DeletePrompt { prompt_id } => {
                self.delete_prompt(prompt_id, out);
            },
            ClientRequest::MovePromptUp { prompt_id } => {
                match self.position(prompt_id) {
                    Some(i) => {
                        self.move_prompt_up(i, now_ms, out);
                    },
                    None => {},
                }
            },
            ClientRequest::MovePromptDown { prompt_id } => {
                match self.position(prompt_id) {
                    Some(i) => {
                        self.move_prompt_down(i, now_ms, out);
                    },
                    None => {},
                }
            },
            ClientRequest::SetPromptMode { prompt_id, mode } => {
                let new_mode: PromptMode = PromptMode::from_mode_str(mode.as_str());
                match self.position(prompt_id) {
                    Some(i) => {
                        if self.prompts[i].status == PromptStatus::Pending {
                            self.prompts[i].mode = new_mode;
                            proof {
                                assert(self@.prompts =~= step.state.prompts);
                                assert(self@ =~= step.state);
                            }
                            self.persist_prompt(i, out);
                            self.announce_update(i, now_ms, out);
                        }
                    },
                    None => {},
                }
            },
            _ => {},
        }
        proof {
            assert(self@ =~= step.state);
            assert(effect_views(out@) =~= e0 + step.effects);
        }
    }

    /// A request that is about workers.
    fn worker_request(
        &mut self,
        req: ClientRequest,
        session_id: usize,
        now_ms: u64,
        uuid: String,
        out: &mut Vec<Effect>,
    )
        requires
            about_worker(req),
        ensures
            final(self)@ == handled(old(self)@, req, session_id, now_ms, uuid@).state,
            effect_views(final(out)@) == effect_views(old(out)@) + handled(
                old(self)@,
                req,
                session_id,
                now_ms,
                uuid@,
            ).effects,
    {
        let ghost s0 = self@;
        let ghost e0 = effect_views(out@);
        let ghost step = handled(s0, req, session_id, now_ms, uuid@);
        match req {
            ClientRequest::SendInput { prompt_id, text } => {
                self.send_input(prompt_id, text, session_id, now_ms, Ghost(uuid@), out);
            },
            ClientRequest::SendBytes { prompt_id, data } => {
                if self.worker_inputs.contains(&prompt_id) {
                    emit(out, Effect::Input { prompt_id, input: WorkerInput::SendBytes(data) });
                }
            },
            ClientRequest::KillWorker { prompt_id } => {
                self.kill_worker(prompt_id, out);
            },
            ClientRequest::ResizePty { prompt_id, cols, rows } => {
                if self.pty_handles.contains_key(&prompt_id) {
                    emit(out, Effect::Resize { prompt_id, cols, rows });
                }
            },
            ClientRequest::SetMaxWorkers(n) => {
                self.max_workers = if n < 1 {
                    1
                } else if n > 20 {
                    20
                } else {
                    n
                };
                emit(
                    out,
                    Effect::Broadcast(DaemonEvent::MaxWorkersChanged { count: self.max_workers }),
                );
                emit(out, Effect::Dispatch);
            },
            ClientRequest::SetDefaultMode { mode } => {
                self.default_mode = PromptMode::from_mode_str(mode.as_str());
            },
            _ => {},
        }
        proof {
            assert(self@ =~= step.state);
            assert(effect_views(out@) =~= e0 + step.effects);
        }
    }

    /// A request of a client that wants to know or to be told something.
    fn session_request(
        &mut self,
        req: ClientRequest,
        session_id: usize,
        now_ms: u64,
        uuid: String,
        out: &mut Vec<Effect>,
    )
        requires
            about_session(req),
        ensures
            final(self)@ == handled(old(self)@, req, session_id, now_ms, uuid@).state,
            effect_views(final(out)@) == effect_views(old(out)@) + handled(
                old(self)@,
                req,
                session_id,
                now_ms,
                uuid@,
            ).effects,
    {
        let ghost s0 = self@;
        let ghost e0 = effect_views(out@);
        let ghost step = handled(s0, req, session_id, now_ms, uuid@);
        match req {
            ClientRequest::GetState => {
                let state: DaemonState = self.to_daemon_state(now_ms);
                emit(
                    out,
                    Effect::SendTo { session_id, event: DaemonEvent::StateSnapshot(state) },
                );
            },
            ClientRequest::GetPromptOutput { prompt_id } => {
                let full_text: String = match self.position(prompt_id) {
                    Some(i) => match &self.prompts[i].output {
                        Some(o) => o.clone(),
                        None => String::new(),
                    },
                    None => String::new(),
                };
                emit(
                    out,
                    Effect::SendTo {
                        session_id,
                        event: DaemonEvent::PromptOutput { prompt_id, full_text },
                    },
                );
            },
            ClientRequest::Subscribe => {
                self.sessions.set_subscribed(session_id, true);
                emit(out, Effect::ReplayPty { session_id });
                emit(out, Effect::SendTo { session_id, event: DaemonEvent::Subscribed });
            },
            ClientRequest::Unsubscribe => {
                self.sessions.set_subscribed(session_id, false);
                emit(out, Effect::SendTo { session_id, event: DaemonEvent::Unsubscribed });
            },
            ClientRequest::Ping => {
                emit(out, Effect::SendTo { session_id, event: DaemonEvent::Pong });
            },
            ClientRequest::Shutdown => {
                let message: String = text::owned("Shutdown initiated");
                emit(
                    out,
                    Effect::SendTo { session_id, event: DaemonEvent::StoreOpComplete { message } },
                );
            },
            _ => {},
        }
        proof {
            assert(self@ =~= step.state);
            assert(effect_views(out@) =~= e0 + step.effects);
        }
    }

    /// A request that is about the prompts as a whole.
    fn store_request(
        &mut self,
        req: ClientRequest,
        session_id: usize,
        now_ms: u64,
        uuid: String,
        out: &mut Vec<Effect>,
    )
        requires
            about_store(req),
        ensures
            final(self)@ == handled(old(self)@, req, session_id, now_ms, uuid@).state,
            effect_views(final(out)@) == effect_views(old(out)@) + handled(
                old(self)@,
                req,
                session_id,
                now_ms,
                uuid@,
            ).effects,
    {
        let ghost s0 = self@;
        let ghost e0 = effect_views(out@);
        let ghost step = handled(s0, req, session_id, now_ms, uuid@);
        match req {
            ClientRequest::StoreList => {
                let prompts: Vec<PromptInfo> = self.prompt_infos(now_ms);
                emit(
                    out,
                    Effect::SendTo { session_id, event: DaemonEvent::StoreListResult { prompts } },
                );
            },
            ClientRequest::StoreCount => {
                let (pending, running, completed, failed): (usize, usize, usize, usize) =
                    self.count_prompts();
                emit(
                    out,
                    Effect::SendTo {
                        session_id,
                        event: DaemonEvent::StoreCountResult {
                            pending,
                            running,
                            completed,
                            failed,
                        },
                    },
                );
            },
            ClientRequest::StorePath => {
                let path: String = match &self.prompts_dir {
                    Some(d) => d.clone(),
                    None => String::new(),
                };
                emit(
                    out,
                    Effect::SendTo { session_id, event: DaemonEvent::StorePathResult { path } },
                );
            },
            ClientRequest::StoreDrop { filter } => {
                let count: usize = self.store_drop(filter.as_str(), out);
                let message: String = counted("Dropped ", count, " prompts");
                emit(
                    out,
                    Effect::SendTo { session_id, event: DaemonEvent::StoreOpComplete { message } },
                );
            },
            ClientRequest::StoreKeep { filter } => {
                let count: usize = self.store_keep(filter.as_str(), out);
                let message: String = counted("Kept matching, dropped ", count, " prompts");
                emit(
                    out,
                    Effect::SendTo { session_id, event: DaemonEvent::StoreOpComplete { message } },
                );
            },
            ClientRequest::CleanWorktrees => {
                let paths: Vec<String> = self.clean_worktrees();
                emit(out, Effect::CleanWorktrees { session_id, paths });
            },
            _ => {},
        }
        proof {
            assert(self@ =~= step.state);
            assert(effect_views(out@) =~= e0 + step.effects);
        }
    }

    /// Carry out a request of the client `session_id`. `uuid` is a fresh name
    /// for the file of a prompt that the request may add.
    pub fn handle_request(
        &mut self,
        req: ClientRequest,
        session_id: usize,
        now_ms: u64,
        uuid: String,
        out: &mut Vec<Effect>,
    )
        requires
            (req is SubmitPrompt || req is RetryPrompt) ==> old(self).next_id < usize::MAX,
        ensures
            final(self)@ == handled(old(self)@, req, session_id, now_ms, uuid@).state,
            effect_views(final(out)@) == effect_views(old(out)@) + handled(
                old(self)@,
                req,
                session_id,
                now_ms,
                uuid@,
            ).effects,
    {
        match req {
            ClientRequest::SubmitPrompt { .. }
            | ClientRequest::RetryPrompt { .. }
            | ClientRequest::ResumePrompt { .. }
            | ClientRequest::DeletePrompt { .. }
            | ClientRequest::MovePromptUp { .. }
            | ClientRequest::MovePromptDown { .. }
            | ClientRequest::SetPromptMode { .. } => {
                self.prompt_request(req, session_id, now_ms, uuid, out);
            },
            ClientRequest::SendInput { .. }
            | ClientRequest::SendBytes { .. }
            | ClientRequest::KillWorker { .. }
            | ClientRequest::ResizePty { .. }
            | ClientRequest::SetMaxWorkers(_)
            | ClientRequest::SetDefaultMode { .. } => {
                self.worker_request(req, session_id, now_ms, uuid, out);
            },
            ClientRequest::GetState
            | ClientRequest::GetPromptOutput { .. }
            | ClientRequest::Subscribe
            | ClientRequest::Unsubscribe
            | ClientRequest::Ping
            | ClientRequest::Shutdown => {
                self.session_request(req, session_id, now_ms, uuid, out);
            },
            ClientRequest::StoreList
            | ClientRequest::StoreCount
            | ClientRequest::StorePath
            | ClientRequest::StoreDrop { .. }
            | ClientRequest::StoreKeep { .. }
            | ClientRequest::CleanWorktrees => {
                self.store_request(req, session_id, now_ms, uuid, out);
            },
        }
    }
}

impl Orchestrator {
    /// Where worktrees are removed by themselves, remove that of a prompt.
    fn maybe_cleanup_worktree(&mut self, prompt_id: usize, out: &mut Vec<Effect>)
        ensures
            final(self)@ == worktree_cleaned(old(self)@, prompt_id).state,
            effect_views(final(out)@) == effect_views(old(out)@) + worktree_cleaned(
                old(self)@,
                prompt_id,
            ).effects,
    {
        let ghost s0 = self@;
        let ghost e0 = effect_views(out@);
        let ghost step = worktree_cleaned(s0, prompt_id);
        if self.worktree_cleanup == WorktreeCleanup::Auto {
            match self.position(prompt_id) {
                Some(i) => {
                    let taken: Option<String> = self.prompts[i].worktree_path.take();
                    match taken {
                        Some(path) => {
                            proof {
                                assert(self@.prompts =~= step.state.prompts);
                                assert(self@ =~= step.state);
                            }
                            self.persist_prompt(i, out);
                            emit(out, Effect::RemoveWorktree { path });
                        },
                        None => {
                            proof {
                                assert(self@.prompts =~= s0.prompts);
                            }
                        },
                    }
                },
                None => {},
            }
        }
        proof {
            assert(self@ =~= step.state);
            assert(effect_views(out@) =~= e0 + step.effects);
        }
    }

    /// A worker is gone: close what belonged to it, and tell the clients.
    fn forget_worker(
        &mut self,
        prompt_id: usize,
        told: DaemonEvent,
        now_ms: u64,
        out: &mut Vec<Effect>,
    )
        ensures
            final(self)@ == worker_gone(old(self)@, prompt_id, told@, now_ms).state,
            effect_views(final(out)@) == effect_views(old(out)@) + worker_gone(
                old(self)@,
                prompt_id,
                told@,
                now_ms,
            ).effects,
    {
        let ghost s0 = self@;
        let ghost e0 = effect_views(out@);
        let ghost step = worker_gone(s0, prompt_id, told@, now_ms);
        self.maybe_cleanup_worktree(prompt_id, out);
        self.pty_handles.remove(&prompt_id);
        self.worker_inputs.remove(&prompt_id);
        self.active_workers = self.active_workers.saturating_sub(1);
        proof {
            assert(self@ =~= step.state);
        }
        emit(out, Effect::Broadcast(told));
        match self.position(prompt_id) {
            Some(i) => {
                self.announce_update(i, now_ms, out);
            },
            None => {},
        }
        emit(
            out,
            Effect::Broadcast(DaemonEvent::ActiveWorkersChanged { count: self.active_workers }),
        );
        proof {
            assert(effect_views(out@) =~= e0 + step.effects);
        }
    }

    /// A worker wrote something.
    fn output_chunk(&mut self, prompt_id: usize, text: String, out: &mut Vec<Effect>)
        ensures
            ({
                let step = applied(
                    old(self)@,
                    WorkerMessage::OutputChunk { prompt_id, text },
                    0,
                    Seq::empty(),
                );
                final(self)@ == step.state && effect_views(final(out)@) == effect_views(old(out)@)
                    + step.effects
            }),
    {
        let ghost s0 = self@;
        let ghost e0 = effect_views(out@);
        let ghost step = applied(
            s0,
            WorkerMessage::OutputChunk { prompt_id, text },
            0,
            Seq::empty(),
        );
        match self.position(prompt_id) {
            Some(i) => {
                if self.prompts[i].status == PromptStatus::Idle {
                    self.prompts[i].status = PromptStatus::Running;
                }
                self.append_output(i, text.as_str());
                proof {
                    assert(self@.prompts =~= step.state.prompts);
                }
            },
            None => {},
        }
        emit(out, Effect::Broadcast(DaemonEvent::OutputChunk { prompt_id, text }));
        proof {
            assert(self@ =~= step.state);
            assert(effect_views(out@) =~= e0 + step.effects);
        }
    }

    /// A worker has done what it was last asked to, and waits.
    fn turn_complete(&mut self, prompt_id: usize, now_ms: u64, out: &mut Vec<Effect>)
        ensures
            ({
                let step = applied(
                    old(self)@,
                    WorkerMessage::TurnComplete { prompt_id },
                    now_ms,
                    Seq::empty(),
                );
                final(self)@ == step.state && effect_views(final(out)@) == effect_views(old(out)@)
                    + step.effects
            }),
    {
        let ghost s0 = self@;
        let ghost e0 = effect_views(out@);
        let ghost step = applied(
            s0,
            WorkerMessage::TurnComplete { prompt_id },
            now_ms,
            Seq::empty(),
        );
        match self.position(prompt_id) {
            Some(i) => {
                if self.prompts[i].status == PromptStatus::Running {
                    let prompt: &mut Prompt = &mut self.prompts[i];
                    prompt.status = PromptStatus::Idle;
                    match &mut prompt.output {
                        Some(o) => {
                            o.push('\n');
                        },
                        None => {},
                    }
                    proof {
                        assert(self@.prompts =~= step.state.prompts);
                        assert(self@ =~= step.state);
                    }
                    self.persist_prompt(i, out);
                }
                emit(out, Effect::Broadcast(DaemonEvent::TurnComplete { prompt_id }));
                self.announce_update(i, now_ms, out);
            },
            None => {
                emit(out, Effect::Broadcast(DaemonEvent::TurnComplete { prompt_id }));
            },
        }
        proof {
            assert(self@ =~= step.state);
            assert(effect_views(out@) =~= e0 + step.effects);
        }
    }

    /// The output of a worker's terminal is at its end. `screen` is what the
    /// terminal shows.
    fn pty_eof(&mut self, prompt_id: usize, screen: String, out: &mut Vec<Effect>)
        ensures
            ({
                let step = applied(
                    old(self)@,
                    WorkerMessage::PtyEof { prompt_id },
                    0,
                    screen@,
                );
                final(self)@ == step.state && effect_views(final(out)@) == effect_views(old(out)@)
                    + step.effects
            }),
    {
        let ghost s0 = self@;
        let ghost e0 = effect_views(out@);
        let ghost step = applied(s0, WorkerMessage::PtyEof { prompt_id }, 0, screen@);
        let (has_pty, child): (bool, bool) = match self.pty_handles.get(&prompt_id) {
            Some(c) => (true, *c),
            None => (false, false),
        };
        if has_pty && !screen.as_str().is_empty() {
            match self.position(prompt_id) {
                Some(i) => {
                    self.prompts[i].output = Some(screen);
                    proof {
                        assert(self@.prompts =~= step.state.prompts);
                    }
                },
                None => {},
            }
        }
        if child {
            self.pty_handles.insert(prompt_id, false);
            emit(out, Effect::AwaitExit { prompt_id });
        } else {
            emit(out, Effect::ReportFinished { prompt_id });
        }
        proof {
            assert(self@ =~= step.state);
            assert(effect_views(out@) =~= e0 + step.effects);
        }
    }

    /// A worker finished. `screen` is what its terminal shows.
    fn finished(
        &mut self,
        prompt_id: usize,
        exit_code: Option<i32>,
        now_ms: u64,
        screen: String,
        out: &mut Vec<Effect>,
    )
        ensures
            ({
                let step = applied(
                    old(self)@,
                    WorkerMessage::Finished { prompt_id, exit_code },
                    now_ms,
                    screen@,
                );
                final(self)@ == step.state && effect_views(final(out)@) == effect_views(old(out)@)
                    + step.effects
            }),
    {
        let ghost s0 = self@;
        let ghost e0 = effect_views(out@);
        let ghost step = applied(
            s0,
            WorkerMessage::Finished { prompt_id, exit_code },
            now_ms,
            screen@,
        );
        match self.position(prompt_id) {
            Some(i) => {
                let has_pty: bool = self.pty_handles.contains_key(&prompt_id);
                let prompt: &mut Prompt = &mut self.prompts[i];
                if prompt.output.is_none() && has_pty && !screen.as_str().is_empty() {
                    prompt.output = Some(screen);
                }
                match &mut prompt.output {
                    Some(o) => {
                        if !text::ends_with_char(o.as_str(), '\n') {
                            o.push('\n');
                        }
                    },
                    None => {},
                }
                prompt.mark_finished(now_ms);
                match exit_code {
                    Some(code) => {
                        if code == 0 {
                            prompt.status = PromptStatus::Completed;
                        } else {
                            prompt.status = PromptStatus::Failed;
                            if prompt.error.is_none() {
                                let mut error: String = text::owned("Exit code: ");
                                error.append(text::signed_number(code as i64).as_str());
                                prompt.error = Some(error);
                            }
                        }
                    },
                    None => {
                        prompt.status = PromptStatus::Completed;
                    },
                }
                let ghost shown = if s0.prompts[i as int].output is None
                    && s0.pty_handles.contains_key(prompt_id) && screen@.len() > 0 {
                    PromptView { output: Some(screen@), ..s0.prompts[i as int] }
                } else {
                    s0.prompts[i as int]
                };
                let ghost p = finished_prompt(shown, exit_code, now_ms);
                proof {
                    assert(self.prompts@[i as int]@ == p);
                    assert(self@.prompts =~= with_prompt(s0, i as int, p).prompts);
                    assert(self@ =~= with_prompt(s0, i as int, p));
                }
                self.persist_prompt(i, out);
                let ghost e1 = effect_views(out@);
                self.forget_worker(
                    prompt_id,
                    DaemonEvent::WorkerFinished { prompt_id, exit_code },
                    now_ms,
                    out,
                );
                proof {
                    assert(effect_views(out@) =~= e0 + step.effects);
                }
            },
            None => {
                self.forget_worker(
                    prompt_id,
                    DaemonEvent::WorkerFinished { prompt_id, exit_code },
                    now_ms,
                    out,
                );
            },
        }
    }

    /// A worktree was made, or could not be.
    fn worktree_created(
        &mut self,
        prompt_id: usize,
        result: Result<String, String>,
        now_ms: u64,
        out: &mut Vec<Effect>,
    )
        ensures
            ({
                let step = applied(
                    old(self)@,
                    WorkerMessage::WorktreeCreated { prompt_id, result },
                    now_ms,
                    Seq::empty(),
                );
                final(self)@ == step.state && effect_views(final(out)@) == effect_views(old(out)@)
                    + step.effects
            }),
    {
        let ghost s0 = self@;
        let ghost e0 = effect_views(out@);
        let ghost step = applied(
            s0,
            WorkerMessage::WorktreeCreated { prompt_id, result },
            now_ms,
            Seq::empty(),
        );
        self.worktree_creating.remove(&prompt_id);
        match result {
            Ok(path) => {
                match self.position(prompt_id) {
                    Some(i) => {
                        self.prompts[i].worktree_path = Some(path);
                        proof {
                            assert(self@.prompts =~= step.state.prompts);
                            assert(self@ =~= step.state);
                        }
                        self.persist_prompt(i, out);
                    },
                    None => {},
                }
            },
            Err(e) => {
                let mut error: String = text::owned("Failed to create worktree: ");
                error.append(e.as_str());
                match self.position(prompt_id) {
                    Some(i) => {
                        self.prompts[i].status = PromptStatus::Failed;
                        self.prompts[i].error = Some(error.clone());
                        proof {
                            assert(self@.prompts =~= step.state.prompts);
                            assert(self@ =~= step.state);
                        }
                        self.persist_prompt(i, out);
                        emit(out, Effect::Broadcast(DaemonEvent::WorkerError { prompt_id, error }));
                        self.announce_update(i, now_ms, out);
                    },
                    None => {
                        emit(out, Effect::Broadcast(DaemonEvent::WorkerError { prompt_id, error }));
                    },
                }
            },
        }
        proof {
            assert(self@ =~= step.state);
            assert(effect_views(out@) =~= e0 + step.effects);
        }
    }

    /// A worker could not be started.
    fn spawn_error(&mut self, prompt_id: usize, error: String, now_ms: u64, out: &mut Vec<Effect>)
        ensures
            ({
                let step = applied(
                    old(self)@,
                    WorkerMessage::SpawnError { prompt_id, error },
                    now_ms,
                    Seq::empty(),
                );
                final(self)@ == step.state && effect_views(final(out)@) == effect_views(old(out)@)
                    + step.effects
            }),
    {
        let ghost s0 = self@;
        let ghost e0 = effect_views(out@);
        let ghost step = applied(
            s0,
            WorkerMessage::SpawnError { prompt_id, error },
            now_ms,
            Seq::empty(),
        );
        match self.position(prompt_id) {
            Some(i) => {
                let prompt: &mut Prompt = &mut self.prompts[i];
                prompt.status = PromptStatus::Failed;
                prompt.mark_finished(now_ms);
                prompt.error = Some(error.clone());
                let ghost p = PromptView {
                    status: PromptStatus::Failed,
                    finished_at_ms: Some(now_ms),
                    error: Some(error@),
                    ..s0.prompts[i as int]
                };
                proof {
                    assert(self@.prompts =~= with_prompt(s0, i as int, p).prompts);
                    assert(self@ =~= with_prompt(s0, i as int, p));
                }
                self.persist_prompt(i, out);
                self.forget_worker(
                    prompt_id,
                    DaemonEvent::WorkerError { prompt_id, error },
                    now_ms,
                    out,
                );
                proof {
                    assert(effect_views(out@) =~= e0 + step.effects);
                }
            },
            None => {
                self.forget_worker(
                    prompt_id,
                    DaemonEvent::WorkerError { prompt_id, error },
                    now_ms,
                    out,
                );
            },
        }
    }

    /// Take in a message of a worker. `screen` is the text that the terminal
    /// of its prompt shows, if it has one.
    pub fn apply_message(
        &mut self,
        msg: WorkerMessage,
        now_ms: u64,
        screen: String,
        out: &mut Vec<Effect>,
    )
        ensures
            final(self)@ == applied(old(self)@, msg, now_ms, screen@).state,
            effect_views(final(out)@) == effect_views(old(out)@) + applied(
                old(self)@,
                msg,
                now_ms,
                screen@,
            ).effects,
    {
        let ghost s0 = self@;
        let ghost e0 = effect_views(out@);
        let ghost step = applied(s0, msg, now_ms, screen@);
        match msg {
            WorkerMessage::OutputChunk { prompt_id, text } => {
                self.output_chunk(prompt_id, text, out);
            },
            WorkerMessage::TurnComplete { prompt_id } => {
                self.turn_complete(prompt_id, now_ms, out);
            },
            WorkerMessage::PtyUpdate { prompt_id } => {
                emit(out, Effect::Broadcast(DaemonEvent::PtyUpdate { prompt_id }));
                proof {
                    assert(effect_views(out@) =~= e0 + step.effects);
                }
            },
            WorkerMessage::SessionId { prompt_id, session_id } => {
                match self.position(prompt_id) {
                    Some(i) => {
                        self.prompts[i].session_id = Some(session_id.clone());
                        proof {
                            assert(self@.prompts =~= step.state.prompts);
                            assert(self@ =~= step.state);
                        }
                        self.persist_prompt(i, out);
                    },
                    None => {},
                }
                emit(out, Effect::Broadcast(DaemonEvent::SessionId { prompt_id, session_id }));
                proof {
                    assert(effect_views(out@) =~= e0 + step.effects);
                }
            },
            WorkerMessage::PtyEof { prompt_id } => {
                self.pty_eof(prompt_id, screen, out);
            },
            WorkerMessage::Finished { prompt_id, exit_code } => {
                self.finished(prompt_id, exit_code, now_ms, screen, out);
            },
            WorkerMessage::WorktreeCreated { prompt_id, result } => {
                self.worktree_created(prompt_id, result, now_ms, out);
            },
            WorkerMessage::SpawnError { prompt_id, error } => {
                self.spawn_error(prompt_id, error, now_ms, out);
            },
        }
    }
}

// ---------------------------------------------------------------------
// Starting workers
// ---------------------------------------------------------------------

/// What starting the next worker takes.
#[derive(Debug, PartialEq)]
pub enum DispatchStep {
    /// There is no room, or no work.
    Idle,
    /// The prompt at `index` wants a worktree and has none: find out whether
    /// its directory (or, where it names none, the current one) is a git
    /// repository. If so, [`Orchestrator::create_worktree`] is next; if not,
    /// [`Orchestrator::start_worker`].
    CheckRepo { index: usize, cwd: Option<String> },
    /// Start a worker on the prompt at `index`.
    Start { index: usize },
}

/// What a worker is started with.
#[derive(Debug, PartialEq)]
pub struct WorkerSpawn {
    pub prompt_id: usize,
    pub prompt_text: String,
    pub cwd: Option<String>,
    pub mode: PromptMode,
    /// The session to take up again; empty where it is not known.
    pub resume_session_id: Option<String>,
    /// Columns and rows of its terminal.
    pub pty_size: (u16, u16),
}

/// What starting the next worker takes in this state.
pub open spec fn step_is(r: DispatchStep, s: OrchestratorView) -> bool {
    match next_waiting(s, 0) {
        Some(i) => if s.active_workers >= s.max_workers {
            r is Idle
        } else if s.prompts[i].worktree && s.prompts[i].worktree_path is None {
            r matches DispatchStep::CheckRepo { index, cwd } && index == i && text::text_option(cwd)
                == s.prompts[i].cwd
        } else {
            r matches DispatchStep::Start { index } && index == i
        },
        None => r is Idle,
    }
}

/// What a worker on this prompt is started with.
pub open spec fn spawn_is(r: WorkerSpawn, p: PromptView) -> bool {
    &&& r.prompt_id == p.id
    &&& r.prompt_text@ == p.text
    &&& text::text_option(r.cwd) == worker_cwd(p)
    &&& r.mode == p.mode
    &&& text::text_option(r.resume_session_id) == worker_session(p)
    &&& r.pty_size == (80u16, 24u16)
}

impl Orchestrator {
    /// The first prompt that a worker could be started on.
    pub fn next_pending_prompt_index(&self) -> (r: Option<usize>)
        ensures
            match next_waiting(self@, 0) {
                Some(i) => r matches Some(k) && k == i,
                None => r is None,
            },
            r matches Some(k) ==> k < self.prompts.len(),
    {
        let mut i: usize = 0;
        while i < self.prompts.len()
            invariant
                i <= self.prompts.len(),
                next_waiting(self@, 0) == next_waiting(self@, i as int),
            decreases self.prompts.len() - i,
        {
            proof {
                assert(self@.prompts[i as int] == self.prompts@[i as int]@);
            }
            if self.prompts[i].status == PromptStatus::Pending && !self.worktree_creating.contains(
                &self.prompts[i].id,
            ) {
                return Some(i);
            }
            i = i + 1;
        }
        None
    }

    /// What starting the next worker takes. To be asked again after every
    /// step, until there is nothing to do.
    pub fn dispatch_workers(&self) -> (r: DispatchStep)
        ensures
            step_is(r, self@),
            r matches DispatchStep::CheckRepo { index, .. } ==> index < self.prompts.len(),
            r matches DispatchStep::Start { index } ==> index < self.prompts.len(),
    {
        if self.active_workers >= self.max_workers {
            return DispatchStep::Idle;
        }
        match self.next_pending_prompt_index() {
            None => DispatchStep::Idle,
            Some(index) => {
                let p: &Prompt = &self.prompts[index];
                if p.worktree && p.worktree_path.is_none() {
                    DispatchStep::CheckRepo { index, cwd: p.cwd.clone() }
                } else {
                    DispatchStep::Start { index }
                }
            },
        }
    }

    /// The directory of the prompt at `index` is the git repository `repo`:
    /// have a worktree made of it, and hold the prompt back until then.
    pub fn create_worktree(&mut self, index: usize, repo: String, out: &mut Vec<Effect>)
        requires
            index < old(self).prompts.len(),
        ensures
            final(self)@ == worktree_awaited(old(self)@, index as int, repo@).state,
            effect_views(final(out)@) == effect_views(old(out)@) + worktree_awaited(
                old(self)@,
                index as int,
                repo@,
            ).effects,
    {
        let ghost e0 = effect_views(out@);
        let ghost step = worktree_awaited(self@, index as int, repo@);
        let prompt_id: usize = self.prompts[index].id;
        self.worktree_creating.insert(prompt_id);
        emit(out, Effect::CreateWorktree { prompt_id, repo });
        proof {
            assert(effect_views(out@) =~= e0 + step.effects);
        }
    }

    /// Start a worker on the prompt at `index`; returns what to start it with.
    pub fn start_worker(&mut self, index: usize, now_ms: u64, out: &mut Vec<Effect>) -> (r:
        WorkerSpawn)
        requires
            index < old(self).prompts.len(),
            old(self).active_workers < old(self).max_workers,
        ensures
            final(self)@ == worker_started(old(self)@, index as int, now_ms).state,
            effect_views(final(out)@) == effect_views(old(out)@) + worker_started(
                old(self)@,
                index as int,
                now_ms,
            ).effects,
            spawn_is(r, old(self)@.prompts[index as int]),
    {
        let ghost s0 = self@;
        let ghost e0 = effect_views(out@);
        let ghost step = worker_started(s0, index as int, now_ms);
        let p: &Prompt = &self.prompts[index];
        let spawn = WorkerSpawn {
            prompt_id: p.id,
            prompt_text: p.text.clone(),
            cwd: if p.worktree && p.worktree_path.is_some() {
                p.worktree_path.clone()
            } else {
                p.cwd.clone()
            },
            mode: p.mode,
            resume_session_id: if p.resume {
                match &p.session_id {
                    Some(id) => Some(id.clone()),
                    None => Some(String::new()),
                }
            } else {
                None
            },
            pty_size: (80, 24),
        };
        let prompt_id: usize = p.id;
        let prompt: &mut Prompt = &mut self.prompts[index];
        prompt.status = PromptStatus::Running;
        prompt.mark_started(now_ms);
        proof {
            let q = PromptView {
                status: PromptStatus::Running,
                started_at_ms: Some(now_ms),
                ..s0.prompts[index as int]
            };
            let t = with_prompt(s0, index as int, q);
            assert(self@.prompts =~= t.prompts);
            assert(self@ =~= t);
        }
        self.persist_prompt(index, out);
        emit(out, Effect::Broadcast(DaemonEvent::WorkerStarted { prompt_id }));
        self.announce_update(index, now_ms, out);
        self.active_workers = self.active_workers + 1;
        emit(
            out,
            Effect::Broadcast(DaemonEvent::ActiveWorkersChanged { count: self.active_workers }),
        );
        proof {
            assert(self@ =~= step.state);
            assert(effect_views(out@) =~= e0 + step.effects);
        }
        spawn
    }

    /// Take in what came of starting a worker.
    pub fn worker_spawned(
        &mut self,
        prompt_id: usize,
        result: SpawnResult,
        now_ms: u64,
        out: &mut Vec<Effect>,
    )
        ensures
            final(self)@ == spawn_outcome(old(self)@, prompt_id, result, now_ms).state,
            effect_views(final(out)@) == effect_views(old(out)@) + spawn_outcome(
                old(self)@,
                prompt_id,
                result,
                now_ms,
            ).effects,
    {
        let ghost s0 = self@;
        let ghost e0 = effect_views(out@);
        let ghost step = spawn_outcome(s0, prompt_id, result, now_ms);
        match result {
            SpawnResult::Pty => {
                self.worker_inputs.insert(prompt_id);
                self.pty_handles.insert(prompt_id, true);
            },
            SpawnResult::OneShot => {},
            SpawnResult::Error(e) => {
                self.active_workers = self.active_workers.saturating_sub(1);
                match self.position(prompt_id) {
                    Some(i) => {
                        let prompt: &mut Prompt = &mut self.prompts[i];
                        prompt.status = PromptStatus::Failed;
                        prompt.mark_finished(now_ms);
                        prompt.error = Some(e.clone());
                        proof {
                            assert(self@.prompts =~= step.state.prompts);
                            assert(self@ =~= step.state);
                        }
                        self.persist_prompt(i, out);
                        emit(
                            out,
                            Effect::Broadcast(DaemonEvent::WorkerError { prompt_id, error: e }),
                        );
                        self.announce_update(i, now_ms, out);
                    },
                    None => {},
                }
                emit(
                    out,
                    Effect::Broadcast(
                        DaemonEvent::ActiveWorkersChanged { count: self.active_workers },
                    ),
                );
            },
        }
        proof {
            assert(self@ =~= step.state);
            assert(effect_views(out@) =~= e0 + step.effects);
        }
    }

    /// The answer to a client that asked for worktrees to be removed, when
    /// `count` of them are gone.
    pub fn worktrees_removed(&self, session_id: usize, count: usize, out: &mut Vec<Effect>)
        ensures
            effect_views(final(out)@) == effect_views(old(out)@) + store_answer(
                session_id,
                "Cleaned "@ + text::decimal(count as nat) + " worktrees"@,
            ),
    {
        let ghost e0 = effect_views(out@);
        let message: String = counted("Cleaned ", count, " worktrees");
        emit(out, Effect::SendTo { session_id, event: DaemonEvent::StoreOpComplete { message } });
        proof {
            assert(effect_views(out@) =~= e0 + store_answer(
                session_id,
                "Cleaned "@ + text::decimal(count as nat) + " worktrees"@,
            ));
        }
    }

    /// Stop all workers.
    pub fn shutdown(&mut self, out: &mut Vec<Effect>)
        ensures
            final(self)@ == (OrchestratorView {
                worker_inputs: Set::empty(),
                pty_handles: Map::empty(),
                ..old(self)@
            }),
            exists|es: Seq<EffectView>|
                effect_views(final(out)@) == effect_views(old(out)@) + es && #[trigger] all_stopped(
                    es,
                    old(self)@.worker_inputs,
                    old(self)@.pty_handles,
                ),
    {
        let ghost s0 = self@;
        let ghost e0 = effect_views(out@);
        let ghost mut a: Seq<usize> = Seq::empty();
        proof {
            assert(stop_effects(a) =~= Seq::<EffectView>::empty());
            assert(e0 + stop_effects(a) =~= e0);
        }
        for id in it: self.worker_inputs.iter()
            invariant
                it.seq().unref().to_set() == s0.worker_inputs,
                it.seq().unref().no_duplicates(),
                a == it.seq().unref().take(it.index() as int),
                it.index() == it.seq().len() ==> a.no_duplicates() && a.to_set()
                    == s0.worker_inputs,
                effect_views(out@) == e0 + stop_effects(a),
        {
            let ghost before = a;
            emit(out, Effect::Input { prompt_id: *id, input: WorkerInput::Kill });
            proof {
                a = before.push(*id);
                assert(a =~= it.seq().unref().take(it.index() + 1));
                assert(it.index() + 1 == it.seq().len() ==> a =~= it.seq().unref());
                assert(effect_views(out@) =~= e0 + stop_effects(a));
            }
        }
        let ghost e1 = effect_views(out@);
        let ghost mut b: Seq<usize> = Seq::empty();
        let ghost processes = Set::new(
            |id: usize| s0.pty_handles.contains_key(id) && s0.pty_handles[id],
        );
        proof {
            assert(a.no_duplicates() && a.to_set() == s0.worker_inputs);
            assert(kill_effects(b) =~= Seq::<EffectView>::empty());
            assert(e1 + kill_effects(b) =~= e1);
        }
        for id in it: self.pty_handles.keys()
            invariant
                self@ == s0,
                it.seq().unref().to_set() == s0.pty_handles.dom(),
                it.seq().unref().no_duplicates(),
                b.no_duplicates(),
                forall|x: usize| #[trigger]
                    b.contains(x) <==> it.seq().unref().take(it.index() as int).contains(x)
                        && s0.pty_handles[x],
                processes == Set::new(
                    |id: usize| s0.pty_handles.contains_key(id) && s0.pty_handles[id],
                ),
                it.index() == it.seq().len() ==> b.to_set() == processes,
                effect_views(out@) == e1 + kill_effects(b),
        {
            let ghost before = b;
            let ghost keys = it.seq().unref();
            let ghost n = it.index() as int;
            let child: bool = match self.pty_handles.get(id) {
                Some(c) => *c,
                None => false,
            };
            if child {
                emit(out, Effect::KillChild { prompt_id: *id });
                proof {
                    b = before.push(*id);
                    assert(effect_views(out@) =~= e1 + kill_effects(b));
                }
            }
            proof {
                assert(keys[n] == *id);
                assert(keys.to_set().contains(*id));
                assert forall|x: usize| #[trigger] keys.take(n + 1).contains(x) <==> (keys.take(
                    n,
                ).contains(x) || x == *id) by {
                    if keys.take(n).contains(x) {
                        let k = keys.take(n).index_of(x);
                        assert(keys.take(n + 1)[k] == x);
                    }
                    assert(keys.take(n + 1)[n] == *id);
                    if keys.take(n + 1).contains(x) && x != *id {
                        let k = keys.take(n + 1).index_of(x);
                        assert(keys.take(n)[k] == x);
                    }
                }
                assert(!keys.take(n).contains(*id)) by {
                    if keys.take(n).contains(*id) {
                        let k = keys.take(n).index_of(*id);
                        assert(keys[k] == keys[n]);
                    }
                }
                assert(!before.contains(*id));
                assert forall|x: usize| #[trigger] b.contains(x) <==> keys.take(n + 1).contains(x)
                    && s0.pty_handles[x] by {
                    if before.contains(x) {
                        let k = before.index_of(x);
                        assert(b[k] == x);
                    }
                    if child {
                        assert(b[before.len() as int] == *id);
                    }
                    if b.contains(x) && x != *id {
                        let k = b.index_of(x);
                        assert(before[k] == x);
                    }
                    assert(before.contains(x) <==> keys.take(n).contains(x) && s0.pty_handles[x]);
                }
                assert(n + 1 == keys.len() ==> keys.take(n + 1) =~= keys);
                assert forall|x: usize| n + 1 == keys.len() implies (#[trigger] b.to_set().contains(x)
                    <==> processes.contains(x)) by {
                    assert(b.contains(x) <==> keys.take(n + 1).contains(x) && s0.pty_handles[x]);
                    assert(keys.to_set().contains(x) <==> keys.contains(x));
                    assert(keys.to_set() == s0.pty_handles.dom());
                    assert(s0.pty_handles.contains_key(x) <==> keys.contains(x));
                    assert(b.to_set().contains(x) <==> b.contains(x));
                    assert(keys.take(n + 1) == keys);
                }
                assert(n + 1 == keys.len() ==> b.to_set() =~= processes);
            }
        }
        proof {
            let es = stop_effects(a) + kill_effects(b);
            assert(effect_views(out@) =~= e0 + es);
            assert(all_stopped(es, s0.worker_inputs, s0.pty_handles));
        }
        self.worker_inputs.clear();
        self.pty_handles.clear();
        proof {
            assert(self@ =~= (OrchestratorView {
                worker_inputs: Set::empty(),
                pty_handles: Map::empty(),
                ..s0
            }));
        }
    }
}

/// Whether `filter` selects prompts of this status.
fn status_selected(filter: &str, status: PromptStatus) -> (r: bool)
    ensures
        r == selects(filter@, status),
{
    if text::same(filter, "completed") {
        status == PromptStatus::Completed
    } else if text::same(filter, "failed") {
        status == PromptStatus::Failed
    } else if text::same(filter, "pending") {
        status == PromptStatus::Pending
    } else if text::same(filter, "running") {
        status == PromptStatus::Running || status == PromptStatus::Idle
    } else {
        false
    }
}

/// `head`, a number, and `tail`.
fn counted(head: &str, n: usize, tail: &str) -> (r: String)
    ensures
        r@ == head@ + text::decimal(n as nat) + tail@,
{
    let mut out: String = text::owned(head);
    out.append(text::number(n as u128).as_str());
    out.append(tail);
    out
}

} // verus!
