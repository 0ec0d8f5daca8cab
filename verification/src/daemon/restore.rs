//! The daemon as it starts: its settings, and the prompts that an earlier run
//! saved.

use std::collections::{HashMap, HashSet};

use vstd::prelude::*;
use vstd::string::*;

use super::effect::{effect_views, Effect, EffectView};
use super::model::OrchestratorView;
use super::orchestrator::Orchestrator;
use super::session::{ClientSession, SessionManager};
use crate::config::WorktreeCleanup;
use crate::keymap::TomlSettings;
use crate::prompt::{fresh_prompt, prompt_views, Prompt, PromptMode, PromptStatus, PromptView};
use crate::protocol::{DaemonEvent, DaemonEventView};
use crate::text;

verus! {

broadcast use vstd::std_specs::hash::group_hash_axioms;

/// A prompt as it was saved.
#[derive(Debug, PartialEq)]
pub struct SavedPrompt {
    /// The name of its file.
    pub uuid: String,
    pub prompt: String,
    /// Where it ran.
    pub context: Option<String>,
    pub mode: String,
    pub state: String,
    pub queue_rank: u64,
    pub session_id: Option<String>,
    pub worktree: Option<bool>,
    pub worktree_path: Option<String>,
    pub tags: Vec<String>,
}

/// A saved prompt, restored under the number `id`. It was finished, and is not
/// new to anybody.
pub open spec fn restored(p: SavedPrompt, id: usize) -> PromptView {
    let mode = if p.mode@ == "one_shot"@ {
        PromptMode::OneShot
    } else {
        PromptMode::Interactive
    };
    PromptView {
        status: if p.state@ == "failed"@ {
            PromptStatus::Failed
        } else {
            PromptStatus::Completed
        },
        worktree: p.worktree == Some(true),
        worktree_path: text::text_option(p.worktree_path),
        session_id: text::text_option(p.session_id),
        tags: text::texts(p.tags@),
        queue_rank: p.queue_rank,
        seen: true,
        ..fresh_prompt(id, p.prompt@, text::text_option(p.context), mode, p.uuid@)
    }
}

/// Saved prompts, restored under the numbers from one on.
pub open spec fn all_restored(saved: Seq<SavedPrompt>) -> Seq<PromptView> {
    Seq::new(saved.len(), |i: int| restored(saved[i], (i + 1) as usize))
}

/// A clone of an optional string.
fn owned_option(s: &Option<String>) -> (r: Option<String>)
    ensures
        text::text_option(r) == text::text_option(*s),
{
    match s {
        Some(t) => Some(t.clone()),
        None => None,
    }
}

/// A saved prompt, restored under the number `id`.
fn restore(p: &SavedPrompt, id: usize) -> (r: Prompt)
    ensures
        r@ == restored(*p, id),
{
    let mode: PromptMode = if text::same(p.mode.as_str(), "one_shot") {
        PromptMode::OneShot
    } else {
        PromptMode::Interactive
    };
    let mut prompt: Prompt = Prompt::new(
        id,
        p.prompt.clone(),
        owned_option(&p.context),
        mode,
        p.uuid.clone(),
    );
    prompt.queue_rank = p.queue_rank;
    prompt.session_id = owned_option(&p.session_id);
    prompt.worktree = match p.worktree {
        Some(b) => b,
        None => false,
    };
    prompt.worktree_path = owned_option(&p.worktree_path);
    prompt.tags = text::owned_list(&p.tags);
    prompt.status = if text::same(p.state.as_str(), "failed") {
        PromptStatus::Failed
    } else {
        PromptStatus::Completed
    };
    prompt.seen = true;
    prompt
}

/// How many saved prompts are kept.
pub open spec fn saved_limit(settings: TomlSettings) -> usize {
    match settings.max_saved_prompts {
        Some(n) => n,
        None => 100,
    }
}

/// The state of a daemon that just started.
pub open spec fn started(settings: TomlSettings, dir: Option<Seq<char>>, saved: Seq<SavedPrompt>) -> OrchestratorView {
    let prompts = if dir is Some {
        all_restored(saved)
    } else {
        Seq::empty()
    };
    OrchestratorView {
        prompts,
        next_id: (prompts.len() + 1) as usize,
        max_workers: 3,
        active_workers: 0,
        default_mode: PromptMode::Interactive,
        worker_inputs: Set::empty(),
        pty_handles: Map::empty(),
        sessions: Seq::<ClientSession>::empty(),
        next_session: 1,
        worktree_creating: Set::empty(),
        max_saved_prompts: saved_limit(settings),
        prompts_dir: dir,
        worktree_cleanup: if text::text_option(settings.worktree_cleanup) == Some("auto"@) {
            WorktreeCleanup::Auto
        } else {
            WorktreeCleanup::Manual
        },
    }
}

impl Orchestrator {
    /// A daemon that just started, with the prompts saved in `prompts_dir`;
    /// the files of all but the newest of them are to be deleted.
    pub fn new(
        settings: &TomlSettings,
        prompts_dir: Option<String>,
        saved: &Vec<SavedPrompt>,
        out: &mut Vec<Effect>,
    ) -> (r: Orchestrator)
        requires
            saved.len() < usize::MAX,
        ensures
            r@ == started(*settings, text::text_option(prompts_dir), saved@),
            effect_views(final(out)@) == effect_views(old(out)@) + (if prompts_dir is Some {
                seq![EffectView::Prune { keep: saved_limit(*settings) }]
            } else {
                Seq::empty()
            }),
    {
        let max_saved_prompts: usize = match settings.max_saved_prompts {
            Some(n) => n,
            None => 100,
        };
        let auto: bool = match &settings.worktree_cleanup {
            Some(s) => text::same(s.as_str(), "auto"),
            None => false,
        };
        let mut prompts: Vec<Prompt> = Vec::new();
        let mut next_id: usize = 1;
        let ghost all = all_restored(saved@);
        let ghost out0 = effect_views(out@);
        if prompts_dir.is_some() {
            let mut i: usize = 0;
            proof {
                assert(prompt_views(prompts@) =~= all.take(0));
            }
            while i < saved.len()
                invariant
                    i <= saved.len(),
                    saved.len() < usize::MAX,
                    next_id == i + 1,
                    all == all_restored(saved@),
                    prompt_views(prompts@) == all.take(i as int),
                decreases saved.len() - i,
            {
                let ghost ps = prompts@;
                prompts.push(restore(&saved[i], next_id));
                proof {
                    assert(prompt_views(prompts@) =~= prompt_views(ps).push(prompts@.last()@));
                    assert(all.take(i + 1) =~= all.take(i as int).push(all[i as int]));
                }
                next_id = next_id + 1;
                i = i + 1;
            }
            proof {
                assert(all.take(all.len() as int) =~= all);
            }
            let ghost o = out@;
            out.push(Effect::Prune { keep: max_saved_prompts });
            proof {
                assert(effect_views(out@) =~= effect_views(o).push(out@.last()@));
                assert(effect_views(out@) =~= out0 + seq![
                    EffectView::Prune { keep: saved_limit(*settings) },
                ]);
            }
        } else {
            proof {
                assert(prompt_views(prompts@) =~= Seq::<PromptView>::empty());
                assert(out0 + Seq::<EffectView>::empty() =~= out0);
            }
        }
        let r = Orchestrator {
            prompts,
            next_id,
            max_workers: 3,
            active_workers: 0,
            default_mode: PromptMode::Interactive,
            worker_inputs: HashSet::new(),
            pty_handles: HashMap::new(),
            sessions: SessionManager::new(),
            worktree_creating: HashSet::new(),
            max_saved_prompts,
            prompts_dir,
            worktree_cleanup: if auto {
                WorktreeCleanup::Auto
            } else {
                WorktreeCleanup::Manual
            },
        };
        proof {
            assert(r@.worker_inputs =~= Set::<usize>::empty());
            assert(r@.pty_handles =~= Map::<usize, bool>::empty());
            assert(r@.worktree_creating =~= Set::<usize>::empty());
        }
        r
    }

    /// The recent output of terminals, as events for one client. A terminal
    /// that put nothing out has none.
    pub fn pty_replays(session_id: usize, snapshots: Vec<(usize, Vec<u8>)>) -> (r: Vec<Effect>)
        ensures
            effect_views(r@) == replays(session_id, snapshots@),
    {
        let mut out: Vec<Effect> = Vec::new();
        let mut i: usize = 0;
        proof {
            assert(effect_views(out@) =~= replays(session_id, snapshots@.take(0)));
        }
        while i < snapshots.len()
            invariant
                i <= snapshots.len(),
                effect_views(out@) == replays(session_id, snapshots@.take(i as int)),
            decreases snapshots.len() - i,
        {
            let ghost o = out@;
            proof {
                assert(snapshots@.take(i + 1).drop_last() =~= snapshots@.take(i as int));
            }
            let (prompt_id, data) = &snapshots[i];
            if data.len() > 0 {
                let copy: Vec<u8> = data.clone();
                proof {
                    assert(copy@ =~= data@);
                }
                out.push(
                    Effect::SendTo {
                        session_id,
                        event: DaemonEvent::PtyReplay { prompt_id: *prompt_id, data: copy },
                    },
                );
                proof {
                    assert(effect_views(out@) =~= effect_views(o).push(out@.last()@));
                }
            }
            i = i + 1;
        }
        proof {
            assert(snapshots@.take(snapshots@.len() as int) =~= snapshots@);
        }
        out
    }
}

/// The recent output of terminals, as events for one client.
pub open spec fn replays(session_id: usize, snapshots: Seq<(usize, Vec<u8>)>) -> Seq<EffectView>
    decreases snapshots.len(),
{
    if snapshots.len() == 0 {
        Seq::empty()
    } else {
        let before = replays(session_id, snapshots.drop_last());
        let (prompt_id, data) = snapshots.last();
        if data@.len() == 0 {
            before
        } else {
            before.push(
                EffectView::SendTo {
                    session_id,
                    event: DaemonEventView::PtyReplay { prompt_id, data: data@ },
                },
            )
        }
    }
}

/// A daemon that starts has every saved prompt back, in the order of the files
/// and numbered from one on, with what was asked and where it stood. A prompt
/// that was saved as failed has failed; any other counts as completed, so that
/// nothing runs again by itself. It has not put out anything yet, and is new to
/// nobody.
pub proof fn saved_prompts_come_back(
    settings: TomlSettings,
    dir: Seq<char>,
    saved: Seq<SavedPrompt>,
    i: int,
)
    requires
        0 <= i < saved.len() < usize::MAX,
    ensures
        ({
            let s = started(settings, Some(dir), saved);
            let p = s.prompts[i];
            let q = saved[i];
            &&& s.prompts.len() == saved.len()
            &&& p.id == i + 1
            &&& s.next_id == saved.len() + 1
            &&& p.text == q.prompt@
            &&& p.cwd == text::text_option(q.context)
            &&& p.uuid == q.uuid@
            &&& p.tags == text::texts(q.tags@)
            &&& p.queue_rank == q.queue_rank
            &&& p.session_id == text::text_option(q.session_id)
            &&& p.worktree == (q.worktree == Some(true))
            &&& p.worktree_path == text::text_option(q.worktree_path)
            &&& p.mode == PromptMode::OneShot <==> q.mode@ == "one_shot"@
            &&& p.status == PromptStatus::Failed <==> q.state@ == "failed"@
            &&& p.status == PromptStatus::Completed <==> q.state@ != "failed"@
            &&& p.seen
            &&& !p.resume
            &&& p.output is None
            &&& p.error is None
            &&& p.started_at_ms is None
            &&& p.finished_at_ms is None
        }),
{
}

/// A daemon that starts has no worker, no client and nothing under way. It may
/// run three workers, keeps a hundred prompts unless told otherwise, and
/// removes worktrees by itself exactly where it is told to.
pub proof fn daemon_starts_at_rest(
    settings: TomlSettings,
    dir: Option<Seq<char>>,
    saved: Seq<SavedPrompt>,
)
    ensures
        ({
            let s = started(settings, dir, saved);
            &&& s.max_workers == 3
            &&& s.active_workers == 0
            &&& s.default_mode == PromptMode::Interactive
            &&& s.worker_inputs == Set::<usize>::empty()
            &&& s.pty_handles == Map::<usize, bool>::empty()
            &&& s.sessions.len() == 0
            &&& s.worktree_creating == Set::<usize>::empty()
            &&& settings.max_saved_prompts is None ==> s.max_saved_prompts == 100
            &&& settings.max_saved_prompts matches Some(n) ==> s.max_saved_prompts == n
            &&& s.prompts_dir == dir
            &&& dir is None ==> s.prompts.len() == 0 && s.next_id == 1
            &&& s.worktree_cleanup == WorktreeCleanup::Auto <==> (
            settings.worktree_cleanup matches Some(w) && w@ == "auto"@)
        }),
{
}

} // verus!
