//! What the orchestrator asks its caller to do.

use vstd::prelude::*;

use super::worker::{WorkerInput, WorkerInputView};
use crate::prompt::{Prompt, PromptView};
use crate::protocol::{DaemonEvent, DaemonEventView};
use crate::text;

verus! {

/// What the caller is to do.
#[derive(Debug, PartialEq)]
pub enum Effect {
    /// Send to every client that listens.
    Broadcast(DaemonEvent),
    /// Send to one client.
    SendTo { session_id: usize, event: DaemonEvent },
    /// Write a prompt to its file.
    Save(Prompt),
    /// Delete the oldest prompt files but for this many.
    Prune { keep: usize },
    /// Delete the file of a prompt.
    DeleteFile { uuid: String },
    /// Send to a worker.
    Input { prompt_id: usize, input: WorkerInput },
    /// Kill the process behind a terminal.
    KillChild { prompt_id: usize },
    /// Wait for the process behind a terminal, and report that it finished.
    AwaitExit { prompt_id: usize },
    /// Report a worker as finished, with no exit code.
    ReportFinished { prompt_id: usize },
    /// Make a worktree of this repository, and report what came of it.
    CreateWorktree { prompt_id: usize, repo: String },
    /// Remove a worktree.
    RemoveWorktree { path: String },
    /// Change the size of a terminal.
    Resize { prompt_id: usize, cols: u16, rows: u16 },
    /// Send the recent output of every terminal to one client.
    ReplayPty { session_id: usize },
    /// Remove these worktrees, and tell one client how many went.
    CleanWorktrees { session_id: usize, paths: Vec<String> },
    /// Start workers while there is room and work.
    Dispatch,
}

/// What an [`Effect`] holds.
pub ghost enum EffectView {
    Broadcast(DaemonEventView),
    SendTo { session_id: usize, event: DaemonEventView },
    Save(PromptView),
    Prune { keep: usize },
    DeleteFile { uuid: Seq<char> },
    Input { prompt_id: usize, input: WorkerInputView },
    KillChild { prompt_id: usize },
    AwaitExit { prompt_id: usize },
    ReportFinished { prompt_id: usize },
    CreateWorktree { prompt_id: usize, repo: Seq<char> },
    RemoveWorktree { path: Seq<char> },
    Resize { prompt_id: usize, cols: u16, rows: u16 },
    ReplayPty { session_id: usize },
    CleanWorktrees { session_id: usize, paths: Seq<Seq<char>> },
    Dispatch,
}

impl View for Effect {
    type V = EffectView;

    open spec fn view(&self) -> EffectView {
        match *self {
            Effect::Broadcast(event) => EffectView::Broadcast(event@),
            Effect::SendTo { session_id, event } => EffectView::SendTo {
                session_id,
                event: event@,
            },
            Effect::Save(p) => EffectView::Save(p@),
            Effect::Prune { keep } => EffectView::Prune { keep },
            Effect::DeleteFile { uuid } => EffectView::DeleteFile { uuid: uuid@ },
            Effect::Input { prompt_id, input } => EffectView::Input { prompt_id, input: input@ },
            Effect::KillChild { prompt_id } => EffectView::KillChild { prompt_id },
            Effect::AwaitExit { prompt_id } => EffectView::AwaitExit { prompt_id },
            Effect::ReportFinished { prompt_id } => EffectView::ReportFinished { prompt_id },
            Effect::CreateWorktree { prompt_id, repo } => EffectView::CreateWorktree {
                prompt_id,
                repo: repo@,
            },
            Effect::RemoveWorktree { path } => EffectView::RemoveWorktree { path: path@ },
            Effect::Resize { prompt_id, cols, rows } => EffectView::Resize {
                prompt_id,
                cols,
                rows,
            },
            Effect::ReplayPty { session_id } => EffectView::ReplayPty { session_id },
            Effect::CleanWorktrees { session_id, paths } => EffectView::CleanWorktrees {
                session_id,
                paths: text::texts(paths@),
            },
            Effect::Dispatch => EffectView::Dispatch,
        }
    }
}

/// What the effects of a list hold.
pub open spec fn effect_views(es: Seq<Effect>) -> Seq<EffectView> {
    es.map_values(|e: Effect| e@)
}

} // verus!
