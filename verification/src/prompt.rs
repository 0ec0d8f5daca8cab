//! Prompts: what a user asked for, and how far a worker has come with it.

use vstd::prelude::*;
use vstd::string::*;

use crate::text;

verus! {

/// How a prompt is run.
#[derive(Debug, Clone, Copy, PartialEq, Eq, Structural)]
pub enum PromptMode {
    /// In a terminal that takes further input.
    Interactive,
    /// Once, without further input.
    OneShot,
}

/// How far a prompt has come.
#[derive(Debug, Clone, Copy, PartialEq, Eq, Structural)]
pub enum PromptStatus {
    Pending,
    Running,
    Idle,
    Completed,
    Failed,
}

/// The mode that a word names; a word that names none means interactive.
pub open spec fn mode_named(s: Seq<char>) -> PromptMode {
    if s == "one-shot"@ || s == "one_shot"@ || s == "oneshot"@ {
        PromptMode::OneShot
    } else {
        PromptMode::Interactive
    }
}

/// The word for a mode.
pub open spec fn mode_label(m: PromptMode) -> Seq<char> {
    match m {
        PromptMode::Interactive => "interactive"@,
        PromptMode::OneShot => "one-shot"@,
    }
}

/// The word for a status.
pub open spec fn status_name(s: PromptStatus) -> Seq<char> {
    match s {
        PromptStatus::Pending => "Pending"@,
        PromptStatus::Running => "Running"@,
        PromptStatus::Idle => "Idle"@,
        PromptStatus::Completed => "Completed"@,
        PromptStatus::Failed => "Failed"@,
    }
}

impl PromptMode {
    /// The mode that a word names.
    pub fn from_mode_str(s: &str) -> (r: PromptMode)
        ensures
            r == mode_named(s@),
    {
        if text::same(s, "one-shot") || text::same(s, "one_shot") || text::same(s, "oneshot") {
            PromptMode::OneShot
        } else {
            PromptMode::Interactive
        }
    }

    /// The word for this mode.
    pub fn label(self) -> (r: &'static str)
        ensures
            r@ == mode_label(self),
    {
        match self {
            PromptMode::Interactive => "interactive",
            PromptMode::OneShot => "one-shot",
        }
    }
}

impl PromptStatus {
    /// The word for this status.
    pub fn name(self) -> (r: &'static str)
        ensures
            r@ == status_name(self),
    {
        match self {
            PromptStatus::Pending => "Pending",
            PromptStatus::Running => "Running",
            PromptStatus::Idle => "Idle",
            PromptStatus::Completed => "Completed",
            PromptStatus::Failed => "Failed",
        }
    }
}

/// A mode is read back from its word.
pub proof fn mode_label_names_mode(m: PromptMode)
    ensures
        mode_named(mode_label(m)) == m,
{
    reveal_strlit("interactive");
    reveal_strlit("one-shot");
    reveal_strlit("one_shot");
    reveal_strlit("oneshot");
    assert("interactive"@.len() == 11);
    assert("one-shot"@.len() == 8);
    assert("one_shot"@.len() == 8);
    assert("oneshot"@.len() == 7);
}

/// One prompt.
#[derive(Debug, PartialEq)]
pub struct Prompt {
    pub id: usize,
    pub text: String,
    pub cwd: Option<String>,
    pub mode: PromptMode,
    pub status: PromptStatus,
    pub output: Option<String>,
    pub error: Option<String>,
    /// Whether it is to run in a worktree of its own.
    pub worktree: bool,
    pub worktree_path: Option<String>,
    pub session_id: Option<String>,
    pub tags: Vec<String>,
    /// Its place in the queue: smaller goes first.
    pub queue_rank: u64,
    pub seen: bool,
    /// Whether its session is to be taken up again.
    pub resume: bool,
    /// Milliseconds since the start of 1970.
    pub started_at_ms: Option<u64>,
    /// Milliseconds since the start of 1970.
    pub finished_at_ms: Option<u64>,
    /// The name of its file.
    pub uuid: String,
}

/// What a [`Prompt`] holds.
pub ghost struct PromptView {
    pub id: usize,
    pub text: Seq<char>,
    pub cwd: Option<Seq<char>>,
    pub mode: PromptMode,
    pub status: PromptStatus,
    pub output: Option<Seq<char>>,
    pub error: Option<Seq<char>>,
    pub worktree: bool,
    pub worktree_path: Option<Seq<char>>,
    pub session_id: Option<Seq<char>>,
    pub tags: Seq<Seq<char>>,
    pub queue_rank: u64,
    pub seen: bool,
    pub resume: bool,
    pub started_at_ms: Option<u64>,
    pub finished_at_ms: Option<u64>,
    pub uuid: Seq<char>,
}

impl View for Prompt {
    type V = PromptView;

    open spec fn view(&self) -> PromptView {
        PromptView {
            id: self.id,
            text: self.text@,
            cwd: text::text_option(self.cwd),
            mode: self.mode,
            status: self.status,
            output: text::text_option(self.output),
            error: text::text_option(self.error),
            worktree: self.worktree,
            worktree_path: text::text_option(self.worktree_path),
            session_id: text::text_option(self.session_id),
            tags: text::texts(self.tags@),
            queue_rank: self.queue_rank,
            seen: self.seen,
            resume: self.resume,
            started_at_ms: self.started_at_ms,
            finished_at_ms: self.finished_at_ms,
            uuid: self.uuid@,
        }
    }
}

/// What the prompts of a list hold.
pub open spec fn prompt_views(ps: Seq<Prompt>) -> Seq<PromptView> {
    ps.map_values(|p: Prompt| p@)
}

impl Clone for Prompt {
    fn clone(&self) -> (r: Self)
        ensures
            r@ == self@,
    {
        Prompt {
            id: self.id,
            text: self.text.clone(),
            cwd: self.cwd.clone(),
            mode: self.mode,
            status: self.status,
            output: self.output.clone(),
            error: self.error.clone(),
            worktree: self.worktree,
            worktree_path: self.worktree_path.clone(),
            session_id: self.session_id.clone(),
            tags: text::owned_list(&self.tags),
            queue_rank: self.queue_rank,
            seen: self.seen,
            resume: self.resume,
            started_at_ms: self.started_at_ms,
            finished_at_ms: self.finished_at_ms,
            uuid: self.uuid.clone(),
        }
    }
}

/// A prompt that nothing has happened to.
pub open spec fn fresh_prompt(
    id: usize,
    words: Seq<char>,
    cwd: Option<Seq<char>>,
    mode: PromptMode,
    uuid: Seq<char>,
) -> PromptView {
    PromptView {
        id,
        text: words,
        cwd,
        mode,
        status: PromptStatus::Pending,
        output: None,
        error: None,
        worktree: false,
        worktree_path: None,
        session_id: None,
        tags: Seq::empty(),
        queue_rank: 0,
        seen: false,
        resume: false,
        started_at_ms: None,
        finished_at_ms: None,
        uuid,
    }
}

/// How long a prompt has run, or ran.
pub open spec fn elapsed(p: PromptView, now_ms: u64) -> Option<u64> {
    match p.started_at_ms {
        None => None,
        Some(start) => {
            let end = match p.finished_at_ms {
                Some(f) => f,
                None => now_ms,
            };
            Some(if end < start {
                0
            } else {
                (end - start) as u64
            })
        },
    }
}

impl Prompt {
    /// A prompt that nothing has happened to.
    pub fn new(
        id: usize,
        text: String,
        cwd: Option<String>,
        mode: PromptMode,
        uuid: String,
    ) -> (r: Prompt)
        ensures
            r@ == fresh_prompt(id, text@, text::text_option(cwd), mode, uuid@),
    {
        let r = Prompt {
            id,
            text,
            cwd,
            mode,
            status: PromptStatus::Pending,
            output: None,
            error: None,
            worktree: false,
            worktree_path: None,
            session_id: None,
            tags: Vec::new(),
            queue_rank: 0,
            seen: false,
            resume: false,
            started_at_ms: None,
            finished_at_ms: None,
            uuid,
        };
        proof {
            assert(r@.tags =~= Seq::<Seq<char>>::empty());
        }
        r
    }

    /// Note when a worker started.
    pub fn mark_started(&mut self, now_ms: u64)
        ensures
            final(self)@ == (PromptView { started_at_ms: Some(now_ms), ..old(self)@ }),
    {
        self.started_at_ms = Some(now_ms);
    }

    /// Note when its worker came to an end.
    pub fn mark_finished(&mut self, now_ms: u64)
        ensures
            final(self)@ == (PromptView { finished_at_ms: Some(now_ms), ..old(self)@ }),
    {
        self.finished_at_ms = Some(now_ms);
    }

    /// How many milliseconds it has run, or ran.
    pub fn elapsed_ms(&self, now_ms: u64) -> (r: Option<u64>)
        ensures
            r == elapsed(self@, now_ms),
    {
        match self.started_at_ms {
            None => None,
            Some(start) => {
                let end: u64 = match self.finished_at_ms {
                    Some(f) => f,
                    None => now_ms,
                };
                if end < start {
                    Some(0)
                } else {
                    Some(end - start)
                }
            },
        }
    }
}

} // verus!
