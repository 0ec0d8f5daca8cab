//! Messages between the daemon and its clients.

use vstd::prelude::*;
use vstd::string::*;

use crate::prompt::{mode_named, status_name, PromptMode, PromptStatus};
use crate::text;

verus! {

/// Current protocol version, to be raised with every breaking change.
pub const PROTOCOL_VERSION: u32 = 1;

/// What a client asks of the daemon.
#[derive(Debug, Clone, PartialEq)]
pub enum ClientRequest {
    SubmitPrompt {
        text: String,
        cwd: Option<String>,
        mode: String,
        worktree: bool,
        tags: Vec<String>,
        /// Prompts that are to come first; for schedulers.
        depends_on: Vec<String>,
        /// Name of the worktree to share; for schedulers.
        worktree_id: Option<String>,
    },
    SendInput { prompt_id: usize, text: String },
    SendBytes { prompt_id: usize, data: Vec<u8> },
    KillWorker { prompt_id: usize },
    RetryPrompt { prompt_id: usize },
    ResumePrompt { prompt_id: usize },
    DeletePrompt { prompt_id: usize },
    MovePromptUp { prompt_id: usize },
    MovePromptDown { prompt_id: usize },
    SetMaxWorkers(usize),
    SetDefaultMode { mode: String },
    SetPromptMode { prompt_id: usize, mode: String },
    GetState,
    GetPromptOutput { prompt_id: usize },
    ResizePty { prompt_id: usize, cols: u16, rows: u16 },
    Subscribe,
    Unsubscribe,
    Ping,
    Shutdown,
    StoreList,
    StoreCount,
    StorePath,
    StoreDrop { filter: String },
    StoreKeep { filter: String },
    CleanWorktrees,
}

/// What the daemon tells its clients.
#[derive(Debug, Clone, PartialEq)]
pub enum DaemonEvent {
    PromptAdded(PromptInfo),
    PromptUpdated(PromptInfo),
    PromptRemoved { prompt_id: usize },
    OutputChunk { prompt_id: usize, text: String },
    PromptOutput { prompt_id: usize, full_text: String },
    PtyUpdate { prompt_id: usize },
    WorkerStarted { prompt_id: usize },
    WorkerFinished { prompt_id: usize, exit_code: Option<i32> },
    WorkerError { prompt_id: usize, error: String },
    TurnComplete { prompt_id: usize },
    SessionId { prompt_id: usize, session_id: String },
    MaxWorkersChanged { count: usize },
    ActiveWorkersChanged { count: usize },
    StateSnapshot(DaemonState),
    StoreListResult { prompts: Vec<PromptInfo> },
    StoreCountResult { pending: usize, running: usize, completed: usize, failed: usize },
    StorePathResult { path: String },
    StoreOpComplete { message: String },
    Pong,
    Error { message: String },
    /// Recent terminal output, for clients that join late.
    PtyReplay { prompt_id: usize, data: Vec<u8> },
    /// Terminal output is forwarded from here on.
    Subscribed,
    /// Terminal output is not forwarded any more.
    Unsubscribed,
}

/// A prompt as clients see it.
#[derive(Debug, Clone, PartialEq)]
pub struct PromptInfo {
    pub id: usize,
    pub text: String,
    pub cwd: Option<String>,
    pub mode: String,
    pub status: String,
    pub output: Option<String>,
    pub error: Option<String>,
    pub worktree: bool,
    pub worktree_path: Option<String>,
    pub session_id: Option<String>,
    pub tags: Vec<String>,
    pub queue_rank: u64,
    pub seen: bool,
    pub resume: bool,
    /// Length of the output in bytes.
    pub output_len: usize,
    pub elapsed_ms: Option<u64>,
    pub uuid: String,
    pub has_pty: bool,
}

/// The daemon's state as clients see it.
#[derive(Debug, Clone, PartialEq)]
pub struct DaemonState {
    pub prompts: Vec<PromptInfo>,
    pub max_workers: usize,
    pub active_workers: usize,
    pub default_mode: String,
    /// Protocol version of the daemon.
    pub protocol_version: u32,
}

/// What a [`PromptInfo`] holds.
pub ghost struct PromptInfoView {
    pub id: usize,
    pub text: Seq<char>,
    pub cwd: Option<Seq<char>>,
    pub mode: Seq<char>,
    pub status: Seq<char>,
    pub output: Option<Seq<char>>,
    pub error: Option<Seq<char>>,
    pub worktree: bool,
    pub worktree_path: Option<Seq<char>>,
    pub session_id: Option<Seq<char>>,
    pub tags: Seq<Seq<char>>,
    pub queue_rank: u64,
    pub seen: bool,
    pub resume: bool,
    pub output_len: usize,
    pub elapsed_ms: Option<u64>,
    pub uuid: Seq<char>,
    pub has_pty: bool,
}

/// What a [`DaemonState`] holds.
pub ghost struct DaemonStateView {
    pub prompts: Seq<PromptInfoView>,
    pub max_workers: usize,
    pub active_workers: usize,
    pub default_mode: Seq<char>,
    pub protocol_version: u32,
}

/// What a [`DaemonEvent`] holds.
pub ghost enum DaemonEventView {
    PromptAdded(PromptInfoView),
    PromptUpdated(PromptInfoView),
    PromptRemoved { prompt_id: usize },
    OutputChunk { prompt_id: usize, text: Seq<char> },
    PromptOutput { prompt_id: usize, full_text: Seq<char> },
    PtyUpdate { prompt_id: usize },
    WorkerStarted { prompt_id: usize },
    WorkerFinished { prompt_id: usize, exit_code: Option<i32> },
    WorkerError { prompt_id: usize, error: Seq<char> },
    TurnComplete { prompt_id: usize },
    SessionId { prompt_id: usize, session_id: Seq<char> },
    MaxWorkersChanged { count: usize },
    ActiveWorkersChanged { count: usize },
    StateSnapshot(DaemonStateView),
    StoreListResult { prompts: Seq<PromptInfoView> },
    StoreCountResult { pending: int, running: int, completed: int, failed: int },
    StorePathResult { path: Seq<char> },
    StoreOpComplete { message: Seq<char> },
    Pong,
    Error { message: Seq<char> },
    PtyReplay { prompt_id: usize, data: Seq<u8> },
    Subscribed,
    Unsubscribed,
}

impl View for PromptInfo {
    type V = PromptInfoView;

    open spec fn view(&self) -> PromptInfoView {
        PromptInfoView {
            id: self.id,
            text: self.text@,
            cwd: text::text_option(self.cwd),
            mode: self.mode@,
            status: self.status@,
            output: text::text_option(self.output),
            error: text::text_option(self.error),
            worktree: self.worktree,
            worktree_path: text::text_option(self.worktree_path),
            session_id: text::text_option(self.session_id),
            tags: text::texts(self.tags@),
            queue_rank: self.queue_rank,
            seen: self.seen,
            resume: self.resume,
            output_len: self.output_len,
            elapsed_ms: self.elapsed_ms,
            uuid: self.uuid@,
            has_pty: self.has_pty,
        }
    }
}

/// What the entries of a list hold.
pub open spec fn info_views(infos: Seq<PromptInfo>) -> Seq<PromptInfoView> {
    infos.map_values(|i: PromptInfo| i@)
}

impl View for DaemonState {
    type V = DaemonStateView;

    open spec fn view(&self) -> DaemonStateView {
        DaemonStateView {
            prompts: info_views(self.prompts@),
            max_workers: self.max_workers,
            active_workers: self.active_workers,
            default_mode: self.default_mode@,
            protocol_version: self.protocol_version,
        }
    }
}

impl View for DaemonEvent {
    type V = DaemonEventView;

    open spec fn view(&self) -> DaemonEventView {
        match *self {
            DaemonEvent::PromptAdded(i) => DaemonEventView::PromptAdded(i@),
            DaemonEvent::PromptUpdated(i) => DaemonEventView::PromptUpdated(i@),
            DaemonEvent::PromptRemoved { prompt_id } => DaemonEventView::PromptRemoved {
                prompt_id,
            },
            DaemonEvent::OutputChunk { prompt_id, text } => DaemonEventView::OutputChunk {
                prompt_id,
                text: text@,
            },
            DaemonEvent::PromptOutput { prompt_id, full_text } => DaemonEventView::PromptOutput {
                prompt_id,
                full_text: full_text@,
            },
            DaemonEvent::PtyUpdate { prompt_id } => DaemonEventView::PtyUpdate { prompt_id },
            DaemonEvent::WorkerStarted { prompt_id } => DaemonEventView::WorkerStarted {
                prompt_id,
            },
            DaemonEvent::WorkerFinished { prompt_id, exit_code } => {
                DaemonEventView::WorkerFinished { prompt_id, exit_code }
            },
            DaemonEvent::WorkerError { prompt_id, error } => DaemonEventView::WorkerError {
                prompt_id,
                error: error@,
            },
            DaemonEvent::TurnComplete { prompt_id } => DaemonEventView::TurnComplete { prompt_id },
            DaemonEvent::SessionId { prompt_id, session_id } => DaemonEventView::SessionId {
                prompt_id,
                session_id: session_id@,
            },
            DaemonEvent::MaxWorkersChanged { count } => DaemonEventView::MaxWorkersChanged {
                count,
            },
            DaemonEvent::ActiveWorkersChanged { count } => DaemonEventView::ActiveWorkersChanged {
                count,
            },
            DaemonEvent::StateSnapshot(s) => DaemonEventView::StateSnapshot(s@),
            DaemonEvent::StoreListResult { prompts } => DaemonEventView::StoreListResult {
                prompts: info_views(prompts@),
            },
            DaemonEvent::StoreCountResult { pending, running, completed, failed } => {
                DaemonEventView::StoreCountResult {
                    pending: pending as int,
                    running: running as int,
                    completed: completed as int,
                    failed: failed as int,
                }
            },
            DaemonEvent::StorePathResult { path } => DaemonEventView::StorePathResult {
                path: path@,
            },
            DaemonEvent::StoreOpComplete { message } => DaemonEventView::StoreOpComplete {
                message: message@,
            },
            DaemonEvent::Pong => DaemonEventView::Pong,
            DaemonEvent::Error { message } => DaemonEventView::Error { message: message@ },
            DaemonEvent::PtyReplay { prompt_id, data } => DaemonEventView::PtyReplay {
                prompt_id,
                data: data@,
            },
            DaemonEvent::Subscribed => DaemonEventView::Subscribed,
            DaemonEvent::Unsubscribed => DaemonEventView::Unsubscribed,
        }
    }
}

/// The status that a word names; a word that names none means pending.
pub open spec fn status_named(s: Seq<char>) -> PromptStatus {
    if s == "Running"@ {
        PromptStatus::Running
    } else if s == "Idle"@ {
        PromptStatus::Idle
    } else if s == "Completed"@ {
        PromptStatus::Completed
    } else if s == "Failed"@ {
        PromptStatus::Failed
    } else {
        PromptStatus::Pending
    }
}

/// The sign for a status.
pub open spec fn symbol_of(s: PromptStatus) -> Seq<char> {
    match s {
        PromptStatus::Pending => "⏳"@,
        PromptStatus::Running => "🔄"@,
        PromptStatus::Idle => "💬"@,
        PromptStatus::Completed => "✅"@,
        PromptStatus::Failed => "❌"@,
    }
}

/// A status is read back from its word.
pub proof fn status_name_names_status(s: PromptStatus)
    ensures
        status_named(status_name(s)) == s,
{
    reveal_strlit("Pending");
    reveal_strlit("Running");
    reveal_strlit("Idle");
    reveal_strlit("Completed");
    reveal_strlit("Failed");
    assert("Pending"@[0] == 'P');
    assert("Running"@[0] == 'R');
    assert("Idle"@[0] == 'I');
    assert("Completed"@[0] == 'C');
    assert("Failed"@[0] == 'F');
}

impl PromptInfo {
    /// The status that `status` names.
    pub fn status_enum(&self) -> (r: PromptStatus)
        ensures
            r == status_named(self.status@),
    {
        let s: &str = self.status.as_str();
        if text::same(s, "Running") {
            PromptStatus::Running
        } else if text::same(s, "Idle") {
            PromptStatus::Idle
        } else if text::same(s, "Completed") {
            PromptStatus::Completed
        } else if text::same(s, "Failed") {
            PromptStatus::Failed
        } else {
            PromptStatus::Pending
        }
    }

    /// The mode that `mode` names.
    pub fn mode_enum(&self) -> (r: PromptMode)
        ensures
            r == mode_named(self.mode@),
    {
        PromptMode::from_mode_str(self.mode.as_str())
    }

    /// The sign for the status.
    pub fn status_symbol(&self) -> (r: &'static str)
        ensures
            r@ == symbol_of(status_named(self.status@)),
    {
        match self.status_enum() {
            PromptStatus::Pending => "⏳",
            PromptStatus::Running => "🔄",
            PromptStatus::Idle => "💬",
            PromptStatus::Completed => "✅",
            PromptStatus::Failed => "❌",
        }
    }
}

/// The prompt that a request submits.
#[verifier::ext_equal]
pub ghost struct Submission {
    pub text: Seq<char>,
    pub cwd: Option<Seq<char>>,
    pub mode: Seq<char>,
    pub worktree: bool,
    pub tags: Seq<Seq<char>>,
    pub depends_on: Seq<Seq<char>>,
    pub worktree_id: Option<Seq<char>>,
}

/// What a request submits, if it submits a prompt.
pub open spec fn submission(r: ClientRequest) -> Option<Submission> {
    match r {
        ClientRequest::SubmitPrompt {
            text,
            cwd,
            mode,
            worktree,
            tags,
            depends_on,
            worktree_id,
        } => Some(
            Submission {
                text: text@,
                cwd: text::text_option(cwd),
                mode: mode@,
                worktree,
                tags: text::texts(tags@),
                depends_on: text::texts(depends_on@),
                worktree_id: text::text_option(worktree_id),
            },
        ),
        _ => None,
    }
}

/// A word names the status that it is the word for; any other word stands for a
/// prompt that waits. Each status has a sign of its own.
pub proof fn statuses_go_by_their_words(word: Seq<char>)
    ensures
        status_named(word) == PromptStatus::Running <==> word == "Running"@,
        status_named(word) == PromptStatus::Idle <==> word == "Idle"@,
        status_named(word) == PromptStatus::Completed <==> word == "Completed"@,
        status_named(word) == PromptStatus::Failed <==> word == "Failed"@,
        symbol_of(PromptStatus::Pending) == "⏳"@,
        symbol_of(PromptStatus::Running) == "🔄"@,
        symbol_of(PromptStatus::Idle) == "💬"@,
        symbol_of(PromptStatus::Completed) == "✅"@,
        symbol_of(PromptStatus::Failed) == "❌"@,
{
    status_name_names_status(PromptStatus::Running);
    status_name_names_status(PromptStatus::Idle);
    status_name_names_status(PromptStatus::Completed);
    status_name_names_status(PromptStatus::Failed);
}

} // verus!
