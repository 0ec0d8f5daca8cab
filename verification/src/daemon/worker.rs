//! What workers report, what they are sent, and how they are started.

use vstd::prelude::*;
use vstd::string::*;

use crate::prompt::PromptMode;
use crate::text;

verus! {

/// What a worker reports.
#[derive(Debug, PartialEq)]
pub enum WorkerMessage {
    OutputChunk { prompt_id: usize, text: String },
    TurnComplete { prompt_id: usize },
    Finished { prompt_id: usize, exit_code: Option<i32> },
    SpawnError { prompt_id: usize, error: String },
    PtyUpdate { prompt_id: usize },
    SessionId { prompt_id: usize, session_id: String },
    /// The terminal's output is at its end; the process has not been waited
    /// for yet.
    PtyEof { prompt_id: usize },
    /// A worktree was made, or could not be.
    WorktreeCreated { prompt_id: usize, result: Result<String, String> },
}

/// What a worker is sent.
#[derive(Debug, PartialEq)]
pub enum WorkerInput {
    SendInput(String),
    SendBytes(Vec<u8>),
    Kill,
}

/// What a [`WorkerInput`] holds.
pub ghost enum WorkerInputView {
    SendInput(Seq<char>),
    SendBytes(Seq<u8>),
    Kill,
}

impl View for WorkerInput {
    type V = WorkerInputView;

    open spec fn view(&self) -> WorkerInputView {
        match *self {
            WorkerInput::SendInput(t) => WorkerInputView::SendInput(t@),
            WorkerInput::SendBytes(b) => WorkerInputView::SendBytes(b@),
            WorkerInput::Kill => WorkerInputView::Kill,
        }
    }
}

/// What came of starting a worker.
#[derive(Debug, PartialEq)]
pub enum SpawnResult {
    /// It runs in a terminal and takes input.
    Pty,
    /// It runs and takes no input.
    OneShot,
    /// It could not be started.
    Error(String),
}

/// What a [`WorkerMessage`] holds.
pub ghost enum WorkerMessageView {
    OutputChunk { prompt_id: usize, text: Seq<char> },
    TurnComplete { prompt_id: usize },
    Finished { prompt_id: usize, exit_code: Option<i32> },
    SpawnError { prompt_id: usize, error: Seq<char> },
    PtyUpdate { prompt_id: usize },
    SessionId { prompt_id: usize, session_id: Seq<char> },
    PtyEof { prompt_id: usize },
    WorktreeCreated { prompt_id: usize, result: Result<Seq<char>, Seq<char>> },
}

impl View for WorkerMessage {
    type V = WorkerMessageView;

    open spec fn view(&self) -> WorkerMessageView {
        match *self {
            WorkerMessage::OutputChunk { prompt_id, text } => WorkerMessageView::OutputChunk {
                prompt_id,
                text: text@,
            },
            WorkerMessage::TurnComplete { prompt_id } => WorkerMessageView::TurnComplete {
                prompt_id,
            },
            WorkerMessage::Finished { prompt_id, exit_code } => WorkerMessageView::Finished {
                prompt_id,
                exit_code,
            },
            WorkerMessage::SpawnError { prompt_id, error } => WorkerMessageView::SpawnError {
                prompt_id,
                error: error@,
            },
            WorkerMessage::PtyUpdate { prompt_id } => WorkerMessageView::PtyUpdate { prompt_id },
            WorkerMessage::SessionId { prompt_id, session_id } => WorkerMessageView::SessionId {
                prompt_id,
                session_id: session_id@,
            },
            WorkerMessage::PtyEof { prompt_id } => WorkerMessageView::PtyEof { prompt_id },
            WorkerMessage::WorktreeCreated { prompt_id, result } => {
                WorkerMessageView::WorktreeCreated {
                    prompt_id,
                    result: match result {
                        Ok(p) => Ok(p@),
                        Err(e) => Err(e@),
                    },
                }
            },
        }
    }
}

/// What a list of messages holds.
pub open spec fn message_views(ms: Seq<WorkerMessage>) -> Seq<WorkerMessageView> {
    ms.map_values(|m: WorkerMessage| m@)
}

// ---------------------------------------------------------------------
// Starting a worker
// ---------------------------------------------------------------------

/// The size of a terminal where none is asked for.
pub const DEFAULT_PTY_SIZE: (u16, u16) = (80, 24);

/// How a worker is to be started.
#[derive(Debug, PartialEq)]
pub enum SpawnPlan {
    /// In a terminal of this size.
    Terminal { cols: u16, rows: u16 },
    /// Without one, once.
    Once,
}

/// How a worker is to be started.
pub open spec fn plan_for(mode: PromptMode, pty_size: Option<(u16, u16)>) -> SpawnPlan {
    match mode {
        PromptMode::Interactive => match pty_size {
            Some((cols, rows)) => SpawnPlan::Terminal { cols, rows },
            None => SpawnPlan::Terminal { cols: 80, rows: 24 },
        },
        PromptMode::OneShot => SpawnPlan::Once,
    }
}

/// How a worker is to be started.
pub fn spawn_plan(mode: PromptMode, pty_size: Option<(u16, u16)>) -> (r: SpawnPlan)
    ensures
        r == plan_for(mode, pty_size),
{
    match mode {
        PromptMode::Interactive => {
            let (cols, rows): (u16, u16) = match pty_size {
                Some(s) => s,
                None => DEFAULT_PTY_SIZE,
            };
            SpawnPlan::Terminal { cols, rows }
        },
        PromptMode::OneShot => SpawnPlan::Once,
    }
}

/// What stands behind the prompt in the arguments for a worker that runs once.
pub open spec fn session_args(resume: Option<Seq<char>>, session: Option<Seq<char>>) -> Seq<
    Seq<char>,
> {
    match resume {
        Some(id) => if id.len() == 0 {
            seq!["--resume"@]
        } else {
            seq!["--resume"@, "--session-id"@, id]
        },
        None => match session {
            Some(id) => seq!["--session-id"@, id],
            None => Seq::empty(),
        },
    }
}

/// The arguments for a worker that runs once.
pub open spec fn once_args(
    prompt: Seq<char>,
    resume: Option<Seq<char>>,
    session: Option<Seq<char>>,
) -> Seq<Seq<char>> {
    seq![
        "-p"@,
        prompt,
        "--output-format"@,
        "stream-json"@,
        "--verbose"@,
        "--include-partial-messages"@,
        "--dangerously-skip-permissions"@,
    ] + session_args(resume, session)
}

/// The arguments for a worker that runs once: the prompt, and the session to
/// go on with or to begin.
pub fn oneshot_args(prompt_text: &str, resume: &Option<String>, session: &Option<String>) -> (r:
    Vec<String>)
    ensures
        text::texts(r@) == once_args(
            prompt_text@,
            text::text_option(*resume),
            text::text_option(*session),
        ),
{
    let mut args: Vec<String> = vec![
        text::owned("-p"),
        text::owned(prompt_text),
        text::owned("--output-format"),
        text::owned("stream-json"),
        text::owned("--verbose"),
        text::owned("--include-partial-messages"),
        text::owned("--dangerously-skip-permissions"),
    ];
    match resume {
        Some(id) => {
            args.push(text::owned("--resume"));
            if id.as_str().unicode_len() > 0 {
                args.push(text::owned("--session-id"));
                args.push(id.clone());
            }
        },
        None => {
            if let Some(id) = session {
                args.push(text::owned("--session-id"));
                args.push(id.clone());
            }
        },
    }
    proof {
        assert(text::texts(args@) =~= once_args(
            prompt_text@,
            text::text_option(*resume),
            text::text_option(*session),
        ));
    }
    args
}

/// The report of a worker whose program could not be started.
pub fn spawn_failed(prompt_id: usize, program: &str, error: &str) -> (r: WorkerMessage)
    ensures
        r@ == (WorkerMessageView::SpawnError {
            prompt_id,
            error: "Failed to spawn "@ + program@ + ": "@ + error@,
        }),
{
    WorkerMessage::SpawnError {
        prompt_id,
        error: text::cat4("Failed to spawn ", program, ": ", error),
    }
}

/// How a wait for a process ended.
#[derive(Debug, Clone, Copy, PartialEq, Eq, Structural)]
pub enum WaitResult {
    /// The process ended, with a code where it has one.
    Exited(Option<i32>),
    /// The wait failed.
    Failed,
}

/// The report of a worker that ended.
pub open spec fn exit_report(prompt_id: usize, wait: WaitResult) -> WorkerMessageView {
    WorkerMessageView::Finished {
        prompt_id,
        exit_code: match wait {
            WaitResult::Exited(code) => code,
            WaitResult::Failed => Some(1),
        },
    }
}

/// The report of a worker that ended.
pub fn worker_exited(prompt_id: usize, wait: WaitResult) -> (r: WorkerMessage)
    ensures
        r@ == exit_report(prompt_id, wait),
{
    let exit_code: Option<i32> = match wait {
        WaitResult::Exited(code) => code,
        WaitResult::Failed => Some(1),
    };
    WorkerMessage::Finished { prompt_id, exit_code }
}

// ---------------------------------------------------------------------
// The output of a worker that runs once
// ---------------------------------------------------------------------

/// The string at a place in a JSON text, if the text is JSON and there is a
/// string at that place.
pub uninterp spec fn json_string(line: Seq<char>, pointer: Seq<char>) -> Option<Seq<char>>;

/// `serde_json::from_str` into a `Value`, and of it the string that
/// `Value::pointer` and `Value::as_str` give. Which text is JSON is left to
/// `serde_json`; the same arguments always give the same result.
#[verifier::external_body]
fn json_string_at(line: &str, pointer: &str) -> (r: Option<String>)
    ensures
        text::text_option(r) == json_string(line@, pointer@),
{
    let value: serde_json::Value = serde_json::from_str(line).ok()?;
    Some(value.pointer(pointer)?.as_str()?.to_string())
}

/// What a line of output is, by the strings in it: the type, the session and
/// the text.
pub open spec fn stream_message(
    prompt_id: usize,
    kind: Option<Seq<char>>,
    session: Option<Seq<char>>,
    text: Option<Seq<char>>,
) -> Option<WorkerMessageView> {
    if kind == Some("system"@) {
        match session {
            Some(session_id) => Some(WorkerMessageView::SessionId { prompt_id, session_id }),
            None => None,
        }
    } else if kind == Some("stream_event"@) {
        match text {
            Some(text) => if text.len() == 0 {
                None
            } else {
                Some(WorkerMessageView::OutputChunk { prompt_id, text })
            },
            None => None,
        }
    } else {
        None
    }
}

/// What an optional message holds.
pub open spec fn message_option(m: Option<WorkerMessage>) -> Option<WorkerMessageView> {
    match m {
        Some(m) => Some(m@),
        None => None,
    }
}

/// Whether an optional string holds `s`.
fn is_text(t: &Option<String>, s: &str) -> (r: bool)
    ensures
        r == (text::text_option(*t) == Some(s@)),
{
    match t {
        Some(x) => text::same(x.as_str(), s),
        None => false,
    }
}

/// What a line of output is, by the strings in it.
pub fn line_message(
    prompt_id: usize,
    kind: &Option<String>,
    session: Option<String>,
    text: Option<String>,
) -> (r: Option<WorkerMessage>)
    ensures
        message_option(r) == stream_message(
            prompt_id,
            text::text_option(*kind),
            text::text_option(session),
            text::text_option(text),
        ),
{
    proof {
        reveal_strlit("system");
        reveal_strlit("stream_event");
        assert("system"@.len() != "stream_event"@.len());
    }
    if is_text(kind, "system") {
        return match session {
            Some(session_id) => Some(WorkerMessage::SessionId { prompt_id, session_id }),
            None => None,
        };
    }
    if is_text(kind, "stream_event") {
        if let Some(t) = text {
            if t.as_str().unicode_len() > 0 {
                return Some(WorkerMessage::OutputChunk { prompt_id, text: t });
            }
        }
    }
    None
}

/// What a line of output is.
pub open spec fn read_line(prompt_id: usize, line: Seq<char>) -> Option<WorkerMessageView> {
    if line.len() == 0 {
        None
    } else {
        stream_message(
            prompt_id,
            json_string(line, "/type"@),
            json_string(line, "/session_id"@),
            json_string(line, "/event/delta/text"@),
        )
    }
}

/// What some lines of output are, in their order.
pub open spec fn read_lines(prompt_id: usize, lines: Seq<Seq<char>>) -> Seq<WorkerMessageView>
    decreases lines.len(),
{
    if lines.len() == 0 {
        Seq::empty()
    } else {
        let before = read_lines(prompt_id, lines.drop_last());
        match read_line(prompt_id, lines.last()) {
            Some(m) => before.push(m),
            None => before,
        }
    }
}

/// What the lines of output of a worker that runs once are: its session, and
/// pieces of text. A line that is neither is passed over.
pub fn read_stream_json(prompt_id: usize, lines: &Vec<String>) -> (r: Vec<WorkerMessage>)
    ensures
        message_views(r@) == read_lines(prompt_id, text::texts(lines@)),
{
    let ghost all = text::texts(lines@);
    let mut out: Vec<WorkerMessage> = Vec::new();
    let mut i: usize = 0;
    proof {
        assert(message_views(out@) =~= read_lines(prompt_id, all.take(0)));
    }
    while i < lines.len()
        invariant
            i <= lines.len(),
            all == text::texts(lines@),
            message_views(out@) == read_lines(prompt_id, all.take(i as int)),
        decreases lines.len() - i,
    {
        let line: &str = lines[i].as_str();
        let ghost o = out@;
        proof {
            assert(all.take(i + 1).drop_last() =~= all.take(i as int));
            assert(all.take(i + 1).last() == lines@[i as int]@);
        }
        if line.unicode_len() > 0 {
            let kind: Option<String> = json_string_at(line, "/type");
            let session: Option<String> = json_string_at(line, "/session_id");
            let piece: Option<String> = json_string_at(line, "/event/delta/text");
            if let Some(m) = line_message(prompt_id, &kind, session, piece) {
                out.push(m);
                proof {
                    assert(message_views(out@) =~= message_views(o).push(out@.last()@));
                }
            }
        }
        i = i + 1;
    }
    proof {
        assert(all.take(all.len() as int) =~= all);
    }
    out
}

// ---------------------------------------------------------------------
// What workers are told, and what they tell
// ---------------------------------------------------------------------

/// Exactly the prompts that talk get a terminal, of the size that is asked for,
/// or of 80 columns and 24 rows.
pub proof fn talking_prompts_get_a_terminal(mode: PromptMode, pty_size: Option<(u16, u16)>)
    ensures
        plan_for(mode, pty_size) is Once <==> mode == PromptMode::OneShot,
        mode == PromptMode::Interactive ==> (plan_for(mode, pty_size) matches SpawnPlan::Terminal {
            cols,
            rows,
        } && (pty_size matches Some(s) ==> cols == s.0 && rows == s.1) && (pty_size is None
            ==> cols == 80 && rows == 24)),
{
}

/// A worker that ended is reported with its exit code; one that could not be
/// waited for, as having failed.
pub proof fn exits_are_reported(prompt_id: usize, wait: WaitResult)
    ensures
        exit_report(prompt_id, wait) matches WorkerMessageView::Finished {
            prompt_id: id,
            exit_code,
        } && id == prompt_id && (wait matches WaitResult::Exited(code) ==> exit_code == code) && (
        wait is Failed ==> exit_code == Some(1i32)),
{
}

/// A worker that runs once is given its prompt behind `-p`. Where a session is
/// resumed it is told so, with the session if that is known; otherwise it is
/// given the session to begin, if any, and never both.
pub proof fn once_workers_get_prompt_and_session(
    prompt: Seq<char>,
    resume: Option<Seq<char>>,
    session: Option<Seq<char>>,
)
    ensures
        ({
            let args = once_args(prompt, resume, session);
            &&& args.len() >= 7
            &&& args[0] == "-p"@
            &&& args[1] == prompt
            &&& args[2] == "--output-format"@
            &&& args[3] == "stream-json"@
            &&& args[4] == "--verbose"@
            &&& args[5] == "--include-partial-messages"@
            &&& args[6] == "--dangerously-skip-permissions"@
            &&& resume matches Some(id) ==> args[7] == "--resume"@ && (id.len() == 0 ==> args.len()
                == 8) && (id.len() > 0 ==> args.len() == 10 && args[8] == "--session-id"@ && args[9]
                == id)
            &&& resume is None && session is Some ==> args.len() == 9 && args[7]
                == "--session-id"@ && args[8] == session->0
            &&& resume is None && session is None ==> args.len() == 7
        }),
{
}

/// A line tells the session exactly where it is of the type `system` and names
/// one, and a piece of text exactly where it is of the type `stream_event` and
/// holds some. Any other line tells nothing.
pub proof fn lines_tell_session_or_text(
    prompt_id: usize,
    kind: Option<Seq<char>>,
    session: Option<Seq<char>>,
    words: Option<Seq<char>>,
)
    ensures
        ({
            let m = stream_message(prompt_id, kind, session, words);
            let names = kind == Some("system"@) && session is Some;
            let speaks = kind == Some("stream_event"@) && words is Some && words->0.len() > 0;
            &&& names ==> m == Some(
                WorkerMessageView::SessionId { prompt_id, session_id: session->0 },
            )
            &&& speaks ==> m == Some(WorkerMessageView::OutputChunk { prompt_id, text: words->0 })
            &&& !names && !speaks ==> m is None
        }),
{
    reveal_strlit("system");
    reveal_strlit("stream_event");
    assert("system"@.len() == 6 && "stream_event"@.len() == 12);
}

/// What lines tell is told in their order, line by line.
pub proof fn lines_are_told_in_order(prompt_id: usize, a: Seq<Seq<char>>, b: Seq<Seq<char>>)
    ensures
        read_lines(prompt_id, a + b) == read_lines(prompt_id, a) + read_lines(prompt_id, b),
        read_lines(prompt_id, Seq::<Seq<char>>::empty()).len() == 0,
        forall|line: Seq<char>|
            (#[trigger] read_lines(prompt_id, seq![line])) == match read_line(prompt_id, line) {
                Some(m) => seq![m],
                None => Seq::empty(),
            },
    decreases b.len(),
{
    reveal_with_fuel(read_lines, 2);
    let all = a + b;
    assert forall|line: Seq<char>|
        (#[trigger] read_lines(prompt_id, seq![line])) == match read_line(prompt_id, line) {
            Some(m) => seq![m],
            None => Seq::empty(),
        } by {
        assert(seq![line].drop_last() =~= Seq::<Seq<char>>::empty());
        assert(Seq::<WorkerMessageView>::empty().push(read_line(prompt_id, line)->0) =~= seq![
            read_line(prompt_id, line)->0,
        ]);
    }
    if b.len() == 0 {
        assert(all =~= a);
        assert(read_lines(prompt_id, a) + read_lines(prompt_id, b) =~= read_lines(prompt_id, a));
    } else {
        lines_are_told_in_order(prompt_id, a, b.drop_last());
        assert(all.drop_last() =~= a + b.drop_last());
        assert(read_lines(prompt_id, all) =~= read_lines(prompt_id, a) + read_lines(prompt_id, b));
    }
}

} // verus!
