//! Talking to the daemon from the command line.

use vstd::prelude::*;
use vstd::string::*;

use crate::ipc::Incoming;
use crate::text;

verus! {

/// The complaint where nobody listens.
pub const CONNECT_ERROR: &'static str = "Failed to connect to daemon. Is it running? Start with: clhorded";

/// The complaint where no answer came in time.
pub const TIMEOUT_ERROR: &'static str = "Timeout waiting for response";

/// What can go wrong on a connection.
#[derive(Debug, Clone, Copy, PartialEq, Eq, Structural)]
pub enum ClientFailure {
    Serialize,
    Write,
    Flush,
    Read,
    Deserialize,
}

/// The beginning of the message for a failure.
pub open spec fn client_failure_words(f: ClientFailure) -> Seq<char> {
    match f {
        ClientFailure::Serialize => "Serialize error: "@,
        ClientFailure::Write => "Write error: "@,
        ClientFailure::Flush => "Flush error: "@,
        ClientFailure::Read => "Read error: "@,
        ClientFailure::Deserialize => "Deserialize error: "@,
    }
}

impl ClientFailure {
    /// The message for a failure with the given error.
    pub fn message(self, error: &str) -> (r: String)
        ensures
            r@ == client_failure_words(self) + error@,
    {
        match self {
            ClientFailure::Serialize => text::cat2("Serialize error: ", error),
            ClientFailure::Write => text::cat2("Write error: ", error),
            ClientFailure::Flush => text::cat2("Flush error: ", error),
            ClientFailure::Read => text::cat2("Read error: ", error),
            ClientFailure::Deserialize => text::cat2("Deserialize error: ", error),
        }
    }
}

/// What to do about what came in while one answer is waited for.
#[derive(Debug, PartialEq)]
pub enum AnswerStep {
    /// Read more bytes.
    ReadMore,
    /// Pass over that many bytes.
    Skip { used: usize },
    /// This is the answer.
    Answer { payload: Vec<u8> },
    /// There will be none.
    Fail { message: String },
}

/// Whether `r` is what to do about what came in while one answer is waited for.
pub open spec fn answer_to(incoming: Incoming, r: AnswerStep) -> bool {
    match incoming {
        Incoming::Incomplete => r is ReadMore,
        Incoming::TooLarge { .. } => r matches AnswerStep::Fail { message } && message@
            == "Response frame too large"@,
        Incoming::Pty { used, .. } => r == (AnswerStep::Skip { used }),
        Incoming::BadPty { used } => r == (AnswerStep::Skip { used }),
        Incoming::Json { payload, .. } => r == (AnswerStep::Answer { payload }),
    }
}

/// What to do about what came in while one answer is waited for: output of
/// terminals is passed over.
pub fn answer_step(incoming: Incoming) -> (r: AnswerStep)
    ensures
        answer_to(incoming, r),
{
    match incoming {
        Incoming::Incomplete => AnswerStep::ReadMore,
        Incoming::TooLarge { .. } => AnswerStep::Fail {
            message: text::owned("Response frame too large"),
        },
        Incoming::Pty { used, .. } => AnswerStep::Skip { used },
        Incoming::BadPty { used } => AnswerStep::Skip { used },
        Incoming::Json { payload, .. } => AnswerStep::Answer { payload },
    }
}

/// What to do about what came in while events are watched.
#[derive(Debug, PartialEq)]
pub enum WatchStep {
    /// Read more bytes.
    ReadMore,
    /// Pass over that many bytes.
    Skip { used: usize },
    /// Output of a terminal.
    Pty { prompt_id: usize, data: Vec<u8>, used: usize },
    /// Perhaps an event; if it is none it is passed over.
    Event { payload: Vec<u8>, used: usize },
    /// The watch is over.
    Stop,
}

/// What to do about what came in while events are watched.
pub open spec fn watch_of(incoming: Incoming) -> WatchStep {
    match incoming {
        Incoming::Incomplete => WatchStep::ReadMore,
        Incoming::TooLarge { .. } => WatchStep::Stop,
        Incoming::Pty { prompt_id, data, used } => WatchStep::Pty { prompt_id, data, used },
        Incoming::BadPty { used } => WatchStep::Skip { used },
        Incoming::Json { payload, used } => WatchStep::Event { payload, used },
    }
}

/// What to do about what came in while events are watched.
pub fn watch_step(incoming: Incoming) -> (r: WatchStep)
    ensures
        r == watch_of(incoming),
{
    match incoming {
        Incoming::Incomplete => WatchStep::ReadMore,
        Incoming::TooLarge { .. } => WatchStep::Stop,
        Incoming::Pty { prompt_id, data, used } => WatchStep::Pty { prompt_id, data, used },
        Incoming::BadPty { used } => WatchStep::Skip { used },
        Incoming::Json { payload, used } => WatchStep::Event { payload, used },
    }
}

/// The answer is the first whole payload that is no output of a terminal; that
/// is passed over, byte for byte. A frame that is too large ends the wait, and
/// the watch. While events are watched, output of terminals comes through with
/// its prompt.
pub proof fn answers_and_events_come_through(incoming: Incoming, r: AnswerStep)
    requires
        answer_to(incoming, r),
    ensures
        r is Answer <==> incoming is Json,
        r is Skip <==> incoming is Pty || incoming is BadPty,
        r is Fail <==> incoming is TooLarge,
        watch_of(incoming) is Event <==> incoming is Json,
        watch_of(incoming) is Pty <==> incoming is Pty,
        watch_of(incoming) is Skip <==> incoming is BadPty,
        watch_of(incoming) is Stop <==> incoming is TooLarge,
        incoming matches Incoming::Json { payload, used } ==> r == (AnswerStep::Answer { payload })
            && watch_of(incoming) == (WatchStep::Event { payload, used }),
        incoming matches Incoming::Pty { prompt_id, data, used } ==> r == (AnswerStep::Skip { used })
            && watch_of(incoming) == (WatchStep::Pty { prompt_id, data, used }),
        incoming matches Incoming::BadPty { used } ==> r == (AnswerStep::Skip { used }) && watch_of(
            incoming,
        ) == (WatchStep::Skip { used }),
{
}

} // verus!
