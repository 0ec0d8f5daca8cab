//! Talking to the daemon from the scheduler.

use vstd::prelude::*;

use crate::ipc::Incoming;
use crate::protocol::DaemonEvent;

verus! {

/// What the scheduler hears of the daemon.
#[derive(Debug, PartialEq)]
pub enum DaemonMessage {
    Event(Box<DaemonEvent>),
    /// The daemon is gone, or sent a frame that is too long.
    Disconnected,
}

/// What to do about what came in.
#[derive(Debug, PartialEq)]
pub enum ListenStep {
    /// Read more bytes.
    ReadMore,
    /// Pass over that many bytes.
    Skip { used: usize },
    /// Perhaps an event.
    Event { payload: Vec<u8>, used: usize },
    /// The connection is over.
    Disconnect,
}

/// What to do about what came in.
pub open spec fn listen_to(incoming: Incoming) -> ListenStep {
    match incoming {
        Incoming::Incomplete => ListenStep::ReadMore,
        Incoming::TooLarge { .. } => ListenStep::Disconnect,
        Incoming::Pty { used, .. } => ListenStep::Skip { used },
        Incoming::BadPty { used } => ListenStep::Skip { used },
        Incoming::Json { payload, used } => ListenStep::Event { payload, used },
    }
}

/// What to do about what came in: output of terminals is of no use to the
/// scheduler.
pub fn listen_step(incoming: Incoming) -> (r: ListenStep)
    ensures
        r == listen_to(incoming),
{
    match incoming {
        Incoming::Incomplete => ListenStep::ReadMore,
        Incoming::TooLarge { .. } => ListenStep::Disconnect,
        Incoming::Pty { used, .. } => ListenStep::Skip { used },
        Incoming::BadPty { used } => ListenStep::Skip { used },
        Incoming::Json { payload, used } => ListenStep::Event { payload, used },
    }
}

/// What the scheduler hears, by what a payload was read as: one that is no
/// event is passed over, so that newer events do no harm.
pub fn heard(event: Option<DaemonEvent>) -> (r: Option<DaemonMessage>)
    ensures
        match event {
            Some(e) => r matches Some(DaemonMessage::Event(b)) && *b == e,
            None => r is None,
        },
{
    match event {
        Some(e) => Some(DaemonMessage::Event(Box::new(e))),
        None => None,
    }
}

/// The scheduler hears every event and no output of terminals, and gives up on a
/// connection exactly where a frame is too large.
pub proof fn scheduler_hears_events_alone(incoming: Incoming)
    ensures
        listen_to(incoming) is Event <==> incoming is Json,
        listen_to(incoming) is Skip <==> incoming is Pty || incoming is BadPty,
        listen_to(incoming) is Disconnect <==> incoming is TooLarge,
        listen_to(incoming) is ReadMore <==> incoming is Incomplete,
        incoming matches Incoming::Json { payload, used } ==> listen_to(incoming)
            == (ListenStep::Event { payload, used }),
        incoming matches Incoming::Pty { used, .. } ==> listen_to(incoming) == (ListenStep::Skip {
            used,
        }),
        incoming matches Incoming::BadPty { used } ==> listen_to(incoming) == (ListenStep::Skip {
            used,
        }),
{
}

} // verus!
