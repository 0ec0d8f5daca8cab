//! The loop of the long-lived scheduler.
//!
//! It keeps a connection to the daemon, hands events of the daemon and of the
//! file system on, and forwards the requests that come of them. A lost
//! connection is made anew after a wait; a watcher that ended is not listened
//! to any more; an interrupt ends the loop.

use vstd::prelude::*;

verus! {

/// The wait before a connection is made anew: two seconds.
pub const RECONNECT_DELAY: u128 = 2_000_000_000;

/// Where the loop stands.
#[derive(Debug, Clone, Copy, PartialEq, Eq, Structural)]
pub struct Runner {
    /// Whether there is a connection to the daemon.
    pub connected: bool,
    /// Whether changes in the file system are still reported.
    pub watcher_alive: bool,
}

/// What happened.
#[derive(Debug, Clone, Copy, PartialEq, Eq, Structural)]
pub enum RunnerEvent {
    /// A connection was made; `subscribed` tells whether the daemon took the
    /// subscription.
    Connected { subscribed: bool },
    /// No connection could be made.
    ConnectFailed,
    /// The daemon told something.
    DaemonEvent,
    /// The daemon is gone.
    DaemonGone,
    /// Something changed in the file system.
    FsEvent,
    /// The watcher ended.
    WatcherClosed,
    /// There is a request for the daemon; `sent` tells whether it was taken.
    Outbound { sent: bool },
    /// No request can come any more.
    OutboundClosed,
    /// The wait is over.
    Waited,
    /// The user wants to stop.
    Interrupted,
}

/// What to do next.
#[derive(Debug, Clone, Copy, PartialEq, Eq, Structural)]
pub enum RunnerAction {
    /// Wait for the next thing to happen.
    Listen,
    /// Hand the event of the daemon on, and listen.
    HandleDaemonEvent,
    /// Hand the change in the file system on, and listen.
    HandleFsEvent,
    /// Wait.
    Wait,
    /// Hand on all changes that came meanwhile, and wait.
    DrainAndWait,
    /// Connect to the daemon.
    Connect,
    /// Remove the control socket and end.
    Stop,
}

/// Whether an event can happen in a state: nothing comes from a daemon that
/// there is no connection to, nor from a watcher that ended.
pub open spec fn can_happen(s: Runner, e: RunnerEvent) -> bool {
    match e {
        RunnerEvent::Connected { .. } | RunnerEvent::ConnectFailed
        | RunnerEvent::Waited => !s.connected,
        RunnerEvent::DaemonEvent | RunnerEvent::DaemonGone | RunnerEvent::Outbound { .. }
        | RunnerEvent::OutboundClosed => s.connected,
        RunnerEvent::FsEvent | RunnerEvent::WatcherClosed => s.connected && s.watcher_alive,
        RunnerEvent::Interrupted => true,
    }
}

/// Where the loop stands after an event.
pub open spec fn runner_after(s: Runner, e: RunnerEvent) -> Runner {
    match e {
        RunnerEvent::Connected { subscribed } => Runner { connected: subscribed, ..s },
        RunnerEvent::ConnectFailed | RunnerEvent::DaemonGone => Runner { connected: false, ..s },
        RunnerEvent::Outbound { sent } => Runner { connected: sent, ..s },
        RunnerEvent::WatcherClosed => Runner { watcher_alive: false, ..s },
        _ => s,
    }
}

/// What to do after an event.
pub open spec fn runner_action(s: Runner, e: RunnerEvent) -> RunnerAction {
    match e {
        RunnerEvent::DaemonEvent => RunnerAction::HandleDaemonEvent,
        RunnerEvent::FsEvent => RunnerAction::HandleFsEvent,
        RunnerEvent::Waited => RunnerAction::Connect,
        RunnerEvent::Interrupted | RunnerEvent::OutboundClosed => RunnerAction::Stop,
        RunnerEvent::Connected { subscribed: false } => RunnerAction::Wait,
        _ => if runner_after(s, e).connected {
            RunnerAction::Listen
        } else {
            RunnerAction::DrainAndWait
        },
    }
}

impl Runner {
    /// The loop before it first connects.
    pub fn new(watcher_started: bool) -> (r: Runner)
        ensures
            r == (Runner { connected: false, watcher_alive: watcher_started }),
    {
        Runner { connected: false, watcher_alive: watcher_started }
    }

    /// Take an event, and say what to do next.
    pub fn step(&mut self, event: RunnerEvent) -> (r: RunnerAction)
        requires
            can_happen(*old(self), event),
        ensures
            *final(self) == runner_after(*old(self), event),
            r == runner_action(*old(self), event),
    {
        match event {
            RunnerEvent::Connected { subscribed } => {
                self.connected = subscribed;
                if !subscribed {
                    return RunnerAction::Wait;
                }
            },
            RunnerEvent::ConnectFailed | RunnerEvent::DaemonGone => {
                self.connected = false;
            },
            RunnerEvent::Outbound { sent } => {
                self.connected = sent;
            },
            RunnerEvent::WatcherClosed => {
                self.watcher_alive = false;
            },
            RunnerEvent::DaemonEvent => {
                return RunnerAction::HandleDaemonEvent;
            },
            RunnerEvent::FsEvent => {
                return RunnerAction::HandleFsEvent;
            },
            RunnerEvent::Waited => {
                return RunnerAction::Connect;
            },
            RunnerEvent::Interrupted | RunnerEvent::OutboundClosed => {
                return RunnerAction::Stop;
            },
        }
        if self.connected {
            RunnerAction::Listen
        } else {
            RunnerAction::DrainAndWait
        }
    }
}

/// Once the watcher ended it is never listened to again.
pub proof fn watcher_stays_closed(s: Runner, e: RunnerEvent)
    requires
        !s.watcher_alive,
    ensures
        !runner_after(s, e).watcher_alive,
        can_happen(s, e) ==> runner_action(s, e) != RunnerAction::HandleFsEvent,
{
}

/// A lost connection never ends the loop: it is made anew.
pub proof fn lost_connection_is_made_anew(s: Runner, e: RunnerEvent)
    requires
        can_happen(s, e),
        e != RunnerEvent::Interrupted && e != RunnerEvent::OutboundClosed,
        !runner_after(s, e).connected,
    ensures
        runner_action(s, e) == RunnerAction::DrainAndWait || runner_action(s, e)
            == RunnerAction::Wait || runner_action(s, e) == RunnerAction::Connect,
        runner_action(runner_after(s, e), RunnerEvent::Waited) == RunnerAction::Connect,
{
}

/// The loop stops exactly where the user wants to, or where no request can come
/// any more. What the daemon or the watcher tells is handed on. Without a
/// connection it waits, and connects after the wait.
pub proof fn loop_does_what_happened(s: Runner, e: RunnerEvent)
    requires
        can_happen(s, e),
    ensures
        ({
            let t = runner_after(s, e);
            let a = runner_action(s, e);
            &&& a == RunnerAction::Stop <==> e == RunnerEvent::Interrupted || e
                == RunnerEvent::OutboundClosed
            &&& a == RunnerAction::HandleDaemonEvent <==> e == RunnerEvent::DaemonEvent
            &&& a == RunnerAction::HandleFsEvent <==> e == RunnerEvent::FsEvent
            &&& a == RunnerAction::Connect <==> e == RunnerEvent::Waited
            &&& a == RunnerAction::Wait <==> e == (RunnerEvent::Connected { subscribed: false })
            &&& a == RunnerAction::DrainAndWait <==> e == RunnerEvent::ConnectFailed || e
                == RunnerEvent::DaemonGone || e == (RunnerEvent::Outbound { sent: false })
            &&& t.connected == match e {
                RunnerEvent::Connected { subscribed } => subscribed,
                RunnerEvent::Outbound { sent } => sent,
                RunnerEvent::ConnectFailed | RunnerEvent::DaemonGone => false,
                _ => s.connected,
            }
            &&& t.watcher_alive <==> s.watcher_alive && e != RunnerEvent::WatcherClosed
        }),
{
}

} // verus!
