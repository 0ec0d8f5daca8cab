//! One connection of a client to the daemon.
//!
//! Events go out as they come. The output of terminals goes out only to a
//! client that subscribed, and from then on. Requests come in until the client
//! is gone or asks for the daemon to end.

use vstd::prelude::*;
use vstd::string::*;

use crate::ipc::{encode_pty_frame, is_binary_frame, is_pty, pty_payload};
use crate::protocol::{ClientRequest, DaemonEvent};
use crate::text;

verus! {

/// A request, and who it comes from.
#[derive(Debug, PartialEq)]
pub struct ServerCommand {
    pub session_id: usize,
    pub request: ClientRequest,
}

/// What comes of the output of the terminals.
#[derive(Debug, PartialEq)]
pub enum PtyReceived {
    Output { prompt_id: usize, bytes: Vec<u8> },
    /// Some of it was missed.
    Lagged,
    /// There will be no more.
    Closed,
}

/// What to do about what came.
#[derive(Debug, PartialEq)]
pub enum ConnectionStep {
    /// Send the event. With `listen_anew`, output of terminals that came
    /// before is to be forgotten first.
    SendEvent { listen_anew: bool },
    /// Send this payload.
    SendPayload(Vec<u8>),
    /// Read the payload as a request.
    ReadRequest,
    Ignore,
    /// Close the connection.
    Close,
}

/// One connection of a client.
#[derive(Debug, Clone, Copy, PartialEq, Eq, Structural)]
pub struct ClientConnection {
    pub session_id: usize,
    /// Whether the client gets the output of terminals.
    pub pty_active: bool,
}

/// Whether the client gets the output of terminals after an event.
pub open spec fn pty_active_after(active: bool, event: DaemonEvent) -> bool {
    match event {
        DaemonEvent::Subscribed => true,
        DaemonEvent::Unsubscribed => false,
        _ => active,
    }
}

/// What to do about an event for the client.
pub open spec fn event_step(event: DaemonEvent) -> ConnectionStep {
    ConnectionStep::SendEvent { listen_anew: event is Subscribed }
}

/// Whether `r` is what to do about output of a terminal.
pub open spec fn pty_step(r: ConnectionStep, received: PtyReceived) -> bool {
    match received {
        PtyReceived::Output { prompt_id, bytes } => r matches ConnectionStep::SendPayload(p) && p@
            == pty_payload(prompt_id as nat, bytes@),
        PtyReceived::Lagged => r is Ignore,
        PtyReceived::Closed => r is Close,
    }
}

/// What to do about a payload of the client.
pub open spec fn payload_step(payload: Seq<u8>) -> ConnectionStep {
    if is_pty(payload) {
        ConnectionStep::Ignore
    } else {
        ConnectionStep::ReadRequest
    }
}

/// The command for the daemon that a request of a client is, and whether the
/// connection goes on after it.
pub open spec fn request_step(session_id: usize, request: Option<ClientRequest>) -> (
    Option<ServerCommand>,
    bool,
) {
    match request {
        Some(q) => (Some(ServerCommand { session_id, request: q }), !(q is Shutdown)),
        None => (None, true),
    }
}

impl ClientConnection {
    /// A connection that was just made.
    pub fn new(session_id: usize) -> (r: ClientConnection)
        ensures
            r == (ClientConnection { session_id, pty_active: false }),
    {
        ClientConnection { session_id, pty_active: false }
    }

    /// Take an event for the client; there is none where the daemon dropped
    /// the client.
    pub fn on_event(&mut self, event: Option<&DaemonEvent>) -> (r: ConnectionStep)
        ensures
            final(self).session_id == old(self).session_id,
            match event {
                None => r is Close && final(self).pty_active == old(self).pty_active,
                Some(e) => {
                    &&& final(self).pty_active == pty_active_after(old(self).pty_active, *e)
                    &&& r == event_step(*e)
                },
            },
    {
        match event {
            None => ConnectionStep::Close,
            Some(e) => match e {
                DaemonEvent::Subscribed => {
                    self.pty_active = true;
                    ConnectionStep::SendEvent { listen_anew: true }
                },
                DaemonEvent::Unsubscribed => {
                    self.pty_active = false;
                    ConnectionStep::SendEvent { listen_anew: false }
                },
                _ => ConnectionStep::SendEvent { listen_anew: false },
            },
        }
    }

    /// Take output of a terminal. It is listened to only while the client gets
    /// any.
    pub fn on_pty(&self, received: &PtyReceived) -> (r: ConnectionStep)
        requires
            self.pty_active,
        ensures
            pty_step(r, *received),
    {
        match received {
            PtyReceived::Output { prompt_id, bytes } => ConnectionStep::SendPayload(
                encode_pty_frame(*prompt_id, bytes),
            ),
            PtyReceived::Lagged => ConnectionStep::Ignore,
            PtyReceived::Closed => ConnectionStep::Close,
        }
    }

    /// Take the payload of a frame of the client; there is none where no frame
    /// could be read.
    pub fn on_payload(&self, payload: Option<&Vec<u8>>) -> (r: ConnectionStep)
        ensures
            r == match payload {
                None => ConnectionStep::Close,
                Some(p) => payload_step(p@),
            },
    {
        match payload {
            None => ConnectionStep::Close,
            Some(p) => {
                if is_binary_frame(p) {
                    ConnectionStep::Ignore
                } else {
                    ConnectionStep::ReadRequest
                }
            },
        }
    }

    /// Take a request of the client, or a payload that is none: the command
    /// for the daemon, and whether the connection goes on after it.
    pub fn on_request(&self, request: Option<ClientRequest>) -> (r: (Option<ServerCommand>, bool))
        ensures
            r == request_step(self.session_id, request),
    {
        match request {
            Some(q) => {
                let stop: bool = match &q {
                    ClientRequest::Shutdown => true,
                    _ => false,
                };
                (Some(ServerCommand { session_id: self.session_id, request: q }), !stop)
            },
            None => (None, true),
        }
    }
}

/// The error for a frame that is too long.
pub fn frame_too_large(len: usize) -> (r: String)
    ensures
        r@ == "Frame too large: "@ + text::decimal(len as nat),
{
    let n: String = text::number(len as u128);
    text::cat2("Frame too large: ", n.as_str())
}

/// A client that never subscribed gets no output of a terminal.
pub proof fn no_output_before_subscribing(active: bool, events: Seq<DaemonEvent>)
    requires
        !active,
        forall|i: int| 0 <= i < events.len() ==> !(#[trigger] events[i] is Subscribed),
    ensures
        !events.fold_left(active, |a: bool, e: DaemonEvent| pty_active_after(a, e)),
    decreases events.len(),
{
    if events.len() > 0 {
        let f = |a: bool, e: DaemonEvent| pty_active_after(a, e);
        assert forall|i: int| 0 <= i < events.drop_last().len() implies !(#[trigger] events.drop_last()[i] is Subscribed) by {
            assert(!(events[i] is Subscribed));
        }
        no_output_before_subscribing(active, events.drop_last());
        assert(!(events[events.len() - 1] is Subscribed));
    }
}

/// A request reaches the daemon as it is, under the number of the client; what
/// is no request reaches it not at all. Only a shutdown ends the connection.
pub proof fn requests_reach_the_daemon(session_id: usize, request: Option<ClientRequest>)
    ensures
        request matches Some(q) ==> (request_step(session_id, request).0 matches Some(c)
            && c.session_id == session_id && c.request == q),
        request is None ==> request_step(session_id, request).0 is None,
        !request_step(session_id, request).1 <==> request == Some(ClientRequest::Shutdown),
{
}

/// Every event is sent to its client. Output of terminals that came before a
/// subscription is forgotten exactly when that begins; from then on, until it
/// ends, the client gets output, marked with its prompt.
pub proof fn subscribers_get_output(
    event: DaemonEvent,
    active: bool,
    r: ConnectionStep,
    received: PtyReceived,
    payload: Seq<u8>,
)
    requires
        pty_step(r, received),
    ensures
        event_step(event) matches ConnectionStep::SendEvent { listen_anew } && (listen_anew
            <==> event == DaemonEvent::Subscribed),
        event == DaemonEvent::Subscribed ==> pty_active_after(active, event),
        event == DaemonEvent::Unsubscribed ==> !pty_active_after(active, event),
        event != DaemonEvent::Subscribed && event != DaemonEvent::Unsubscribed ==> pty_active_after(
            active,
            event,
        ) == active,
        r is SendPayload <==> received is Output,
        r is Close <==> received is Closed,
        received matches PtyReceived::Output { prompt_id, bytes } ==> (
        r matches ConnectionStep::SendPayload(p) && p@ == pty_payload(prompt_id as nat, bytes@)),
        payload_step(payload) is ReadRequest <==> !is_pty(payload),
        payload_step(payload) is Ignore <==> is_pty(payload),
{
}

} // verus!
