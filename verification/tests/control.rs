//! The scheduler's control socket.

use clhorde::control::{
    ControlRequest, ControlResponse, DetailNode, SchedulerEvent, WorkflowDetail,
};
use clhorde::daemon::connection::{
    frame_too_large, ClientConnection, ConnectionStep, PtyReceived, ServerCommand,
};
use clhorde::ipc::{encode_frame, encode_pty_frame, next_incoming};
use clhorde::openspec::discovery::MarkerMetadata;
use clhorde::protocol::{ClientRequest, DaemonEvent};
use clhorde::scheduler::control::{
    call_for, detail_snapshot, detail_start, dispatch_request, malformed, only_answer, oversized,
    oversized_response, route, snapshot, subscribe_all_details_step, subscribe_detail_step,
    subscribe_step, summaries, undecodable, CallResult, ControlError, Route, SchedulerCall,
    StreamInput, StreamStep,
};
use clhorde::scheduler::daemon_client::{heard, listen_step, DaemonMessage, ListenStep};
use clhorde::scheduler::runner::{Runner, RunnerAction, RunnerEvent};
use clhorde::scheduler::workflow::Workflow;

fn nothing() -> CallResult {
    CallResult::Done {
        kind: String::new(),
    }
}

fn failed(message: &str) -> CallResult {
    CallResult::Failed {
        message: message.to_string(),
    }
}

fn queued(name: &str) -> Workflow {
    let mut wf = Workflow::drafted(name);
    wf.queue(MarkerMetadata::default()).unwrap();
    wf
}

fn detail(name: &str) -> WorkflowDetail {
    WorkflowDetail {
        name: name.to_string(),
        status: "drafted".to_string(),
        priority: 0,
        apply: vec![],
        verify: None,
        archive: None,
    }
}

#[test]
fn dispatch_ping_returns_pong() {
    let resp = dispatch_request(&ControlRequest::Ping, &vec![], "/repo", nothing());
    assert!(matches!(resp, ControlResponse::Pong));
}

#[test]
fn dispatch_status_empty() {
    let req = ControlRequest::Status { name: None };
    match dispatch_request(&req, &vec![], "/repo", nothing()) {
        ControlResponse::Status { workflows, .. } => assert!(workflows.is_empty()),
        other => panic!("expected Status, got {other:?}"),
    }
}

#[test]
fn dispatch_status_after_marker_lists_workflow() {
    let req = ControlRequest::Status { name: None };
    match dispatch_request(&req, &vec![queued("x")], "/repo", nothing()) {
        ControlResponse::Status { workflows, .. } => {
            assert_eq!(workflows.len(), 1);
            assert_eq!(workflows[0].name, "x");
            assert_eq!(workflows[0].status, "queued");
        }
        other => panic!("expected Status, got {other:?}"),
    }
}

#[test]
fn dispatch_status_named_returns_error_for_unknown() {
    let req = ControlRequest::Status {
        name: Some("ghost".into()),
    };
    match dispatch_request(&req, &vec![queued("x")], "/repo", nothing()) {
        ControlResponse::Error { message } => assert!(message.contains("ghost")),
        other => panic!("expected Error, got {other:?}"),
    }
}

#[test]
fn dispatch_cancel_unqueues_then_returns_ok() {
    let req = ControlRequest::Cancel { name: "x".into() };
    assert_eq!(
        call_for(&req),
        SchedulerCall::CancelWorkflow { name: "x".into() }
    );
    let done = CallResult::Done {
        kind: "unqueued".into(),
    };
    match dispatch_request(&req, &vec![queued("x")], "/repo", done) {
        ControlResponse::Done { message } => assert!(message.contains("unqueued")),
        other => panic!("expected Done, got {other:?}"),
    }
}

#[test]
fn dispatch_cancel_unknown_workflow_errors() {
    let req = ControlRequest::Cancel {
        name: "ghost".into(),
    };
    match dispatch_request(&req, &vec![], "/repo", failed("no workflow: ghost")) {
        ControlResponse::Error { message } => assert!(message.contains("ghost")),
        other => panic!("expected Error, got {other:?}"),
    }
}

#[test]
fn dispatch_retry_unknown_workflow_errors() {
    let req = ControlRequest::Retry {
        name: "ghost".into(),
        section: "1".into(),
    };
    match dispatch_request(&req, &vec![], "/repo", failed("no workflow: ghost")) {
        ControlResponse::Error { message } => assert!(message.contains("ghost")),
        other => panic!("expected Error, got {other:?}"),
    }
}

#[test]
fn dispatch_retry_dispatches_via_outbound_channel() {
    let req = ControlRequest::Retry {
        name: "x".into(),
        section: "1".into(),
    };
    assert_eq!(
        call_for(&req),
        SchedulerCall::RetrySection {
            name: "x".into(),
            section: "1".into()
        }
    );
    match dispatch_request(&req, &vec![queued("x")], "/repo", nothing()) {
        ControlResponse::Done { message } => assert!(message.contains("section 1")),
        other => panic!("expected Done, got {other:?}"),
    }
}

#[test]
fn dispatch_queue_writes_marker_and_reports_ok() {
    let req = ControlRequest::Queue {
        name: "x".into(),
        priority: Some(7),
    };
    assert_eq!(
        call_for(&req),
        SchedulerCall::QueueWorkflow {
            name: "x".into(),
            priority: Some(7)
        }
    );
    match dispatch_request(&req, &vec![], "/repo", nothing()) {
        ControlResponse::Done { message } => assert!(message.contains("queued: x")),
        other => panic!("expected Done, got {other:?}"),
    }
    let listed = summaries(&vec![queued("x")]);
    assert_eq!(listed.len(), 1);
    assert_eq!(listed[0].name, "x");
    assert_eq!(listed[0].status, "queued");
}

#[test]
fn dispatch_queue_unknown_change_errors() {
    let req = ControlRequest::Queue {
        name: "ghost".into(),
        priority: None,
    };
    match dispatch_request(&req, &vec![], "/repo", failed("no such change: ghost")) {
        ControlResponse::Error { message } => assert!(message.contains("ghost")),
        other => panic!("expected Error, got {other:?}"),
    }
}

#[test]
fn dispatch_detail_unknown_workflow_errors() {
    let req = ControlRequest::Detail {
        name: "ghost".into(),
    };
    match dispatch_request(&req, &vec![], "/repo", CallResult::Found { detail: None }) {
        ControlResponse::Error { message } => assert!(message.contains("ghost")),
        other => panic!("expected Error, got {other:?}"),
    }
}

#[test]
fn dispatch_detail_returns_workflow_with_empty_apply_before_parse() {
    let req = ControlRequest::Detail { name: "x".into() };
    let found = CallResult::Found {
        detail: Some(detail("x")),
    };
    match dispatch_request(&req, &vec![Workflow::drafted("x")], "/repo", found) {
        ControlResponse::Detail { detail } => {
            assert_eq!(detail.name, "x");
            assert_eq!(detail.status, "drafted");
            assert!(detail.apply.is_empty());
            assert!(detail.verify.is_none());
            assert!(detail.archive.is_none());
        }
        other => panic!("expected Detail, got {other:?}"),
    }
}

#[test]
fn dispatch_status_carries_root_path() {
    let req = ControlRequest::Status { name: None };
    match dispatch_request(&req, &vec![], "/repo", nothing()) {
        ControlResponse::Status { root, .. } => {
            let r = root.expect("root must be present");
            assert_eq!(r, "/repo");
        }
        other => panic!("expected Status, got {other:?}"),
    }
}

#[test]
fn malformed_request_yields_error_response() {
    match malformed("expected value at line 1 column 2") {
        ControlResponse::Error { message } => assert!(message.contains("malformed request")),
        other => panic!("expected Error, got {other:?}"),
    }
    assert!(oversized(99_999_999).contains("99999999"));
}

#[test]
fn requests_that_stream_are_told_apart() {
    assert_eq!(route(&ControlRequest::Ping), Route::Answer);
    assert_eq!(route(&ControlRequest::Subscribe), Route::Stream);
    assert_eq!(
        route(&ControlRequest::SubscribeDetail { name: "x".into() }),
        Route::StreamDetail { name: "x".into() }
    );
    assert_eq!(
        route(&ControlRequest::SubscribeAllDetails),
        Route::StreamAllDetails
    );
}

#[test]
fn subscribe_emits_initial_snapshot_then_updates() {
    match snapshot(summaries(&vec![queued("x")]), "/repo") {
        ControlResponse::Event {
            event: SchedulerEvent::Snapshot { workflows, root },
        } => {
            assert_eq!(workflows[0].name, "x");
            assert_eq!(root.as_deref(), Some("/repo"));
        }
        other => panic!("expected Snapshot, got {other:?}"),
    }
    let update = SchedulerEvent::WorkflowUpdated {
        summary: Workflow::drafted("x").summary(),
    };
    match subscribe_step(StreamInput::Event(update)) {
        StreamStep::Send(ControlResponse::Event {
            event: SchedulerEvent::WorkflowUpdated { summary },
        }) => assert_eq!(summary.status, "drafted"),
        other => panic!("expected an update, got {other:?}"),
    }
    assert_eq!(subscribe_step(StreamInput::Lagged), StreamStep::SendSnapshot);
    assert_eq!(subscribe_step(StreamInput::Closed), StreamStep::End);
    assert_eq!(subscribe_step(StreamInput::Read { count: 0 }), StreamStep::End);
    assert_eq!(subscribe_step(StreamInput::ReadFailed), StreamStep::End);
}

#[test]
fn a_detail_stream_passes_on_its_own_workflow() {
    let (first, go_on) = detail_start("x", Some(detail("x")));
    assert!(go_on);
    assert!(matches!(
        first,
        ControlResponse::Event {
            event: SchedulerEvent::DetailSnapshot { .. }
        }
    ));
    let (refused, go_on) = detail_start("ghost", None);
    assert!(!go_on);
    assert!(matches!(refused, ControlResponse::Error { message } if message.contains("ghost")));
    let updated = |name: &str| {
        StreamInput::Event(SchedulerEvent::DetailUpdated {
            detail: detail(name),
        })
    };
    assert!(matches!(
        subscribe_detail_step("x", updated("x")),
        StreamStep::Send(_)
    ));
    assert_eq!(subscribe_detail_step("x", updated("y")), StreamStep::Ignore);
    assert!(matches!(
        subscribe_all_details_step(updated("y")),
        StreamStep::Send(_)
    ));
    assert!(matches!(
        detail_snapshot(Some(detail("x"))),
        StreamStep::Send(_)
    ));
    let node = DetailNode {
        id: "1".into(),
        label: "A".into(),
        status: "pending".into(),
    };
    assert_eq!(node.id, "1");
}

#[test]
fn control_errors_have_their_texts() {
    assert!(ControlError::Unreachable("gone".into()).to_text().contains("gone"));
    assert!(ControlError::Io("pipe".into()).to_text().contains("pipe"));
    assert!(ControlError::BadResponse("bad".into()).to_text().contains("bad"));
    assert!(!ControlError::Timeout.to_text().is_empty());
    assert!(matches!(oversized_response(5), ControlError::BadResponse(_)));
    assert!(matches!(undecodable("x"), ControlError::BadResponse(_)));
    assert_eq!(
        only_answer(vec![ControlResponse::Pong]),
        Ok(ControlResponse::Pong)
    );
    assert!(only_answer(vec![]).is_err());
}

/// The event that a JSON text stands for.
fn decoded(payload: &[u8]) -> Option<DaemonEvent> {
    let value: serde_json::Value = serde_json::from_slice(payload).ok()?;
    match value.get("type")?.as_str()? {
        "Pong" => Some(DaemonEvent::Pong),
        "MaxWorkersChanged" => Some(DaemonEvent::MaxWorkersChanged {
            count: value.get("count")?.as_u64()? as usize,
        }),
        _ => None,
    }
}

/// What is heard of a daemon that sends these bytes and is then gone.
fn heard_of(bytes: &[u8]) -> Vec<DaemonMessage> {
    let mut buffer = bytes.to_vec();
    let mut out = Vec::new();
    loop {
        match listen_step(next_incoming(&buffer)) {
            ListenStep::ReadMore | ListenStep::Disconnect => {
                out.push(DaemonMessage::Disconnected);
                return out;
            }
            ListenStep::Skip { used } => {
                buffer.drain(..used);
            }
            ListenStep::Event { payload, used } => {
                out.extend(heard(decoded(&payload)));
                buffer.drain(..used);
            }
        }
    }
}

#[test]
fn pty_frames_are_dropped_silently() {
    let mut bytes = encode_frame(&encode_pty_frame(42, &b"hello".to_vec()));
    assert_eq!(
        listen_step(next_incoming(&bytes)),
        ListenStep::Skip { used: bytes.len() }
    );
    bytes.extend(encode_frame(b"{\"type\":\"Pong\"}"));
    assert_eq!(
        heard_of(&bytes),
        vec![
            DaemonMessage::Event(Box::new(DaemonEvent::Pong)),
            DaemonMessage::Disconnected
        ]
    );
}

#[test]
fn read_loop_yields_event_then_disconnects() {
    let bytes = encode_frame(b"{\"type\":\"MaxWorkersChanged\",\"count\":7}");
    let messages = heard_of(&bytes);
    assert_eq!(messages.len(), 2);
    match &messages[0] {
        DaemonMessage::Event(ev) => match **ev {
            DaemonEvent::MaxWorkersChanged { count } => assert_eq!(count, 7),
            _ => panic!("expected MaxWorkersChanged"),
        },
        _ => panic!("expected Event"),
    }
    assert_eq!(messages[1], DaemonMessage::Disconnected);
    let huge = vec![0xff, 0xff, 0xff, 0xff];
    assert_eq!(listen_step(next_incoming(&huge)), ListenStep::Disconnect);
}

#[test]
fn malformed_json_does_not_disconnect() {
    assert_eq!(heard(None), None);
    let mut bytes = encode_frame(b"{not json}");
    bytes.extend(encode_frame(b"{\"type\":\"Pong\"}"));
    assert_eq!(
        heard_of(&bytes)[0],
        DaemonMessage::Event(Box::new(DaemonEvent::Pong))
    );
}

#[test]
fn all_workflows_are_answered_by_name() {
    let workflows = vec![queued("b"), queued("c"), queued("a")];
    let answer = dispatch_request(
        &ControlRequest::Status { name: None },
        &workflows,
        "/repo",
        nothing(),
    );
    match answer {
        ControlResponse::Status { workflows, root } => {
            let names: Vec<&str> = workflows.iter().map(|w| w.name.as_str()).collect();
            assert_eq!(names, vec!["a", "b", "c"]);
            assert_eq!(root.as_deref(), Some("/repo"));
        }
        _ => panic!("expected Status"),
    }
}

#[test]
fn a_client_gets_terminal_output_once_it_has_subscribed() {
    let mut c = ClientConnection::new(4);
    assert!(!c.pty_active);
    assert_eq!(
        c.on_event(Some(&DaemonEvent::Subscribed)),
        ConnectionStep::SendEvent { listen_anew: true }
    );
    assert!(c.pty_active);
    let output = PtyReceived::Output {
        prompt_id: 2,
        bytes: vec![1, 2],
    };
    assert_eq!(
        c.on_pty(&output),
        ConnectionStep::SendPayload(encode_pty_frame(2, &vec![1, 2]))
    );
    assert_eq!(c.on_pty(&PtyReceived::Lagged), ConnectionStep::Ignore);
    assert_eq!(
        c.on_event(Some(&DaemonEvent::Unsubscribed)),
        ConnectionStep::SendEvent { listen_anew: false }
    );
    assert!(!c.pty_active);
    assert_eq!(c.on_event(None), ConnectionStep::Close);
    assert_eq!(
        c.on_request(Some(ClientRequest::Ping)).0,
        Some(ServerCommand {
            session_id: 4,
            request: ClientRequest::Ping
        })
    );
    assert_eq!(c.on_request(None).0, None);
    assert!(frame_too_large(17).contains("17"));
}

#[test]
fn the_scheduler_connects_anew_after_the_daemon_is_gone() {
    let mut r = Runner::new(true);
    assert_eq!(
        r.step(RunnerEvent::Connected { subscribed: true }),
        RunnerAction::Listen
    );
    assert_eq!(r.step(RunnerEvent::DaemonEvent), RunnerAction::HandleDaemonEvent);
    assert_eq!(r.step(RunnerEvent::FsEvent), RunnerAction::HandleFsEvent);
    assert_eq!(r.step(RunnerEvent::DaemonGone), RunnerAction::DrainAndWait);
    assert!(!r.connected);
    assert_eq!(r.step(RunnerEvent::Waited), RunnerAction::Connect);
    assert_eq!(r.step(RunnerEvent::ConnectFailed), RunnerAction::Wait);
    assert_eq!(r.step(RunnerEvent::Interrupted), RunnerAction::Stop);
}
