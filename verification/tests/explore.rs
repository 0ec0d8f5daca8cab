//! Explore workers for tickets.

use clhorde::jira::event::JiraTicketPayload;
use clhorde::protocol::ClientRequest;
use clhorde::scheduler::explore::{
    build_request, dispatch_result, explore_tag, reap_idle_workers, render_prompt, DispatchError,
    ExploreWorker, DEFAULT_IDLE_THRESHOLD,
};
use clhorde::scheduler::workflow::Timestamp;

fn now() -> Timestamp {
    Timestamp {
        secs: 1_750_000_000,
        nanos: 0,
    }
}

fn hours_ago(hours: i64) -> Timestamp {
    Timestamp {
        secs: 1_750_000_000 - 3600 * hours,
        nanos: 0,
    }
}

fn payload() -> JiraTicketPayload {
    JiraTicketPayload {
        key: "PROJ-1".into(),
        title: "Add OAuth login".into(),
        description: "We need OAuth so users can sign in via Google.".into(),
        acceptance_criteria: "- Google OAuth\n- Apple OAuth".into(),
        labels: vec!["clhorde-plan".into(), "auth".into()],
        reporter: Some("alice".into()),
    }
}

#[test]
fn template_substitutes_every_placeholder() {
    let body = render_prompt(&payload());
    assert!(!body.contains("{key}"), "key placeholder leaked: {body}");
    assert!(!body.contains("{title}"));
    assert!(!body.contains("{description}"));
    assert!(!body.contains("{acceptance_criteria}"));
    assert!(!body.contains("{labels}"));
    assert!(!body.contains("{reporter}"));
    assert!(body.contains("PROJ-1"));
    assert!(body.contains("Add OAuth login"));
    assert!(body.contains("We need OAuth so users"));
    assert!(body.contains("- Google OAuth"));
    assert!(body.contains("clhorde-plan, auth"));
    assert!(body.contains("alice"));
}

#[test]
fn template_carries_change_name_directive() {
    let body = render_prompt(&payload());
    assert!(
        body.contains("openspec/changes/PROJ-1"),
        "expected change-name directive referencing PROJ-1; got: {body}"
    );
    assert!(
        body.contains("MUST be named exactly `PROJ-1`"),
        "expected MUST directive on change-dir name"
    );
}

#[test]
fn template_starts_with_opsx_explore_invocation() {
    let body = render_prompt(&payload());
    assert!(
        body.starts_with("/opsx:explore"),
        "explore template must invoke /opsx:explore at the top; got: {body}"
    );
}

#[test]
fn missing_optional_fields_render_as_empty_strings() {
    let p = JiraTicketPayload {
        key: "X-1".into(),
        title: "T".into(),
        description: String::new(),
        acceptance_criteria: String::new(),
        labels: Vec::new(),
        reporter: None,
    };
    let body = render_prompt(&p);
    assert!(!body.contains('{'));
    assert!(body.contains("Reporter: \n"));
    assert!(body.contains("Labels: \n"));
}

#[test]
fn explore_tag_format_matches_phase_convention() {
    assert_eq!(
        explore_tag("PROJ-1"),
        "clhorde-scheduler/wf=PROJ-1/phase=explore"
    );
}

#[test]
fn build_request_is_interactive_and_carries_explore_tag() {
    let req = build_request("PROJ-1", Some("/repo".into()), &payload());
    match req {
        ClientRequest::SubmitPrompt {
            mode,
            worktree,
            tags,
            depends_on,
            worktree_id,
            cwd,
            text,
        } => {
            assert_eq!(mode, "interactive");
            assert!(!worktree, "explore worker must run outside worktrees");
            assert_eq!(tags, vec!["clhorde-scheduler/wf=PROJ-1/phase=explore"]);
            assert!(depends_on.is_empty());
            assert!(worktree_id.is_none());
            assert_eq!(cwd.as_deref(), Some("/repo"));
            assert!(text.starts_with("/opsx:explore"));
        }
        other => panic!("expected SubmitPrompt, got {other:?}"),
    }
}

#[test]
fn worker_without_prompt_id_is_never_idle() {
    let now = now();
    let mut w = ExploreWorker::new("PROJ-1".to_string(), now);
    w.last_input_at = hours_ago(48);
    assert!(!w.is_idle_for(now, DEFAULT_IDLE_THRESHOLD));
}

#[test]
fn worker_idle_past_threshold_is_flagged() {
    let now = now();
    let mut w = ExploreWorker::new("PROJ-1".to_string(), now);
    w.prompt_id = Some(7);
    w.last_input_at = hours_ago(25);
    assert!(w.is_idle_for(now, DEFAULT_IDLE_THRESHOLD));
}

#[test]
fn worker_active_within_threshold_is_not_idle() {
    let now = now();
    let mut w = ExploreWorker::new("PROJ-1".to_string(), now);
    w.prompt_id = Some(7);
    w.last_input_at = hours_ago(1);
    assert!(!w.is_idle_for(now, DEFAULT_IDLE_THRESHOLD));
}

#[test]
fn reap_emits_kill_workers_only_for_idle_with_id() {
    let now = now();
    let stale = ExploreWorker {
        workflow: "PROJ-1".into(),
        prompt_id: Some(11),
        last_input_at: hours_ago(48),
    };
    let fresh = ExploreWorker {
        workflow: "PROJ-2".into(),
        prompt_id: Some(22),
        last_input_at: now,
    };
    let no_id = ExploreWorker {
        workflow: "PROJ-3".into(),
        prompt_id: None,
        last_input_at: hours_ago(72),
    };

    let kills = reap_idle_workers(
        &vec![stale, fresh, no_id],
        now,
        DEFAULT_IDLE_THRESHOLD,
    );
    assert_eq!(kills.len(), 1);
    match &kills[0] {
        ClientRequest::KillWorker { prompt_id } => {
            assert_eq!(*prompt_id, 11);
        }
        other => panic!("expected KillWorker, got {other:?}"),
    }
}

#[test]
fn reap_with_zero_threshold_kills_every_worker_with_id() {
    let now = now();
    let a = ExploreWorker {
        workflow: "PROJ-1".into(),
        prompt_id: Some(1),
        last_input_at: now,
    };
    let b = ExploreWorker {
        workflow: "PROJ-2".into(),
        prompt_id: Some(2),
        last_input_at: now,
    };
    let kills = reap_idle_workers(&vec![a, b], now, 0);
    assert_eq!(kills.len(), 2);
}

#[test]
fn dispatch_sends_one_request_through_outbound() {
    match build_request("PROJ-1", None, &payload()) {
        ClientRequest::SubmitPrompt { mode, .. } => {
            assert_eq!(mode, "interactive");
        }
        other => panic!("expected SubmitPrompt, got {other:?}"),
    }
    assert_eq!(dispatch_result(true), Ok(()));
}

#[test]
fn dispatch_returns_channel_closed_when_receiver_dropped() {
    let err = dispatch_result(false).unwrap_err();
    assert_eq!(err, DispatchError::ChannelClosed);
    assert!(!err.to_text().is_empty());
}

#[test]
fn a_clock_set_back_leaves_a_worker_alone() {
    let w = ExploreWorker {
        workflow: "PROJ-1".into(),
        prompt_id: Some(1),
        last_input_at: hours_ago(-1),
    };
    assert!(!w.is_idle_for(now(), 0));
}

#[test]
fn idle_time_counts_nanoseconds() {
    let w = ExploreWorker {
        workflow: "PROJ-1".into(),
        prompt_id: Some(1),
        last_input_at: Timestamp { secs: 10, nanos: 999_999_999 },
    };
    let later = Timestamp { secs: 11, nanos: 0 };
    assert!(w.is_idle_for(later, 1));
    assert!(!w.is_idle_for(later, 2));
}
