//! Polling for tickets, and how many are explored at once.

use clhorde::jira::error::JiraError;
use clhorde::jira::event::{JiraEvent, JiraTicketPayload};
use clhorde::jira::source::{
    ConcurrencyGate, JiraSource, JiraSourceConfig, JiraSourceStore, PollOutcome, QueueConfig,
    DEFAULT_POLL_INTERVAL, MIN_POLL_INTERVAL,
};
use clhorde::time::seconds;

fn payload(key: &str, title: &str) -> JiraTicketPayload {
    JiraTicketPayload {
        key: key.to_string(),
        title: title.to_string(),
        description: String::new(),
        acceptance_criteria: String::new(),
        labels: Vec::new(),
        reporter: None,
    }
}
type Answer = Result<Vec<JiraTicketPayload>, JiraError>;

fn poll(source: &mut JiraSource, script: &mut Vec<Answer>) -> Vec<PollOutcome> {
    let mut results = Vec::new();
    for _ in 0..source.config().queues.len() {
        results.push(script.pop().unwrap_or_else(|| Ok(Vec::new())));
    }
    source.poll_once(&results)
}

fn one_queue(jql: &str) -> JiraSourceConfig {
    let mut cfg = JiraSourceConfig::new(
        DEFAULT_POLL_INTERVAL,
        vec![QueueConfig {
            name: "backlog".to_string(),
            filter_jql: jql.to_string(),
        }],
    );
    cfg.max_results = 50;
    cfg
}

#[test]
fn poll_interval_is_clamped_to_floor() {
    let cfg = JiraSourceConfig::new(seconds(1), vec![]);
    assert_eq!(cfg.poll_interval, MIN_POLL_INTERVAL);
    assert!(JiraSourceConfig::was_clamped(seconds(1)));
}

#[test]
fn poll_interval_above_floor_is_kept() {
    let cfg = JiraSourceConfig::new(seconds(60), vec![]);
    assert_eq!(cfg.poll_interval, seconds(60));
    assert!(!JiraSourceConfig::was_clamped(seconds(60)));
}

#[test]
fn floor_value_is_kept() {
    let cfg = JiraSourceConfig::new(MIN_POLL_INTERVAL, vec![]);
    assert_eq!(cfg.poll_interval, MIN_POLL_INTERVAL);
    assert!(!JiraSourceConfig::was_clamped(MIN_POLL_INTERVAL));
}

#[test]
fn appeared_emits_ticket_appeared_for_each_new_key() {
    let mut scripted: Vec<Answer> = vec![Ok(vec![
        payload("PROJ-1", "First"),
        payload("PROJ-2", "Second"),
    ])];
    let mut source =
        JiraSource::new(one_queue("project = PROJ"));

    let outcomes = poll(&mut source, &mut scripted);
    let events: Vec<&JiraEvent> = outcomes
        .iter()
        .filter_map(|o| match o {
            PollOutcome::Event(ev) => Some(ev),
            _ => None,
        })
        .collect();
    assert_eq!(events.len(), 2);
    let keys: Vec<String> = events
        .iter()
        .map(|ev| match ev {
            JiraEvent::TicketAppeared { key, .. } => key.clone(),
            _ => panic!("unexpected event variant: {ev:?}"),
        })
        .collect();
    assert!(keys.contains(&"PROJ-1".to_string()));
    assert!(keys.contains(&"PROJ-2".to_string()));
    assert_eq!(
        source.last_seen("backlog"),
        vec!["PROJ-1".to_string(), "PROJ-2".to_string()]
    );
}

#[test]
fn stable_set_emits_no_events_on_second_poll() {
    let mut scripted: Vec<Answer> = vec![
        Ok(vec![payload("PROJ-1", "First")]),
        Ok(vec![payload("PROJ-1", "First")]),
    ];
    let mut source =
        JiraSource::new(one_queue("project = PROJ"));

    let first = poll(&mut source, &mut scripted);
    assert_eq!(first.len(), 1);
    let second = poll(&mut source, &mut scripted);
    assert!(
        second.is_empty(),
        "stable set must not emit events; got {second:?}"
    );
}

#[test]
fn ticket_leaving_filter_emits_left_event() {
    let mut scripted: Vec<Answer> = vec![
        Ok(vec![payload("PROJ-1", "First")]),
        Ok(vec![payload("PROJ-1", "First"), payload("PROJ-2", "Second")]),
    ];
    let mut source =
        JiraSource::new(one_queue("project = PROJ"));

    let first = poll(&mut source, &mut scripted);
    assert_eq!(first.len(), 2);
    let second = poll(&mut source, &mut scripted);
    assert_eq!(second.len(), 1);
    match &second[0] {
        PollOutcome::Event(JiraEvent::TicketLeftFilter { key }) => {
            assert_eq!(key, "PROJ-2");
        }
        other => panic!("expected TicketLeftFilter, got {other:?}"),
    }
    assert_eq!(
        source.last_seen("backlog"),
        vec!["PROJ-1".to_string()]
    );
}

#[test]
fn appeared_and_left_emitted_in_one_poll() {
    let mut scripted: Vec<Answer> = vec![
        Ok(vec![payload("PROJ-2", "Second"), payload("PROJ-3", "Third")]),
        Ok(vec![payload("PROJ-1", "First"), payload("PROJ-2", "Second")]),
    ];
    let mut source =
        JiraSource::new(one_queue("project = PROJ"));
    let _ = poll(&mut source, &mut scripted);
    let outcomes = poll(&mut source, &mut scripted);
    let mut appeared = Vec::new();
    let mut left = Vec::new();
    for o in &outcomes {
        match o {
            PollOutcome::Event(JiraEvent::TicketAppeared { key, .. }) => {
                appeared.push(key.clone());
            }
            PollOutcome::Event(JiraEvent::TicketLeftFilter { key }) => {
                left.push(key.clone());
            }
            other => panic!("unexpected outcome {other:?}"),
        }
    }
    assert_eq!(appeared, vec!["PROJ-3".to_string()]);
    assert_eq!(left, vec!["PROJ-1".to_string()]);
}

#[test]
fn network_failure_records_error_and_does_not_lose_state() {
    let mut scripted: Vec<Answer> = vec![
        Ok(vec![payload("PROJ-1", "First")]),
        Err(JiraError::Network("connection refused".to_string())),
        Ok(vec![payload("PROJ-1", "First")]),
    ];
    let mut source =
        JiraSource::new(one_queue("project = PROJ"));

    let first = poll(&mut source, &mut scripted);
    assert_eq!(first.len(), 1, "first poll seeds with PROJ-1");

    let second = poll(&mut source, &mut scripted);
    assert_eq!(second.len(), 1);
    match &second[0] {
        PollOutcome::Error { queue, message } => {
            assert_eq!(queue, "backlog");
            assert!(message.contains("network"), "got: {message}");
        }
        other => panic!("expected Error outcome, got {other:?}"),
    }
    assert_eq!(
        source.last_seen("backlog"),
        vec!["PROJ-1".to_string()]
    );

    let third = poll(&mut source, &mut scripted);
    assert!(
        third.is_empty(),
        "post-recovery poll on stable set must be empty; got {third:?}"
    );
}

#[test]
fn multiple_queues_are_independent() {
    let mut scripted: Vec<Answer> = vec![
        Ok(vec![payload("PROJ-9", "Urgent")]),
        Ok(vec![payload("PROJ-1", "First")]),
    ];
    let cfg = JiraSourceConfig::new(
        DEFAULT_POLL_INTERVAL,
        vec![
            QueueConfig {
                name: "backlog".to_string(),
                filter_jql: "labels = clhorde-plan".to_string(),
            },
            QueueConfig {
                name: "urgent".to_string(),
                filter_jql: "priority = Highest".to_string(),
            },
        ],
    );
    let mut source = JiraSource::new(cfg);

    let outcomes = poll(&mut source, &mut scripted);
    let keys: Vec<String> = outcomes
        .iter()
        .filter_map(|o| match o {
            PollOutcome::Event(JiraEvent::TicketAppeared { key, .. }) => {
                Some(key.clone())
            }
            _ => None,
        })
        .collect();
    assert_eq!(keys.len(), 2);
    assert!(keys.contains(&"PROJ-1".to_string()));
    assert!(keys.contains(&"PROJ-9".to_string()));

    assert_eq!(
        source.last_seen("backlog"),
        vec!["PROJ-1".to_string()]
    );
    assert_eq!(
        source.last_seen("urgent"),
        vec!["PROJ-9".to_string()]
    );
}

#[test]
fn dropped_payload_with_empty_key_is_ignored() {
    let mut scripted: Vec<Answer> = vec![Ok(vec![
        payload("", "Bogus"),
        payload("PROJ-1", "First"),
    ])];
    let mut source =
        JiraSource::new(one_queue("project = PROJ"));
    let outcomes = poll(&mut source, &mut scripted);
    assert_eq!(outcomes.len(), 1);
    assert_eq!(
        source.last_seen("backlog"),
        vec!["PROJ-1".to_string()]
    );
}

fn appeared_key(ev: &JiraEvent) -> &str {
    match ev {
        JiraEvent::TicketAppeared { key, .. } => key,
        other => panic!("expected TicketAppeared, got {other:?}"),
    }
}

#[test]
fn gate_admits_up_to_capacity_directly() {
    let mut gate = ConcurrencyGate::new(2);
    let a = gate.admit_ticket(payload("PROJ-1", "First"));
    let b = gate.admit_ticket(payload("PROJ-2", "Second"));
    assert!(a.is_some());
    assert!(b.is_some());
    assert_eq!(appeared_key(a.as_ref().unwrap()), "PROJ-1");
    assert_eq!(appeared_key(b.as_ref().unwrap()), "PROJ-2");
    assert_eq!(gate.active_count(), 2);
    assert_eq!(gate.queued_count(), 0);
}

#[test]
fn gate_queues_overflow() {
    let mut gate = ConcurrencyGate::new(1);
    let a = gate.admit_ticket(payload("PROJ-1", "First"));
    let b = gate.admit_ticket(payload("PROJ-2", "Second"));
    assert!(a.is_some());
    assert!(b.is_none(), "second admit should queue");
    assert_eq!(gate.active_count(), 1);
    assert_eq!(gate.queued_count(), 1);
}

#[test]
fn gate_release_flushes_one_queued() {
    let mut gate = ConcurrencyGate::new(1);
    gate.admit_ticket(payload("PROJ-1", "First"));
    gate.admit_ticket(payload("PROJ-2", "Second"));
    gate.admit_ticket(payload("PROJ-3", "Third"));
    assert_eq!(gate.queued_count(), 2);

    let next = gate.release("PROJ-1").expect("release should flush PROJ-2");
    assert_eq!(appeared_key(&next), "PROJ-2");
    assert_eq!(gate.active_count(), 1);
    assert_eq!(gate.queued_count(), 1);

    let next = gate.release("PROJ-2").expect("release should flush PROJ-3");
    assert_eq!(appeared_key(&next), "PROJ-3");
    assert_eq!(gate.active_count(), 1);
    assert_eq!(gate.queued_count(), 0);
}

#[test]
fn gate_release_returns_none_when_queue_empty() {
    let mut gate = ConcurrencyGate::new(2);
    gate.admit_ticket(payload("PROJ-1", "First"));
    let next = gate.release("PROJ-1");
    assert!(next.is_none());
    assert_eq!(gate.active_count(), 0);
}

#[test]
fn gate_release_unknown_key_is_noop() {
    let mut gate = ConcurrencyGate::new(2);
    gate.admit_ticket(payload("PROJ-1", "First"));
    let next = gate.release("NEVER-ADMITTED");
    assert!(next.is_none());
    assert_eq!(gate.active_count(), 1);
}

#[test]
fn gate_double_admit_is_noop_for_active_key() {
    let mut gate = ConcurrencyGate::new(2);
    let first = gate.admit_ticket(payload("PROJ-1", "First"));
    let second = gate.admit_ticket(payload("PROJ-1", "First-rerun"));
    assert!(first.is_some());
    assert!(second.is_none());
    assert_eq!(gate.active_count(), 1);
    assert_eq!(gate.queued_count(), 0);
}

#[test]
fn gate_double_admit_does_not_double_queue() {
    let mut gate = ConcurrencyGate::new(1);
    gate.admit_ticket(payload("PROJ-1", "First"));
    gate.admit_ticket(payload("PROJ-2", "Second"));
    gate.admit_ticket(payload("PROJ-2", "Second-rerun"));
    assert_eq!(gate.queued_count(), 1);
}

#[test]
fn gate_drop_queued_removes_pending_payload() {
    let mut gate = ConcurrencyGate::new(1);
    gate.admit_ticket(payload("PROJ-1", "First"));
    gate.admit_ticket(payload("PROJ-2", "Second"));
    assert_eq!(gate.queued_count(), 1);
    assert!(gate.drop_queued("PROJ-2"));
    assert_eq!(gate.queued_count(), 0);
}

#[test]
fn gate_drop_queued_unknown_returns_false() {
    let mut gate = ConcurrencyGate::new(1);
    gate.admit_ticket(payload("PROJ-1", "First"));
    assert!(!gate.drop_queued("NEVER-QUEUED"));
}

#[test]
fn gate_zero_capacity_queues_everything() {
    let mut gate = ConcurrencyGate::new(0);
    let r = gate.admit_ticket(payload("PROJ-1", "First"));
    assert!(r.is_none());
    assert_eq!(gate.active_count(), 0);
    assert_eq!(gate.queued_count(), 1);
}

#[test]
fn gate_release_flushes_in_fifo_order() {
    let mut gate = ConcurrencyGate::new(1);
    gate.admit_ticket(payload("PROJ-1", "First"));
    gate.admit_ticket(payload("PROJ-2", "Second"));
    gate.admit_ticket(payload("PROJ-3", "Third"));
    gate.admit_ticket(payload("PROJ-4", "Fourth"));

    let n2 = gate.release("PROJ-1").unwrap();
    let n3 = gate.release("PROJ-2").unwrap();
    let n4 = gate.release("PROJ-3").unwrap();
    assert_eq!(appeared_key(&n2), "PROJ-2");
    assert_eq!(appeared_key(&n3), "PROJ-3");
    assert_eq!(appeared_key(&n4), "PROJ-4");
}

#[test]
fn store_persists_across_source_recreation() {
    let keys = {
        let mut scripted: Vec<Answer> = vec![Ok(vec![payload("PROJ-1", "First")])];
        let mut source = JiraSource::new(one_queue("project = PROJ"));
        let _ = poll(&mut source, &mut scripted);
        source.last_seen("backlog")
    };

    let mut scripted: Vec<Answer> = vec![Ok(vec![payload("PROJ-1", "First")])];
    let mut source = JiraSource::new(one_queue("project = PROJ"));
    source.restore("backlog", &keys);
    let outcomes = poll(&mut source, &mut scripted);
    assert!(
        outcomes.is_empty(),
        "restart with stable filter must emit nothing; got {outcomes:?}"
    );
}

#[test]
fn stale_snapshot_emits_left_for_now_absent_keys() {
    let mut scripted: Vec<Answer> = vec![Ok(vec![payload("PROJ-1", "First")])];
    let mut source = JiraSource::new(one_queue("project = PROJ"));
    source.restore("backlog", &vec!["PROJ-OLD".to_string()]);

    let outcomes = poll(&mut source, &mut scripted);
    let mut appeared = Vec::new();
    let mut left = Vec::new();
    for o in outcomes {
        match o {
            PollOutcome::Event(JiraEvent::TicketAppeared { key, .. }) => appeared.push(key),
            PollOutcome::Event(JiraEvent::TicketLeftFilter { key }) => left.push(key),
            other => panic!("unexpected outcome {other:?}"),
        }
    }
    assert_eq!(appeared, vec!["PROJ-1".to_string()]);
    assert_eq!(left, vec!["PROJ-OLD".to_string()]);
}

#[test]
fn a_queue_is_kept_in_a_file_of_its_own() {
    let store = JiraSourceStore::open("/data/jira".to_string());
    assert_eq!(store.file_path("backlog"), "/data/jira/backlog.json");
    assert_eq!(JiraSourceStore::open_default(None), None);
    assert!(JiraSourceStore::open_default(Some("/data".to_string())).is_some());
}

#[test]
fn a_payload_dropped_from_the_queue_is_not_flushed() {
    let mut gate = ConcurrencyGate::new(1);
    gate.admit_ticket(payload("PROJ-1", "First"));
    gate.admit_ticket(payload("PROJ-2", "Second"));
    gate.admit_ticket(payload("PROJ-3", "Third"));
    assert!(gate.drop_queued("PROJ-2"));
    let next = gate.release("PROJ-1").unwrap();
    assert_eq!(appeared_key(&next), "PROJ-3");
    assert_eq!(gate.capacity(), 1);
}

#[test]
fn a_restart_with_several_queues_reports_nothing() {
    let queue = |name: &str| QueueConfig {
        name: name.to_string(),
        filter_jql: "labels = x".to_string(),
    };
    let config =
        || JiraSourceConfig::new(DEFAULT_POLL_INTERVAL, vec![queue("one"), queue("two")]);
    let results: Vec<Answer> = vec![
        Ok(vec![payload("B-2", "b"), payload("A-1", "a")]),
        Ok(vec![payload("C-3", "c")]),
    ];
    let mut first = JiraSource::new(config());
    assert_eq!(first.poll_once(&results).len(), 3);
    let kept = vec![first.last_seen("one"), first.last_seen("two")];
    assert_eq!(kept[0], vec!["A-1".to_string(), "B-2".to_string()]);
    let mut second = JiraSource::taking_over(config(), &kept);
    assert!(second.poll_once(&results).is_empty());
}
