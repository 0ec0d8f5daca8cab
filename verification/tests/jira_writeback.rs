//! Writing a workflow's progress back to its ticket.

use clhorde::jira::error::JiraError;
use clhorde::jira::writeback::{
    JiraWriteback, JiraWritebackConfig, LifecyclePhase, WriteCall, COMMENT_ARCHIVED,
    COMMENT_CANCELLED, COMMENT_EXPLORING, DEFAULT_TRIGGER_LABEL,
};

fn comments(calls: &[WriteCall]) -> Vec<(String, String)> {
    calls
        .iter()
        .filter_map(|c| match c {
            WriteCall::AddComment { key, body } => Some((key.clone(), body.clone())),
            _ => None,
        })
        .collect()
}

fn labels_removed(calls: &[WriteCall]) -> Vec<(String, String)> {
    calls
        .iter()
        .filter_map(|c| match c {
            WriteCall::RemoveLabel { key, label } => Some((key.clone(), label.clone())),
            _ => None,
        })
        .collect()
}

fn transitions(calls: &[WriteCall]) -> Vec<(String, String)> {
    calls
        .iter()
        .filter_map(|c| match c {
            WriteCall::Transition { key, transition_id } => {
                Some((key.clone(), transition_id.clone()))
            }
            _ => None,
        })
        .collect()
}

#[test]
fn exploring_posts_comment_and_removes_label() {
    let wb = JiraWriteback::new(JiraWritebackConfig::default());
    let calls = wb.notify_exploring("PROJ-1");

    let comments = comments(&calls);
    assert_eq!(comments.len(), 1);
    assert_eq!(comments[0].0, "PROJ-1");
    assert_eq!(comments[0].1, COMMENT_EXPLORING);

    let labels = labels_removed(&calls);
    assert_eq!(labels.len(), 1);
    assert_eq!(labels[0], ("PROJ-1".into(), DEFAULT_TRIGGER_LABEL.into()));

    assert!(transitions(&calls).is_empty());
}

#[test]
fn comments_disabled_means_no_chatter() {
    let mut config = JiraWritebackConfig::default();
    config.comments = false;
    let wb = JiraWriteback::new(config);

    let mut calls = wb.notify_exploring("PROJ-1");
    calls.extend(wb.notify_archived("PROJ-1"));
    calls.extend(wb.notify_cancelled("PROJ-1"));

    assert!(comments(&calls).is_empty());
    assert_eq!(labels_removed(&calls).len(), 2);
}

#[test]
fn labels_disabled_skips_label_removal() {
    let mut config = JiraWritebackConfig::default();
    config.labels = false;
    let wb = JiraWriteback::new(config);

    let calls = wb.notify_exploring("PROJ-1");

    assert_eq!(comments(&calls).len(), 1);
    assert!(labels_removed(&calls).is_empty());
}

#[test]
fn transitions_disabled_means_no_transition_call() {
    let wb = JiraWriteback::new(JiraWritebackConfig::default());

    let mut calls = wb.notify_exploring("PROJ-1");
    calls.extend(wb.notify_archived("PROJ-1"));
    calls.extend(wb.notify_cancelled("PROJ-1"));

    assert!(transitions(&calls).is_empty());
}

#[test]
fn transitions_enabled_apply_per_phase() {
    let mut config = JiraWritebackConfig::default();
    config
        .transitions
        .insert(LifecyclePhase::Exploring, "31".into());
    config
        .transitions
        .insert(LifecyclePhase::Archived, "61".into());
    let wb = JiraWriteback::new(config);

    let mut calls = wb.notify_exploring("PROJ-1");
    calls.extend(wb.notify_archived("PROJ-1"));
    calls.extend(wb.notify_cancelled("PROJ-2"));

    let mut t = transitions(&calls);
    t.sort();
    assert_eq!(
        t,
        vec![
            ("PROJ-1".to_string(), "31".to_string()),
            ("PROJ-1".to_string(), "61".to_string()),
        ]
    );
}

#[test]
fn comment_failure_surfaces_via_error_channel() {
    let wb = JiraWriteback::new(JiraWritebackConfig::default());
    let calls = wb.notify_archived("PROJ-1");
    assert_eq!(calls.len(), 1);
    let error = JiraError::Server {
        status: 500,
        body: "synthetic".into(),
    };
    let msg = calls[0].failure_text(LifecyclePhase::Archived, &error.to_text());
    assert!(msg.contains("PROJ-1"), "got {msg}");
    assert!(msg.contains("Archived"), "got {msg}");
}

#[test]
fn label_remove_is_best_effort() {
    let wb = JiraWriteback::new(JiraWritebackConfig::default());
    let calls = wb.notify_exploring("PROJ-1");
    assert_eq!(comments(&calls).len(), 1);
    assert_eq!(labels_removed(&calls).len(), 1);
    let error = JiraError::Network("synthetic".into());
    let msg = calls[1].failure_text(LifecyclePhase::Exploring, &error.to_text());
    assert!(msg.contains("label remove"), "got {msg}");
}

#[test]
fn cancelled_path_also_removes_label() {
    let wb = JiraWriteback::new(JiraWritebackConfig::default());
    let calls = wb.notify_cancelled("PROJ-1");
    assert_eq!(labels_removed(&calls).len(), 1);
    assert_eq!(comments(&calls)[0].1, COMMENT_CANCELLED);
}

#[test]
fn archived_path_does_not_touch_label() {
    let wb = JiraWriteback::new(JiraWritebackConfig::default());
    let calls = wb.notify_archived("PROJ-1");
    assert!(labels_removed(&calls).is_empty());
    assert_eq!(comments(&calls)[0].1, COMMENT_ARCHIVED);
}

#[test]
fn config_default_matches_spec_defaults() {
    let c = JiraWritebackConfig::default();
    assert!(c.comments, "comments default on");
    assert!(c.labels, "labels default on");
    assert!(c.transitions.is_empty(), "transitions default off");
    assert_eq!(c.trigger_label, DEFAULT_TRIGGER_LABEL);
}
